use spooky::{
    apply_drag, handle_hover, handle_jump, handle_movement, player_input, turn_multiplier,
    Deceleration, EntityId, Hover, JumpTrigger, MoveKeys, Movement, Probe, RotationDriver,
    Spring, Vec3i, JUMP_IMPULSE, UNIT,
};

fn hover(ride_height: i64, strength: i64, damper: i64) -> Hover {
    Hover { ray_length: 4000, ride_height, strength, damper }
}

#[test]
fn spring_force_at_five_units_restores_downward() {
    let h = hover(2800, 700, 60);
    let f = h.calculate_spring_force(5000, Vec3i::zero());
    assert_eq!(f, -1_540_000);
}

#[test]
fn spring_force_below_ride_height_pushes_up() {
    let h = hover(2800, 900, 60);
    for d in [0, 1000, 2000, 2799] {
        assert!(h.calculate_spring_force(d, Vec3i::zero()) > 0);
    }
    assert_eq!(h.calculate_spring_force(2000, Vec3i::zero()), 720_000);
}

#[test]
fn spring_force_at_ride_height_is_zero() {
    let h = hover(2800, 900, 60);
    assert_eq!(h.calculate_spring_force(2800, Vec3i::zero()), 0);
}

#[test]
fn falling_body_gets_more_resistance() {
    let h = hover(2800, 900, 60);
    let falling = Vec3i::new(0, -1000, 0);
    assert_eq!(h.calculate_spring_force(2800, falling), 60_000);
    let rising = Vec3i::new(0, 1000, 0);
    assert_eq!(h.calculate_spring_force(2800, rising), -60_000);
}

#[test]
fn default_hover_tuning() {
    let h = Hover::default();
    assert_eq!(h, Hover { ray_length: 4000, ride_height: 2800, strength: 900, damper: 60 });
    assert_eq!(Spring::default().0, 200);
    assert_eq!(Deceleration::default().0, 2500);
}

#[test]
fn hover_on_ground_within_ride_height_grounds() {
    let h = hover(2800, 900, 60);
    let mut force = Vec3i::new(7, 3, 9);
    let mut impulse = Vec3i::zero();
    let mut grounded = false;
    handle_hover(&h, &Probe::Ground { distance: 2000 }, Vec3i::zero(), &mut force, &mut impulse, &mut grounded);
    assert!(grounded);
    assert_eq!(force, Vec3i::new(7, 720_000, 9));
    assert_eq!(impulse, Vec3i::zero());
}

#[test]
fn hover_at_exact_ride_height_grounds() {
    let h = hover(2800, 900, 60);
    let mut force = Vec3i::zero();
    let mut impulse = Vec3i::zero();
    let mut grounded = false;
    handle_hover(&h, &Probe::Ground { distance: 2800 }, Vec3i::zero(), &mut force, &mut impulse, &mut grounded);
    assert!(grounded);
    assert_eq!(force.y, 0);
}

#[test]
fn hover_above_ride_height_clears_grounded() {
    let h = hover(2800, 900, 60);
    let mut force = Vec3i::zero();
    let mut impulse = Vec3i::zero();
    let mut grounded = true;
    handle_hover(&h, &Probe::Ground { distance: 3500 }, Vec3i::zero(), &mut force, &mut impulse, &mut grounded);
    assert!(!grounded);
    assert_eq!(force.y, -630_000);
}

#[test]
fn hover_miss_zeroes_force_and_clears_grounded() {
    let h = hover(2800, 900, 60);
    let mut force = Vec3i::new(5, 123, 6);
    let mut impulse = Vec3i::zero();
    let mut grounded = true;
    handle_hover(&h, &Probe::Miss, Vec3i::zero(), &mut force, &mut impulse, &mut grounded);
    assert!(!grounded);
    assert_eq!(force, Vec3i::new(5, 0, 6));
}

#[test]
fn hover_on_spring_launches_and_keeps_grounded() {
    let h = hover(2800, 900, 60);
    let mut force = Vec3i::new(1, 2, 3);
    let mut impulse = Vec3i::zero();
    let mut grounded = true;
    let probe = Probe::Spring { normal: Vec3i::new(0, 1000, 0), impulse_strength: 200 };
    handle_hover(&h, &probe, Vec3i::zero(), &mut force, &mut impulse, &mut grounded);
    assert_eq!(impulse, Vec3i::new(0, 200_000, 0));
    assert_eq!(force, Vec3i::new(1, 2, 3));
    assert!(grounded);
    let mut airborne = false;
    handle_hover(&h, &probe, Vec3i::zero(), &mut force, &mut impulse, &mut airborne);
    assert!(!airborne);
}

#[test]
fn turn_multiplier_steps() {
    assert_eq!(turn_multiplier(0), 1);
    assert_eq!(turn_multiplier(60_000), 2);
    assert_eq!(turn_multiplier(100_000), 3);
    assert_eq!(turn_multiplier(150_000), 4);
    assert_eq!(turn_multiplier(180_000), 4);
}

#[test]
fn turn_multiplier_boundaries_take_lower_step() {
    assert_eq!(turn_multiplier(45_000), 1);
    assert_eq!(turn_multiplier(45_001), 2);
    assert_eq!(turn_multiplier(90_000), 2);
    assert_eq!(turn_multiplier(90_001), 3);
    assert_eq!(turn_multiplier(145_000), 3);
    assert_eq!(turn_multiplier(145_001), 4);
}

fn movement(direction: Vec3i, acceleration: i64) -> Movement {
    Movement { goal_velocity: Vec3i::zero(), direction, acceleration }
}

#[test]
fn reversing_direction_quadruples_acceleration() {
    let m = movement(Vec3i::new(UNIT, 0, 0), 500);
    let mut force = Vec3i::new(0, 42, 0);
    handle_movement(&m, Vec3i::new(UNIT, 0, 0), Vec3i::new(-UNIT, 0, 0), 180_000, &mut force);
    assert_eq!(force, Vec3i::new(2_000_000, 42, 0));
}

#[test]
fn still_body_gets_base_acceleration() {
    let m = movement(Vec3i::new(0, 0, UNIT), 500);
    let mut force = Vec3i::new(0, 42, 0);
    handle_movement(&m, Vec3i::new(0, 0, UNIT), Vec3i::new(0, 900, 0), 180_000, &mut force);
    assert_eq!(force, Vec3i::new(0, 42, 500_000));
}

#[test]
fn zero_intent_gives_no_horizontal_force() {
    let m = movement(Vec3i::zero(), 500);
    let mut force = Vec3i::new(11, 42, 13);
    handle_movement(&m, Vec3i::zero(), Vec3i::new(UNIT, 0, 0), 0, &mut force);
    assert_eq!(force, Vec3i::new(0, 42, 0));
}

#[test]
fn jump_fires_only_when_grounded_and_pressed() {
    let mut v = Vec3i::new(100, -400, 200);
    let mut impulse = Vec3i::zero();
    assert!(!handle_jump(false, true, &mut v, &mut impulse));
    assert!(!handle_jump(true, false, &mut v, &mut impulse));
    assert_eq!(v, Vec3i::new(100, -400, 200));
    assert_eq!(impulse, Vec3i::zero());
    assert!(handle_jump(true, true, &mut v, &mut impulse));
    assert_eq!(v, Vec3i::new(100, 0, 200));
    assert_eq!(impulse, Vec3i::new(0, JUMP_IMPULSE, 0));
}

#[test]
fn held_jump_key_fires_once() {
    let mut trigger = JumpTrigger::new();
    let mut fired = 0;
    for _ in 0..10 {
        let mut v = Vec3i::zero();
        let mut impulse = Vec3i::zero();
        let pressed = trigger.update(true);
        if handle_jump(true, pressed, &mut v, &mut impulse) {
            fired += 1;
        }
    }
    assert_eq!(fired, 1);
    assert!(!trigger.update(false));
    assert!(trigger.update(true));
}

#[test]
fn drag_damps_horizontal_velocity_only() {
    let mut v = Vec3i::new(1000, 500, -999);
    let fraction = apply_drag(&mut v, &Deceleration::default(), 100);
    assert_eq!(fraction, 250);
    assert_eq!(v, Vec3i::new(750, 500, -749));
}

#[test]
fn drag_fraction_is_clamped_to_whole() {
    let mut v = Vec3i::new(1000, 500, -1000);
    let fraction = apply_drag(&mut v, &Deceleration(2500), 1000);
    assert_eq!(fraction, UNIT);
    assert_eq!(v, Vec3i::new(0, 500, 0));
}

#[test]
fn look_target_follows_nonzero_intent() {
    let mut d = RotationDriver::default();
    assert_eq!(d.look_target, Vec3i::new(0, 0, UNIT));
    d.follow(Vec3i::new(UNIT, 0, 0));
    assert_eq!(d.look_target, Vec3i::new(UNIT, 0, 0));
    assert_eq!(d.up_vector, Vec3i::new(0, UNIT, 0));
}

#[test]
fn look_target_kept_under_zero_intent() {
    let mut d = RotationDriver::new();
    d.follow(Vec3i::new(-600, 0, 800));
    for _ in 0..5 {
        d.follow(Vec3i::zero());
    }
    assert_eq!(d.look_target, Vec3i::new(-600, 0, 800));
    assert_eq!(d.look_point(Vec3i::new(1000, 2000, 3000)), Vec3i::new(1600, 2000, 2200));
}

fn keys(forward: bool, back: bool, left: bool, right: bool) -> MoveKeys {
    MoveKeys { forward, back, left, right }
}

#[test]
fn player_input_forward_runs() {
    let mut m = movement(Vec3i::zero(), 500);
    let mut v = Vec3i::zero();
    let mut impulse = Vec3i::zero();
    let ev = player_input(
        EntityId(7),
        &keys(true, false, false, false),
        false,
        true,
        Vec3i::new(0, 0, -UNIT),
        Vec3i::new(-UNIT, 0, 0),
        &mut m,
        &mut v,
        &mut impulse,
    );
    assert_eq!(m.direction, Vec3i::new(0, 0, -UNIT));
    assert_eq!(ev.entity_id, EntityId(7));
    assert_eq!(ev.animation_name, "run");
    assert_eq!(impulse, Vec3i::zero());
}

#[test]
fn player_input_diagonal_and_jump() {
    let mut m = movement(Vec3i::zero(), 500);
    let mut v = Vec3i::new(0, -300, 0);
    let mut impulse = Vec3i::zero();
    let ev = player_input(
        EntityId(7),
        &keys(false, true, false, true),
        true,
        true,
        Vec3i::new(0, 0, -UNIT),
        Vec3i::new(-UNIT, 0, 0),
        &mut m,
        &mut v,
        &mut impulse,
    );
    assert_eq!(m.direction, Vec3i::new(UNIT, 0, UNIT));
    assert_eq!(ev.animation_name, "run");
    assert_eq!(v.y, 0);
    assert_eq!(impulse, Vec3i::new(0, JUMP_IMPULSE, 0));
}

#[test]
fn player_input_opposed_keys_idle() {
    let mut m = movement(Vec3i::new(5, 0, 5), 500);
    let mut v = Vec3i::zero();
    let mut impulse = Vec3i::zero();
    let ev = player_input(
        EntityId(3),
        &keys(true, true, true, true),
        true,
        false,
        Vec3i::new(0, 0, -UNIT),
        Vec3i::new(-UNIT, 0, 0),
        &mut m,
        &mut v,
        &mut impulse,
    );
    assert_eq!(m.direction, Vec3i::zero());
    assert_eq!(ev.animation_name, "idle");
    assert_eq!(impulse, Vec3i::zero());
}
