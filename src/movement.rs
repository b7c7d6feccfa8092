use vstd::prelude::*;
use crate::fixed::{Vec3i, in_range, lemma_mul_bounded, MAX_MAGNITUDE, UNIT};

verus! {

/// The upward impulse of a jump, in thousandths of a force unit.
pub const JUMP_IMPULSE: i64 = 300_000;

/// Angles are counted in thousandths of a degree.
pub const MILLIDEGREES_PER_DEGREE: u32 = 1000;

/// Desired motion of one body: its intent `direction` (fixed-point) and a
/// whole base `acceleration`.
#[derive(Clone, Copy, Debug, PartialEq, Eq, Structural)]
pub struct Movement {
    pub goal_velocity: Vec3i,
    pub direction: Vec3i,
    pub acceleration: i64,
}

impl Movement {
    pub open spec fn wf(self) -> bool {
        self.direction.in_range() && in_range(self.acceleration as int)
    }
}

/// Scale applied to the base acceleration for an angle, in thousandths of a
/// degree, between the flattened intent and the flattened velocity.
pub open spec fn turn_factor(angle: int) -> int {
    if angle > 145_000 {
        4
    } else if angle > 90_000 {
        3
    } else if angle > 45_000 {
        2
    } else {
        1
    }
}

/// The acceleration actually applied: scaled by the turn factor when both the
/// flattened intent and the flattened velocity are nonzero, else the base.
pub open spec fn applied_acceleration(m: Movement, velocity: Vec3i, angle: int) -> int {
    if !m.direction.flat().is_zero() && !velocity.flat().is_zero() {
        m.acceleration * turn_factor(angle)
    } else {
        m.acceleration as int
    }
}

/// The step function of the turn-resistance rule.
pub fn turn_multiplier(angle_millidegrees: u32) -> (r: i64)
    ensures
        r == turn_factor(angle_millidegrees as int),
        1 <= r <= 4,
{
    if angle_millidegrees > 145 * MILLIDEGREES_PER_DEGREE {
        4
    } else if angle_millidegrees > 90 * MILLIDEGREES_PER_DEGREE {
        3
    } else if angle_millidegrees > 45 * MILLIDEGREES_PER_DEGREE {
        2
    } else {
        1
    }
}

/// Sets the horizontal force from the intent.
///
/// `unit_direction` is the intent direction normalized (zero for a zero
/// intent) and `angle_millidegrees` the angle between the flattened intent and
/// the flattened velocity; both are measured by the caller. The horizontal
/// force becomes `unit_direction` times the applied acceleration; the vertical
/// force is kept.
pub fn handle_movement(
    movement: &Movement,
    unit_direction: Vec3i,
    velocity: Vec3i,
    angle_millidegrees: u32,
    force: &mut Vec3i,
)
    requires
        movement.wf(),
        unit_direction.in_range(),
    ensures
        final(force).y == old(force).y,
        final(force).x == unit_direction.x * applied_acceleration(
            *movement,
            velocity,
            angle_millidegrees as int,
        ),
        final(force).z == unit_direction.z * applied_acceleration(
            *movement,
            velocity,
            angle_millidegrees as int,
        ),
{
    let acceleration: i64 = if !movement.direction.is_flat_zero() && !velocity.is_flat_zero() {
        movement.acceleration * turn_multiplier(angle_millidegrees)
    } else {
        movement.acceleration
    };
    proof {
        lemma_mul_bounded(unit_direction.x as int, acceleration as int, 1_000_000_000, 4_000_000_000);
        lemma_mul_bounded(unit_direction.z as int, acceleration as int, 1_000_000_000, 4_000_000_000);
    }
    force.x = unit_direction.x * acceleration;
    force.z = unit_direction.z * acceleration;
}

/// Fires a jump: when the body is grounded and the jump was pressed this tick,
/// its vertical velocity is zeroed and the impulse set straight up; otherwise
/// nothing changes. Returns whether the jump fired.
pub fn handle_jump(
    grounded: bool,
    jump_pressed: bool,
    velocity: &mut Vec3i,
    impulse: &mut Vec3i,
) -> (fired: bool)
    ensures
        fired == (grounded && jump_pressed),
        fired ==> final(velocity).y == 0 && final(velocity).x == old(velocity).x
            && final(velocity).z == old(velocity).z && *final(impulse) == (Vec3i {
            x: 0,
            y: JUMP_IMPULSE,
            z: 0,
        }),
        !fired ==> *final(velocity) == *old(velocity) && *final(impulse) == *old(impulse),
{
    if grounded && jump_pressed {
        velocity.y = 0;
        *impulse = Vec3i { x: 0, y: JUMP_IMPULSE, z: 0 };
        true
    } else {
        false
    }
}

/// Turns a held/released jump key into a press signal that is true only on
/// the tick on which the key goes down.
#[derive(Clone, Copy, Debug, PartialEq, Eq, Structural)]
pub struct JumpTrigger {
    pub held: bool,
}

/// Presses seen, and jumps fired, over ticks with the given key states and
/// grounded flags, starting from a key that was `held` before.
pub open spec fn jumps_fired(held: bool, keys: Seq<bool>, grounded: Seq<bool>) -> nat
    decreases keys.len(),
{
    if keys.len() == 0 || grounded.len() == 0 {
        0
    } else {
        let now = (keys[0] && !held && grounded[0]) as nat;
        now + jumps_fired(keys[0], keys.drop_first(), grounded.drop_first())
    }
}

impl JumpTrigger {
    pub fn new() -> (r: JumpTrigger)
        ensures
            !r.held,
    {
        JumpTrigger { held: false }
    }

    /// Records the key state of this tick; true when it was just pressed.
    pub fn update(&mut self, held_now: bool) -> (pressed: bool)
        ensures
            pressed == (held_now && !old(self).held),
            final(self).held == held_now,
    {
        let pressed = held_now && !self.held;
        self.held = held_now;
        pressed
    }
}

/// Holding the jump key over any number of ticks fires at most one jump,
/// whatever the grounded flags are.
pub proof fn lemma_held_jump_fires_once(held: bool, keys: Seq<bool>, grounded: Seq<bool>)
    requires
        forall|i: int| 0 <= i < keys.len() ==> keys[i],
    ensures
        jumps_fired(held, keys, grounded) <= 1,
        held ==> jumps_fired(held, keys, grounded) == 0,
    decreases keys.len(),
{
    if keys.len() > 0 && grounded.len() > 0 {
        assert forall|i: int| 0 <= i < keys.drop_first().len() implies keys.drop_first()[i] by {
            assert(keys[i + 1]);
        }
        lemma_held_jump_fires_once(keys[0], keys.drop_first(), grounded.drop_first());
    }
}

/// Drag coefficient of a body, in thousandths per second.
#[derive(Clone, Copy, Debug, PartialEq, Eq, Structural)]
pub struct Deceleration(pub i64);

impl Default for Deceleration {
    fn default() -> (r: Deceleration)
        ensures
            r.0 == 2500,
    {
        Deceleration(2500)
    }
}

/// `v` moved toward zero by the fraction `t / UNIT`, truncated toward zero.
pub open spec fn damped(v: int, t: int) -> int {
    if v >= 0 {
        (v * (UNIT - t)) / (UNIT as int)
    } else {
        -(((-v) * (UNIT - t)) / (UNIT as int))
    }
}

/// Passive drag: the horizontal velocity is interpolated toward zero by the
/// fraction `deceleration * dt`; the vertical velocity is kept.
///
/// `dt_millis` is the tick length in milliseconds; the fraction, in
/// thousandths, is returned, and one above a whole is clamped to a whole.
pub fn apply_drag(velocity: &mut Vec3i, deceleration: &Deceleration, dt_millis: i64) -> (fraction: i64)
    requires
        in_range(old(velocity).x as int),
        in_range(old(velocity).z as int),
        0 <= deceleration.0 <= MAX_MAGNITUDE,
        0 <= dt_millis <= MAX_MAGNITUDE,
    ensures
        fraction == if deceleration.0 * dt_millis / 1000 > UNIT {
            UNIT as int
        } else {
            deceleration.0 * dt_millis / 1000
        },
        final(velocity).y == old(velocity).y,
        final(velocity).x == damped(old(velocity).x as int, fraction as int),
        final(velocity).z == damped(old(velocity).z as int, fraction as int),
{
    let deceleration: i64 = deceleration.0;
    proof {
        lemma_mul_bounded(deceleration as int, dt_millis as int, 1_000_000_000, 1_000_000_000);
    }
    let product: i64 = deceleration * dt_millis;
    assert(product >= 0) by (nonlinear_arith)
        requires
            product == deceleration * dt_millis,
            deceleration >= 0,
            dt_millis >= 0,
    ;
    let raw: i64 = product / 1000;
    let t: i64 = if raw > UNIT {
        UNIT
    } else {
        raw
    };
    velocity.x = damp_component(velocity.x, t);
    velocity.z = damp_component(velocity.z, t);
    t
}

fn damp_component(v: i64, t: i64) -> (r: i64)
    requires
        in_range(v as int),
        0 <= t <= UNIT,
    ensures
        r == damped(v as int, t as int),
{
    let keep: i64 = UNIT - t;
    if v >= 0 {
        proof {
            lemma_mul_bounded(v as int, keep as int, 1_000_000_000, 1000);
        }
        v * keep / UNIT
    } else {
        let mag: i64 = -v;
        proof {
            lemma_mul_bounded(mag as int, keep as int, 1_000_000_000, 1000);
        }
        -(mag * keep / UNIT)
    }
}

} // verus!
