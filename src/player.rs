use vstd::prelude::*;
use crate::fixed::{Vec3i, UNIT};
use crate::movement::{Movement, handle_jump, JUMP_IMPULSE};
use crate::animation::{EntityId, AnimationTransitionEvent};

verus! {

/// Which movement keys are held this tick.
#[derive(Clone, Copy, Debug, PartialEq, Eq, Structural)]
pub struct MoveKeys {
    pub forward: bool,
    pub back: bool,
    pub left: bool,
    pub right: bool,
}

pub open spec fn axis(plus: bool, minus: bool) -> int {
    (if plus {
        1int
    } else {
        0int
    }) - (if minus {
        1int
    } else {
        0int
    })
}

/// The intent direction: the camera's flattened left vector times the
/// left/right axis plus its flattened forward vector times the
/// forward/back axis.
pub open spec fn intent_direction(keys: MoveKeys, forward: Vec3i, left: Vec3i) -> (int, int, int) {
    let x = axis(keys.left, keys.right);
    let z = axis(keys.forward, keys.back);
    (x * left.x + z * forward.x, x * left.y + z * forward.y, x * left.z + z * forward.z)
}

pub open spec fn unit_bounded(v: Vec3i) -> bool {
    -UNIT <= v.x <= UNIT && -UNIT <= v.y <= UNIT && -UNIT <= v.z <= UNIT
}

fn axis_value(plus: bool, minus: bool) -> (r: i64)
    ensures
        r == axis(plus, minus),
{
    let a: i64 = if plus {
        1
    } else {
        0
    };
    let b: i64 = if minus {
        1
    } else {
        0
    };
    a - b
}

fn combine(x: i64, z: i64, l: i64, f: i64) -> (r: i64)
    requires
        -1 <= x <= 1,
        -1 <= z <= 1,
        -UNIT <= l <= UNIT,
        -UNIT <= f <= UNIT,
    ensures
        r == x * l + z * f,
        -2 * UNIT <= r <= 2 * UNIT,
{
    assert(-UNIT <= x * l <= UNIT && -UNIT <= z * f <= UNIT) by (nonlinear_arith)
        requires
            -1 <= x <= 1,
            -1 <= z <= 1,
            -UNIT <= l <= UNIT,
            -UNIT <= f <= UNIT,
    ;
    x * l + z * f
}

/// One tick of player control.
///
/// `camera_forward` and `camera_left` are the camera's flattened, normalized
/// forward and left vectors. The intent direction is written to the
/// movement; a jump fires when `jump_pressed` and `grounded` both hold; the
/// returned event asks the player's animation for "idle" when the intent is
/// zero and for "run" otherwise.
pub fn player_input(
    entity: EntityId,
    keys: &MoveKeys,
    jump_pressed: bool,
    grounded: bool,
    camera_forward: Vec3i,
    camera_left: Vec3i,
    movement: &mut Movement,
    velocity: &mut Vec3i,
    impulse: &mut Vec3i,
) -> (event: AnimationTransitionEvent)
    requires
        unit_bounded(camera_forward),
        unit_bounded(camera_left),
    ensures
        ({
            let d = intent_direction(*keys, camera_forward, camera_left);
            &&& final(movement).direction.x == d.0
            &&& final(movement).direction.y == d.1
            &&& final(movement).direction.z == d.2
        }),
        final(movement).acceleration == old(movement).acceleration,
        final(movement).goal_velocity == old(movement).goal_velocity,
        final(movement).direction.in_range(),
        grounded && jump_pressed ==> final(velocity).y == 0 && final(velocity).x == old(velocity).x
            && final(velocity).z == old(velocity).z && *final(impulse) == (Vec3i {
            x: 0,
            y: JUMP_IMPULSE,
            z: 0,
        }),
        !(grounded && jump_pressed) ==> *final(velocity) == *old(velocity) && *final(impulse)
            == *old(impulse),
        event.entity_id == entity,
        event.animation_name@ == if final(movement).direction.is_zero() {
            "idle"@
        } else {
            "run"@
        },
{
    let x = axis_value(keys.left, keys.right);
    let z = axis_value(keys.forward, keys.back);
    handle_jump(grounded, jump_pressed, velocity, impulse);
    let direction = Vec3i {
        x: combine(x, z, camera_left.x, camera_forward.x),
        y: combine(x, z, camera_left.y, camera_forward.y),
        z: combine(x, z, camera_left.z, camera_forward.z),
    };
    movement.direction = direction;
    let name = if direction.is_zero_vec() {
        "idle".to_owned()
    } else {
        "run".to_owned()
    };
    AnimationTransitionEvent { entity_id: entity, animation_name: name }
}

} // verus!
