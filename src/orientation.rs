use vstd::prelude::*;
use crate::fixed::{Vec3i, in_range, UNIT};

verus! {

/// Facing of a body: it looks along `look_target`, the last nonzero movement
/// direction, with `up_vector` held fixed.
#[derive(Clone, Copy, Debug, PartialEq, Eq, Structural)]
pub struct RotationDriver {
    pub up_vector: Vec3i,
    pub look_target: Vec3i,
}

/// The look target after a tick with the given normalized intent.
pub open spec fn next_look_target(target: Vec3i, unit_direction: Vec3i) -> Vec3i {
    if unit_direction.is_zero() {
        target
    } else {
        unit_direction
    }
}

/// The look target after ticks with the given intents, in order.
pub open spec fn look_target_after(target: Vec3i, intents: Seq<Vec3i>) -> Vec3i
    decreases intents.len(),
{
    if intents.len() == 0 {
        target
    } else {
        next_look_target(look_target_after(target, intents.drop_last()), intents.last())
    }
}

impl RotationDriver {
    /// The look target is never the zero vector.
    pub open spec fn wf(self) -> bool {
        !self.look_target.is_zero()
    }

    /// World up, looking along the positive z axis.
    pub fn new() -> (r: RotationDriver)
        ensures
            r.wf(),
            r.up_vector == (Vec3i { x: 0, y: UNIT, z: 0 }),
            r.look_target == (Vec3i { x: 0, y: 0, z: UNIT }),
    {
        RotationDriver { up_vector: Vec3i { x: 0, y: UNIT, z: 0 }, look_target: Vec3i { x: 0, y: 0, z: UNIT } }
    }

    /// Follows the normalized intent: a nonzero one becomes the look target,
    /// a zero one keeps the previous target.
    pub fn follow(&mut self, unit_direction: Vec3i)
        requires
            old(self).wf(),
        ensures
            final(self).wf(),
            final(self).up_vector == old(self).up_vector,
            final(self).look_target == next_look_target(old(self).look_target, unit_direction),
    {
        if !unit_direction.is_zero_vec() {
            self.look_target = unit_direction;
        }
    }

    /// The point the body at `position` is turned to face: `position - look_target`.
    pub fn look_point(&self, position: Vec3i) -> (r: Vec3i)
        requires
            position.in_range(),
            self.look_target.in_range(),
        ensures
            r.x == position.x - self.look_target.x,
            r.y == position.y - self.look_target.y,
            r.z == position.z - self.look_target.z,
    {
        Vec3i {
            x: position.x - self.look_target.x,
            y: position.y - self.look_target.y,
            z: position.z - self.look_target.z,
        }
    }
}

/// Any number of ticks with zero intent leave the look target where it was.
pub proof fn lemma_zero_intent_keeps_look_target(target: Vec3i, intents: Seq<Vec3i>)
    requires
        forall|i: int| 0 <= i < intents.len() ==> (#[trigger] intents[i]).is_zero(),
    ensures
        look_target_after(target, intents) == target,
    decreases intents.len(),
{
    if intents.len() > 0 {
        let rest = intents.drop_last();
        assert forall|i: int| 0 <= i < rest.len() implies (#[trigger] rest[i]).is_zero() by {
            assert(intents[i].is_zero());
        }
        lemma_zero_intent_keeps_look_target(target, rest);
        assert(intents[intents.len() - 1].is_zero());
    }
}


impl Default for RotationDriver {
    fn default() -> (r: RotationDriver)
        ensures
            r.wf(),
            r.up_vector == (Vec3i { x: 0, y: UNIT, z: 0 }),
            r.look_target == (Vec3i { x: 0, y: 0, z: UNIT }),
    {
        RotationDriver::new()
    }
}

} // verus!
