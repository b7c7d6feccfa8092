use vstd::prelude::*;

verus! {

/// One whole unit, in the thousandths that every length, velocity and
/// direction component is counted in.
pub const UNIT: i64 = 1000;

/// Largest magnitude that a coordinate, distance or gain may have, so that
/// every product formed by the controller fits in an `i64`.
pub const MAX_MAGNITUDE: i64 = 1_000_000_000;

/// A vector of three fixed-point components.
#[derive(Clone, Copy, Debug, PartialEq, Eq, Structural)]
pub struct Vec3i {
    pub x: i64,
    pub y: i64,
    pub z: i64,
}

pub open spec fn in_range(v: int) -> bool {
    -MAX_MAGNITUDE <= v <= MAX_MAGNITUDE
}

impl Vec3i {
    pub open spec fn in_range(self) -> bool {
        in_range(self.x as int) && in_range(self.y as int) && in_range(self.z as int)
    }

    pub open spec fn is_zero(self) -> bool {
        self.x == 0 && self.y == 0 && self.z == 0
    }

    /// The vector with its vertical component removed.
    pub open spec fn flat(self) -> Vec3i {
        Vec3i { x: self.x, y: 0, z: self.z }
    }

    pub fn new(x: i64, y: i64, z: i64) -> (r: Vec3i)
        ensures
            r == (Vec3i { x, y, z }),
    {
        Vec3i { x, y, z }
    }

    pub fn zero() -> (r: Vec3i)
        ensures
            r.is_zero(),
    {
        Vec3i { x: 0, y: 0, z: 0 }
    }

    pub fn is_zero_vec(&self) -> (r: bool)
        ensures
            r == self.is_zero(),
    {
        self.x == 0 && self.y == 0 && self.z == 0
    }

    /// Whether the vector is zero once its vertical component is dropped.
    pub fn is_flat_zero(&self) -> (r: bool)
        ensures
            r == self.flat().is_zero(),
    {
        self.x == 0 && self.z == 0
    }
}

/// A product of two in-range values stays within the square of the bound.
pub proof fn lemma_mul_bounded(a: int, b: int, ma: int, mb: int)
    requires
        -ma <= a <= ma,
        -mb <= b <= mb,
        0 <= ma,
        0 <= mb,
    ensures
        -(ma * mb) <= a * b <= ma * mb,
{
    assert(-(ma * mb) <= a * b <= ma * mb) by (nonlinear_arith)
        requires
            -ma <= a <= ma,
            -mb <= b <= mb,
            0 <= ma,
            0 <= mb,
    ;
}

} // verus!
