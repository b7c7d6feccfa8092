use vstd::prelude::*;
use crate::fixed::{Vec3i, in_range, lemma_mul_bounded, MAX_MAGNITUDE};

verus! {

/// Suspension tuning of one hovering body.
///
/// `ray_length` and `ride_height` are fixed-point lengths; `strength` and
/// `damper` are whole gains, so the force they produce is counted in
/// thousandths of a force unit.
#[derive(Clone, Copy, Debug, PartialEq, Eq, Structural)]
pub struct Hover {
    pub ray_length: i64,
    pub ride_height: i64,
    pub strength: i64,
    pub damper: i64,
}

/// The vertical suspension force: `-((d - ride_height) * strength - v_down * damper)`,
/// where `v_down` is the velocity's component along the downward probe.
pub open spec fn spring_force(h: Hover, distance: int, velocity: Vec3i) -> int {
    let v_down = -(velocity.y as int);
    -((distance - h.ride_height) * h.strength - v_down * h.damper)
}

impl Hover {
    pub open spec fn wf(self) -> bool {
        0 <= self.ray_length <= MAX_MAGNITUDE && 0 <= self.ride_height <= MAX_MAGNITUDE
            && 0 <= self.strength <= MAX_MAGNITUDE && 0 <= self.damper <= MAX_MAGNITUDE
    }

    pub fn calculate_spring_force(&self, distance: i64, linear_velocity: Vec3i) -> (r: i64)
        requires
            self.wf(),
            in_range(distance as int),
            in_range(linear_velocity.y as int),
        ensures
            r == spring_force(*self, distance as int, linear_velocity),
    {
        let v_down: i64 = -linear_velocity.y;
        let offset: i64 = distance - self.ride_height;
        proof {
            lemma_mul_bounded(offset as int, self.strength as int, 2_000_000_000, 1_000_000_000);
            lemma_mul_bounded(v_down as int, self.damper as int, 1_000_000_000, 1_000_000_000);
        }
        let up_force: i64 = offset * self.strength;
        let damping_force: i64 = v_down * self.damper;
        -(up_force - damping_force)
    }
}

} // verus!

verus! {

/// What the downward probe of one body reported this tick.
#[derive(Clone, Copy, Debug, PartialEq, Eq, Structural)]
pub enum Probe {
    /// Nothing within the probe length.
    Miss,
    /// An ordinary surface at `distance` below the body.
    Ground { distance: i64 },
    /// A launch surface: its fixed-point surface `normal` and whole `impulse_strength`.
    Spring { normal: Vec3i, impulse_strength: i64 },
}

impl Probe {
    pub open spec fn in_range(self) -> bool {
        match self {
            Probe::Miss => true,
            Probe::Ground { distance } => in_range(distance as int),
            Probe::Spring { normal, impulse_strength } => normal.in_range() && 0
                <= impulse_strength <= MAX_MAGNITUDE,
        }
    }

    /// Whether the probe found ordinary ground within ride height.
    pub open spec fn grounds(self, h: Hover) -> bool {
        match self {
            Probe::Ground { distance } => distance <= h.ride_height,
            _ => false,
        }
    }
}

/// `v` scaled componentwise by a whole factor `k`.
pub open spec fn scaled(v: Vec3i, k: int) -> (int, int, int) {
    (v.x * k, v.y * k, v.z * k)
}

pub open spec fn vec_is(v: Vec3i, t: (int, int, int)) -> bool {
    v.x == t.0 && v.y == t.1 && v.z == t.2
}

/// One suspension step for one body.
///
/// A launch surface sets the impulse to its normal times its strength and
/// leaves the force and the grounded flag alone. Ordinary ground sets the
/// vertical force to the spring force and the grounded flag to whether the
/// hit lies within ride height. A miss zeroes the vertical force and clears
/// the grounded flag. The horizontal force is never touched.
pub fn handle_hover(
    hover: &Hover,
    probe: &Probe,
    velocity: Vec3i,
    force: &mut Vec3i,
    impulse: &mut Vec3i,
    grounded: &mut bool,
)
    requires
        hover.wf(),
        probe.in_range(),
        in_range(velocity.y as int),
    ensures
        final(force).x == old(force).x,
        final(force).z == old(force).z,
        !(*probe is Spring) ==> *final(grounded) == probe.grounds(*hover),
        match *probe {
            Probe::Miss => final(force).y == 0 && *final(impulse) == *old(impulse)
                && !*final(grounded),
            Probe::Ground { distance } => final(force).y == spring_force(
                *hover,
                distance as int,
                velocity,
            ) && *final(impulse) == *old(impulse) && *final(grounded) == (distance
                <= hover.ride_height),
            Probe::Spring { normal, impulse_strength } => final(force).y == old(force).y
                && vec_is(*final(impulse), scaled(normal, impulse_strength as int))
                && *final(grounded) == *old(grounded),
        },
{
    match probe {
        Probe::Spring { normal, impulse_strength } => {
            let s = *impulse_strength;
            proof {
                lemma_mul_bounded(normal.x as int, s as int, 1_000_000_000, 1_000_000_000);
                lemma_mul_bounded(normal.y as int, s as int, 1_000_000_000, 1_000_000_000);
                lemma_mul_bounded(normal.z as int, s as int, 1_000_000_000, 1_000_000_000);
            }
            *impulse = Vec3i { x: normal.x * s, y: normal.y * s, z: normal.z * s };
        },
        Probe::Ground { distance } => {
            force.y = hover.calculate_spring_force(*distance, velocity);
            *grounded = *distance <= hover.ride_height;
        },
        Probe::Miss => {
            force.y = 0;
            *grounded = false;
        },
    }
}

/// A hit closer than ride height on a still body pushes upward, and a hit
/// exactly at ride height gives no force at all.
pub proof fn lemma_hover_pushes_up_below_ride_height(h: Hover, distance: int, velocity: Vec3i)
    requires
        h.wf(),
        h.strength > 0,
        velocity.is_zero(),
    ensures
        distance < h.ride_height ==> spring_force(h, distance, velocity) > 0,
        distance == h.ride_height ==> spring_force(h, distance, velocity) == 0,
{
    let v_down = -(velocity.y as int);
    assert(v_down * h.damper == 0) by (nonlinear_arith)
        requires
            v_down == 0,
    ;
    if distance < h.ride_height {
        assert(-((distance - h.ride_height) * h.strength) > 0) by (nonlinear_arith)
            requires
                h.ride_height - distance > 0,
                h.strength > 0,
        ;
    }
    if distance == h.ride_height {
        assert((distance - h.ride_height) * h.strength == 0) by (nonlinear_arith)
            requires
                distance - h.ride_height == 0,
        ;
    }
}


impl Default for Hover {
    /// Probe four units down, ride at 2.8 units, strength 900, damper 60.
    fn default() -> (r: Hover)
        ensures
            r.wf(),
            r == (Hover { ray_length: 4000, ride_height: 2800, strength: 900, damper: 60 }),
    {
        Hover { ray_length: 4000, ride_height: 2800, strength: 900, damper: 60 }
    }
}

/// A launch surface and the whole strength of the impulse it gives.
#[derive(Clone, Copy, Debug, PartialEq, Eq, Structural)]
pub struct Spring(pub i64);

impl Default for Spring {
    fn default() -> (r: Spring)
        ensures
            r.0 == 200,
    {
        Spring(200)
    }
}

} // verus!
