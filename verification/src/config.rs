//! The named options of one game: the physical constants and the policies.
use crate::fixed::ONE;
use vstd::prelude::*;

verus! {

/// What is added to the bird's velocity on every frame.
pub const GRAVITY: i64 = -100_000_000;

/// What one jump adds to the bird's velocity.
pub const LIFT: i64 = 50_000_000_000;

/// How fast the bird's angle grows, per second.
pub const ANGULAR_RATE: i64 = 500_000_000;

/// The least velocity that gravity can bring the bird to.
pub const VELOCITY_FLOOR: i64 = -500_000_000_000;

/// The greatest velocity that jumping can bring the bird to.
pub const VELOCITY_CEILING: i64 = 400_000_000_000;

/// The least zoom.
pub const MIN_ZOOM: i64 = 100_000_000;

/// How fast the zoom shrinks at the start, per second.
pub const INITIAL_ZOOM_FACTOR: i64 = 30_000_000;

/// How a curve is tested against the bird's hit area.
#[derive(Clone, Copy, Debug, PartialEq, Eq, Structural)]
pub enum CollisionPolicy {
    /// The curve is its sample points: a hit is a sample inside the circle.
    PointSampling,
    /// The curve is the segments that join consecutive samples: a hit is a
    /// segment that comes within the circle.
    SegmentIntersection,
}

/// What a collision does to the game.
#[derive(Clone, Copy, Debug, PartialEq, Eq, Structural)]
pub enum CollisionResponse {
    /// The collision is flagged and shown, and the game goes on.
    Flag,
    /// The bird goes back to its start and the zoom ramps back to one.
    Reset,
}

/// The options of one game.
#[derive(Clone, Copy, Debug, PartialEq, Eq, Structural)]
pub struct Config {
    pub gravity: i64,
    pub lift: i64,
    pub angular_rate: i64,
    pub velocity_floor: i64,
    pub velocity_ceiling: i64,
    pub zoom_floor: i64,
    pub zoom_rate: i64,
    pub collision_policy: CollisionPolicy,
    pub collision_response: CollisionResponse,
    /// Whether the shrinking of the zoom pauses on every other half turn of
    /// the bird.
    pub pulse: bool,
}

impl Config {
    /// Gravity pulls inward, a jump pushes outward, the bird turns forward,
    /// rest lies between the velocity bounds, the zoom floor is a zoom, and
    /// the zoom moves at a rate above zero.
    pub open spec fn wf(self) -> bool {
        &&& self.gravity <= 0
        &&& 0 <= self.lift
        &&& 0 <= self.angular_rate
        &&& self.velocity_floor <= 0 <= self.velocity_ceiling
        &&& 0 < self.zoom_floor <= ONE
        &&& 0 < self.zoom_rate
    }

    /// The options of the standard game.
    pub open spec fn standard() -> Config {
        Config {
            gravity: GRAVITY,
            lift: LIFT,
            angular_rate: ANGULAR_RATE,
            velocity_floor: VELOCITY_FLOOR,
            velocity_ceiling: VELOCITY_CEILING,
            zoom_floor: MIN_ZOOM,
            zoom_rate: INITIAL_ZOOM_FACTOR,
            collision_policy: CollisionPolicy::SegmentIntersection,
            collision_response: CollisionResponse::Reset,
            pulse: false,
        }
    }

    /// Whether the options are well formed.
    pub fn is_wf(&self) -> (ok: bool)
        ensures
            ok == self.wf(),
    {
        self.gravity <= 0 && 0 <= self.lift && 0 <= self.angular_rate && self.velocity_floor <= 0
            && 0 <= self.velocity_ceiling && 0 < self.zoom_floor && self.zoom_floor <= ONE && 0
            < self.zoom_rate
    }
}

impl Default for Config {
    /// The options of the standard game.
    fn default() -> (config: Config)
        ensures
            config == Config::standard(),
            config.wf(),
    {
        Config {
            gravity: GRAVITY,
            lift: LIFT,
            angular_rate: ANGULAR_RATE,
            velocity_floor: VELOCITY_FLOOR,
            velocity_ceiling: VELOCITY_CEILING,
            zoom_floor: MIN_ZOOM,
            zoom_rate: INITIAL_ZOOM_FACTOR,
            collision_policy: CollisionPolicy::SegmentIntersection,
            collision_response: CollisionResponse::Reset,
            pulse: false,
        }
    }
}

} // verus!
