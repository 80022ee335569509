//! The bird: one point in polar coordinates, pushed outward by jumps and
//! pulled inward by gravity while it orbits at a constant angular rate.
use crate::color::Color;
use crate::config::{
    Config, ANGULAR_RATE, GRAVITY, LIFT, VELOCITY_CEILING, VELOCITY_FLOOR,
};
use crate::fixed::{fx_mul, lemma_fx_mul_nonnegative, mul_time, ONE};
use vstd::prelude::*;

verus! {

/// The radius at which the bird starts.
pub const START_RADIUS: i64 = 100_000_000_000;

/// The angle at which the bird starts; the score counts from it.
pub const START_ANGLE: i64 = 10_000_000_000;

/// The bird's state and the constants that govern it.
#[derive(Clone, Copy, Debug, PartialEq, Eq, Structural)]
pub struct Bird {
    pub radius: i64,
    pub angle: i64,
    pub gravity: i64,
    pub lift: i64,
    pub velocity: i64,
    pub velocity_floor: i64,
    pub velocity_ceiling: i64,
    pub angular_rate: i64,
    pub color: Color,
}

/// The score for an angle: the whole radians turned since the start.
pub open spec fn score_of(angle: int) -> int {
    (angle - START_ANGLE) / (ONE as int)
}

impl Bird {
    /// The velocity lies between its floor and its ceiling, and the
    /// constants have their signs: gravity pulls inward, a jump pushes
    /// outward, the bird turns forward.
    pub open spec fn wf(self) -> bool {
        &&& self.velocity_floor <= self.velocity <= self.velocity_ceiling
        &&& self.velocity_floor <= 0 <= self.velocity_ceiling
        &&& self.gravity <= 0
        &&& 0 <= self.lift
        &&& 0 <= self.angular_rate
    }

    /// The bird's constants are those of `config`.
    pub open spec fn governed_by(self, config: Config) -> bool {
        &&& self.gravity == config.gravity
        &&& self.lift == config.lift
        &&& self.angular_rate == config.angular_rate
        &&& self.velocity_floor == config.velocity_floor
        &&& self.velocity_ceiling == config.velocity_ceiling
    }

    /// A bird at rest at the given position, under the given options.
    pub open spec fn at_rest(radius: i64, angle: i64, color: Color, config: Config) -> Bird {
        Bird {
            radius,
            angle,
            gravity: config.gravity,
            lift: config.lift,
            velocity: 0,
            velocity_floor: config.velocity_floor,
            velocity_ceiling: config.velocity_ceiling,
            angular_rate: config.angular_rate,
            color,
        }
    }

    /// A bird at rest at the given position, under the standard options.
    pub fn new(radius: i64, angle: i64, color: Color) -> (bird: Bird)
        ensures
            bird == Bird::at_rest(radius, angle, color, Config::standard()),
            bird.wf(),
    {
        Bird {
            radius,
            angle,
            gravity: GRAVITY,
            lift: LIFT,
            velocity: 0,
            velocity_floor: VELOCITY_FLOOR,
            velocity_ceiling: VELOCITY_CEILING,
            angular_rate: ANGULAR_RATE,
            color,
        }
    }

    /// A bird at rest at the given position, under the given options.
    pub fn with_config(radius: i64, angle: i64, color: Color, config: &Config) -> (bird: Bird)
        requires
            config.wf(),
        ensures
            bird == Bird::at_rest(radius, angle, color, *config),
            bird.wf(),
            bird.governed_by(*config),
    {
        Bird {
            radius,
            angle,
            gravity: config.gravity,
            lift: config.lift,
            velocity: 0,
            velocity_floor: config.velocity_floor,
            velocity_ceiling: config.velocity_ceiling,
            angular_rate: config.angular_rate,
            color,
        }
    }

    /// The velocity after a jump: raised by the lift, and stopped at the
    /// ceiling.
    pub open spec fn velocity_after_jump(self) -> int {
        if self.velocity + self.lift > self.velocity_ceiling {
            self.velocity_ceiling as int
        } else {
            self.velocity + self.lift
        }
    }

    /// The velocity after one frame of gravity: lowered by it, and stopped
    /// at the floor.
    pub open spec fn velocity_after_gravity(self) -> int {
        if self.velocity + self.gravity < self.velocity_floor {
            self.velocity_floor as int
        } else {
            self.velocity + self.gravity
        }
    }

    /// The radius after `dt` at the present velocity.
    pub open spec fn radius_after(self, dt: int) -> int {
        self.radius + fx_mul(self.velocity as int, dt)
    }

    /// The angle after `dt` of orbiting.
    pub open spec fn angle_after(self, dt: int) -> int {
        self.angle + fx_mul(self.angular_rate as int, dt)
    }

    /// The radius and the angle after `dt` can be represented.
    pub open spec fn can_update(self, dt: int) -> bool {
        &&& i64::MIN <= self.radius_after(dt) <= i64::MAX
        &&& i64::MIN <= self.angle_after(dt) <= i64::MAX
    }

    /// The bird after a jump.
    pub open spec fn jumped(self) -> Bird {
        Bird { velocity: self.velocity_after_jump() as i64, ..self }
    }

    /// The bird after a frame of `dt`. A frame of no time changes nothing;
    /// any other moves the bird and lets gravity act once.
    pub open spec fn updated(self, dt: int) -> Bird {
        if dt == 0 {
            self
        } else {
            Bird {
                radius: self.radius_after(dt) as i64,
                angle: self.angle_after(dt) as i64,
                velocity: self.velocity_after_gravity() as i64,
                ..self
            }
        }
    }

    /// The bird's score.
    pub open spec fn spec_score(self) -> int {
        score_of(self.angle as int)
    }

    /// Jump: the lift is added to the velocity, which stops at the ceiling.
    /// Position is untouched.
    pub fn jump(&mut self)
        requires
            old(self).wf(),
        ensures
            *final(self) == old(self).jumped(),
            final(self).wf(),
            old(self).velocity <= final(self).velocity <= final(self).velocity_ceiling,
    {
        let sum: i128 = self.velocity as i128 + self.lift as i128;
        self.velocity = if sum > self.velocity_ceiling as i128 {
            self.velocity_ceiling
        } else {
            sum as i64
        };
    }

    /// Whether a frame of `dt` nanoseconds leaves the radius and the angle
    /// representable.
    pub fn fits_update(&self, dt: u64) -> (ok: bool)
        ensures
            ok == self.can_update(dt as int),
    {
        let radius: i128 = self.radius as i128 + mul_time(self.velocity, dt);
        let angle: i128 = self.angle as i128 + mul_time(self.angular_rate, dt);
        i64::MIN as i128 <= radius && radius <= i64::MAX as i128 && i64::MIN as i128 <= angle
            && angle <= i64::MAX as i128
    }

    /// The angle that a frame of `dt` nanoseconds will bring the bird to, if
    /// the bird's position after the frame can be represented.
    pub fn next_angle(&self, dt: u64) -> (angle: Option<i64>)
        ensures
            angle.is_some() == self.can_update(dt as int),
            angle matches Some(a) ==> a == self.angle_after(dt as int),
    {
        if self.fits_update(dt) {
            let angle: i128 = self.angle as i128 + mul_time(self.angular_rate, dt);
            Some(angle as i64)
        } else {
            None
        }
    }

    /// One frame of `dt` nanoseconds: the radius moves by the velocity, the
    /// angle by the angular rate, both in proportion to `dt`; then gravity is
    /// added to the velocity, which stops at the floor. The radius may
    /// become negative: the bird is then on the far side of the centre. A
    /// frame of no time is no frame: it changes nothing, the velocity
    /// included.
    pub fn update(&mut self, dt: u64)
        requires
            old(self).wf(),
            old(self).can_update(dt as int),
        ensures
            *final(self) == old(self).updated(dt as int),
            final(self).wf(),
            final(self).velocity_floor <= final(self).velocity <= old(self).velocity,
            old(self).angle <= final(self).angle,
            dt == 0 ==> *final(self) == *old(self),
    {
        if dt == 0 {
            return ;
        }
        let radius: i128 = self.radius as i128 + mul_time(self.velocity, dt);
        let angle: i128 = self.angle as i128 + mul_time(self.angular_rate, dt);
        let fallen: i128 = self.velocity as i128 + self.gravity as i128;
        proof {
            lemma_fx_mul_nonnegative(self.angular_rate as int, dt as int);
        }
        self.radius = radius as i64;
        self.angle = angle as i64;
        self.velocity = if fallen < self.velocity_floor as i128 {
            self.velocity_floor
        } else {
            fallen as i64
        };
    }

    /// One frame of `dt` nanoseconds if the bird's position after it can be
    /// represented, and nothing otherwise. The result says whether the frame
    /// was taken. Either way the velocity stays between its floor and its
    /// ceiling, and does not rise.
    pub fn try_update(&mut self, dt: u64) -> (taken: bool)
        requires
            old(self).wf(),
        ensures
            taken == old(self).can_update(dt as int),
            taken ==> *final(self) == old(self).updated(dt as int),
            !taken ==> *final(self) == *old(self),
            final(self).wf(),
            final(self).velocity_floor <= final(self).velocity <= old(self).velocity,
    {
        if self.fits_update(dt) {
            self.update(dt);
            true
        } else {
            false
        }
    }

    /// Sets the display colour. No physics depends on it.
    pub fn update_color(&mut self, color: Color)
        ensures
            *final(self) == (Bird { color, ..*old(self) }),
    {
        self.color = color;
    }

    /// The score: the whole radians turned since the start.
    pub fn score(&self) -> (s: i64)
        ensures
            s == self.spec_score(),
    {
        let turned: i128 = self.angle as i128 - START_ANGLE as i128;
        let s: i128 = crate::fixed::div_floor(turned, ONE as i128);
        s as i64
    }
}

/// The bird after `n` jumps in a row.
pub open spec fn after_jumps(bird: Bird, n: nat) -> Bird
    decreases n,
{
    if n == 0 {
        bird
    } else {
        after_jumps(bird, (n - 1) as nat).jumped()
    }
}

/// The bird after one frame for each of the given elapsed times, in order.
pub open spec fn after_frames(bird: Bird, dts: Seq<int>) -> Bird
    decreases dts.len(),
{
    if dts.len() == 0 {
        bird
    } else {
        after_frames(bird, dts.drop_last()).updated(dts.last())
    }
}

/// A jump keeps the bird well formed, and never lowers its velocity.
pub proof fn lemma_jump_clamps(bird: Bird)
    requires
        bird.wf(),
    ensures
        bird.jumped().wf(),
        bird.velocity <= bird.jumped().velocity <= bird.velocity_ceiling,
        bird.jumped().velocity_ceiling == bird.velocity_ceiling,
{
}

/// A frame keeps the velocity between its bounds, and never raises it. This
/// holds for every elapsed time.
pub proof fn lemma_gravity_clamps(bird: Bird, dt: int)
    requires
        bird.wf(),
    ensures
        bird.updated(dt).wf(),
        bird.velocity_floor <= bird.updated(dt).velocity <= bird.velocity,
        bird.updated(dt).velocity_floor == bird.velocity_floor,
{
}

/// However often the bird jumps, its velocity never exceeds the ceiling.
pub proof fn lemma_jumps_stay_below_ceiling(bird: Bird, n: nat)
    requires
        bird.wf(),
    ensures
        after_jumps(bird, n).wf(),
        after_jumps(bird, n).velocity_ceiling == bird.velocity_ceiling,
        after_jumps(bird, n).velocity <= bird.velocity_ceiling,
    decreases n,
{
    if n > 0 {
        lemma_jumps_stay_below_ceiling(bird, (n - 1) as nat);
        lemma_jump_clamps(after_jumps(bird, (n - 1) as nat));
    }
}

/// However many frames pass without a jump, the velocity never falls below
/// the floor.
pub proof fn lemma_frames_stay_above_floor(bird: Bird, dts: Seq<int>)
    requires
        bird.wf(),
    ensures
        after_frames(bird, dts).wf(),
        after_frames(bird, dts).velocity_floor == bird.velocity_floor,
        after_frames(bird, dts).velocity >= bird.velocity_floor,
    decreases dts.len(),
{
    if dts.len() > 0 {
        lemma_frames_stay_above_floor(bird, dts.drop_last());
        lemma_gravity_clamps(after_frames(bird, dts.drop_last()), dts.last());
    }
}

/// A frame of no time leaves the whole bird as it was: position and
/// velocity. Such a frame can always be taken.
pub proof fn lemma_zero_frame_keeps_bird(bird: Bird)
    ensures
        bird.updated(0) == bird,
        bird.can_update(0),
{
    assert(bird.velocity * 0 == 0) by (nonlinear_arith);
    assert(bird.angular_rate * 0 == 0) by (nonlinear_arith);
}

/// The score never decreases as the angle grows.
pub proof fn lemma_score_monotone(angle1: int, angle2: int)
    requires
        angle1 <= angle2,
    ensures
        score_of(angle1) <= score_of(angle2),
{
}

} // verus!
