//! Display colours. They carry no physics; the spiral cycles through the
//! hues over time and the bird shows whether it has just collided.
use crate::fixed::{fx_mul, lemma_fx_mul_nonnegative, mul_time, ONE};
use vstd::prelude::*;

verus! {

/// How fast a channel of the spiral's colour moves, per second.
pub const COLOR_STEP: i64 = 500_000_000;

/// A colour: red, green, blue and opacity, each in fixed point, from zero to
/// one.
#[derive(Clone, Copy, Debug, PartialEq, Eq, Structural)]
pub struct Color {
    pub r: i64,
    pub g: i64,
    pub b: i64,
    pub a: i64,
}

/// A channel raised by `delta` and stopped at one.
pub open spec fn raised(channel: int, delta: int) -> int {
    if channel + delta > ONE {
        ONE as int
    } else {
        channel + delta
    }
}

/// A channel lowered by `delta` and stopped at zero.
pub open spec fn lowered(channel: int, delta: int) -> int {
    if channel - delta < 0 {
        0
    } else {
        channel - delta
    }
}

impl Color {
    /// Every channel lies between zero and one.
    pub open spec fn wf(self) -> bool {
        &&& 0 <= self.r <= ONE
        &&& 0 <= self.g <= ONE
        &&& 0 <= self.b <= ONE
        &&& 0 <= self.a <= ONE
    }

    pub open spec fn spec_white() -> Color {
        Color { r: ONE, g: ONE, b: ONE, a: ONE }
    }

    pub open spec fn spec_red() -> Color {
        Color { r: ONE, g: 0, b: 0, a: ONE }
    }

    /// Opaque white.
    #[verifier::when_used_as_spec(spec_white)]
    pub fn white() -> (c: Color)
        ensures
            c == Self::spec_white(),
    {
        Color { r: ONE, g: ONE, b: ONE, a: ONE }
    }

    /// Opaque red.
    #[verifier::when_used_as_spec(spec_red)]
    pub fn red() -> (c: Color)
        ensures
            c == Self::spec_red(),
    {
        Color { r: ONE, g: 0, b: 0, a: ONE }
    }

    /// The bird's colour for a collision flag: red on a collision, white
    /// otherwise.
    pub open spec fn spec_for_collision(hit: bool) -> Color {
        if hit {
            Self::spec_red()
        } else {
            Self::spec_white()
        }
    }

    /// The bird's colour for a collision flag: red on a collision, white
    /// otherwise.
    #[verifier::when_used_as_spec(spec_for_collision)]
    pub fn for_collision(hit: bool) -> (c: Color)
        ensures
            c == Self::spec_for_collision(hit),
    {
        if hit {
            Color::red()
        } else {
            Color::white()
        }
    }

    /// The colour after `dt` of cycling through the hues: from red the green
    /// channel rises, then red falls, blue rises, green falls, red rises and
    /// blue falls, one channel at a time, each stopped at its bound.
    pub open spec fn cycled(self, dt: int) -> Color {
        let delta = fx_mul(COLOR_STEP as int, dt);
        if self.r == ONE && self.g < ONE && self.b == 0 {
            Color { g: raised(self.g as int, delta) as i64, ..self }
        } else if self.g == ONE && self.r > 0 {
            Color { r: lowered(self.r as int, delta) as i64, ..self }
        } else if self.g == ONE && self.b < ONE {
            Color { b: raised(self.b as int, delta) as i64, ..self }
        } else if self.b == ONE && self.g > 0 {
            Color { g: lowered(self.g as int, delta) as i64, ..self }
        } else if self.b == ONE && self.r < ONE {
            Color { r: raised(self.r as int, delta) as i64, ..self }
        } else if self.r == ONE && self.b > 0 {
            Color { b: lowered(self.b as int, delta) as i64, ..self }
        } else {
            self
        }
    }

    /// Advances the hue cycle by `dt` nanoseconds.
    pub fn cycle(&mut self, dt: u64)
        ensures
            *final(self) == old(self).cycled(dt as int),
            old(self).wf() ==> final(self).wf(),
    {
        let delta: i128 = mul_time(COLOR_STEP, dt);
        if self.r == ONE && self.g < ONE && self.b == 0 {
            self.g = raise(self.g, delta);
        } else if self.g == ONE && self.r > 0 {
            self.r = lower(self.r, delta);
        } else if self.g == ONE && self.b < ONE {
            self.b = raise(self.b, delta);
        } else if self.b == ONE && self.g > 0 {
            self.g = lower(self.g, delta);
        } else if self.b == ONE && self.r < ONE {
            self.r = raise(self.r, delta);
        } else if self.r == ONE && self.b > 0 {
            self.b = lower(self.b, delta);
        }
    }
}

/// Raises a channel that is below one by `delta`, stopping at one.
pub fn raise(channel: i64, delta: i128) -> (c: i64)
    requires
        channel <= ONE,
        0 <= delta <= 0x7fff_ffff_ffff_ffff,
    ensures
        c == raised(channel as int, delta as int),
        channel <= c <= ONE,
{
    let sum: i128 = channel as i128 + delta;
    if sum > ONE as i128 {
        ONE
    } else {
        sum as i64
    }
}

/// Lowers a channel that is above zero by `delta`, stopping at zero.
pub fn lower(channel: i64, delta: i128) -> (c: i64)
    requires
        0 <= channel,
        0 <= delta <= 0x7fff_ffff_ffff_ffff,
    ensures
        c == lowered(channel as int, delta as int),
        0 <= c <= channel,
{
    let rest: i128 = channel as i128 - delta;
    if rest < 0 {
        0
    } else {
        rest as i64
    }
}

/// A frame of no time leaves the colour as it was.
pub proof fn lemma_zero_frame_keeps_color(color: Color)
    ensures
        color.cycled(0) == color,
{
    lemma_fx_mul_nonnegative(COLOR_STEP as int, 0);
}

} // verus!
