//! The zoom: it shrinks over time toward a floor, and ramps back to one
//! after a collision.
use crate::config::{Config, INITIAL_ZOOM_FACTOR, MIN_ZOOM};
use crate::fixed::{fx_mul, lemma_fx_mul_nonnegative, mul_time, ONE};
use vstd::prelude::*;

verus! {

/// How much the shrinking rate loses per second.
pub const ZOOM_FACTOR_DECAY: i64 = 10_000;

/// The rate at which the zoom ramps back to one after a collision.
pub const RESET_ZOOM_FACTOR: i64 = 1_000_000_000;

/// Which way the zoom is moving.
#[derive(Clone, Copy, Debug, PartialEq, Eq, Structural)]
pub enum ZoomDirection {
    /// Shrinking toward the floor.
    Out,
    /// Ramping back to one.
    In,
}

/// The zoom, its rate and its direction.
#[derive(Clone, Copy, Debug, PartialEq, Eq, Structural)]
pub struct ZoomState {
    /// The zoom, from `min_zoom` to one.
    pub zoom: i64,
    /// The rate of change of the zoom, per second.
    pub zoom_factor: i64,
    pub direction: ZoomDirection,
    /// How many half turns of the bird have been counted.
    pub cycle_count: u32,
    /// The floor of the zoom.
    pub min_zoom: i64,
    /// The rate with which shrinking starts again after a ramp.
    pub base_rate: i64,
}

impl ZoomState {
    /// The zoom lies between its floor and one, and the rates are above
    /// zero.
    pub open spec fn wf(self) -> bool {
        &&& 0 < self.min_zoom <= self.zoom <= ONE
        &&& 0 < self.zoom_factor
        &&& 0 < self.base_rate
    }

    /// Shrinking is paused: an odd number of half turns has been counted.
    pub open spec fn paused(self) -> bool {
        self.cycle_count % 2 == 1
    }

    /// The state at the start of a game with the given floor and rate.
    pub open spec fn initial(min_zoom: i64, rate: i64) -> ZoomState {
        ZoomState {
            zoom: ONE,
            zoom_factor: rate,
            direction: ZoomDirection::Out,
            cycle_count: 0,
            min_zoom,
            base_rate: rate,
        }
    }

    /// The zoom after `dt` of shrinking: lowered by the rate in proportion
    /// to `dt`, and stopped at the floor.
    pub open spec fn zoom_after_shrink(self, dt: int) -> int {
        let zoom = self.zoom - fx_mul(self.zoom_factor as int, dt);
        if zoom < self.min_zoom {
            self.min_zoom as int
        } else {
            zoom
        }
    }

    /// The rate after `dt` of shrinking: it decays a little, but never to
    /// zero or below.
    pub open spec fn factor_after_shrink(self, dt: int) -> int {
        let rest = self.zoom_factor - fx_mul(ZOOM_FACTOR_DECAY as int, dt);
        if rest > 0 {
            rest
        } else {
            self.zoom_factor as int
        }
    }

    /// The state after `dt` of shrinking.
    pub open spec fn zoomed_out(self, dt: int) -> ZoomState {
        ZoomState {
            zoom: self.zoom_after_shrink(dt) as i64,
            zoom_factor: self.factor_after_shrink(dt) as i64,
            ..self
        }
    }

    /// The state after `dt` of ramping back: the zoom is raised by the rate
    /// in proportion to `dt`; once it reaches one it stays there, and
    /// shrinking starts again at the base rate.
    pub open spec fn zoomed_in(self, dt: int) -> ZoomState {
        let zoom = self.zoom + fx_mul(self.zoom_factor as int, dt);
        if zoom >= ONE {
            ZoomState {
                zoom: ONE,
                zoom_factor: self.base_rate,
                direction: ZoomDirection::Out,
                ..self
            }
        } else {
            ZoomState { zoom: zoom as i64, ..self }
        }
    }

    /// The state after a frame of `dt`: ramping back if the direction is
    /// in, else shrinking unless paused.
    pub open spec fn stepped(self, dt: int) -> ZoomState {
        match self.direction {
            ZoomDirection::In => self.zoomed_in(dt),
            ZoomDirection::Out => if self.paused() {
                self
            } else {
                self.zoomed_out(dt)
            },
        }
    }

    /// The state after a collision: the zoom starts ramping back to one at
    /// the reset rate.
    pub open spec fn collided(self) -> ZoomState {
        ZoomState { direction: ZoomDirection::In, zoom_factor: RESET_ZOOM_FACTOR, ..self }
    }

    /// The count after `turns` more half turns. It wraps round after the
    /// largest count, which keeps its parity in step with the half turns.
    pub open spec fn count_after(self, turns: int) -> u32 {
        ((self.cycle_count + turns) % 0x1_0000_0000) as u32
    }

    /// The state after `turns` more half turns of the bird.
    pub open spec fn turned(self, turns: int) -> ZoomState {
        ZoomState { cycle_count: self.count_after(turns), ..self }
    }

    /// The state at the start of a standard game: zoom one, shrinking.
    pub fn new() -> (state: ZoomState)
        ensures
            state == ZoomState::initial(MIN_ZOOM, INITIAL_ZOOM_FACTOR),
            state.wf(),
    {
        ZoomState {
            zoom: ONE,
            zoom_factor: INITIAL_ZOOM_FACTOR,
            direction: ZoomDirection::Out,
            cycle_count: 0,
            min_zoom: MIN_ZOOM,
            base_rate: INITIAL_ZOOM_FACTOR,
        }
    }

    /// The state at the start of a game under the given options.
    pub fn with_config(config: &Config) -> (state: ZoomState)
        requires
            config.wf(),
        ensures
            state == ZoomState::initial(config.zoom_floor, config.zoom_rate),
            state.wf(),
    {
        ZoomState {
            zoom: ONE,
            zoom_factor: config.zoom_rate,
            direction: ZoomDirection::Out,
            cycle_count: 0,
            min_zoom: config.zoom_floor,
            base_rate: config.zoom_rate,
        }
    }

    /// Whether shrinking is paused.
    pub fn is_paused(&self) -> (p: bool)
        ensures
            p == self.paused(),
    {
        self.cycle_count % 2 == 1
    }

    /// Shrinks the zoom for `dt` nanoseconds, never below the floor.
    pub fn zoom_out(&mut self, dt: u64)
        requires
            old(self).wf(),
        ensures
            *final(self) == old(self).zoomed_out(dt as int),
            final(self).wf(),
            final(self).min_zoom <= final(self).zoom <= old(self).zoom,
    {
        proof {
            lemma_fx_mul_nonnegative(self.zoom_factor as int, dt as int);
        }
        let zoom: i128 = self.zoom as i128 - mul_time(self.zoom_factor, dt);
        let rest: i128 = self.zoom_factor as i128 - mul_time(ZOOM_FACTOR_DECAY, dt);
        self.zoom = if zoom < self.min_zoom as i128 {
            self.min_zoom
        } else {
            zoom as i64
        };
        self.zoom_factor = if rest > 0 {
            rest as i64
        } else {
            self.zoom_factor
        };
    }

    /// Ramps the zoom back toward one for `dt` nanoseconds. Once it reaches
    /// one, the direction turns to shrinking at the base rate.
    pub fn reset(&mut self, dt: u64)
        requires
            old(self).wf(),
        ensures
            *final(self) == old(self).zoomed_in(dt as int),
            final(self).wf(),
            old(self).zoom <= final(self).zoom <= ONE,
    {
        proof {
            lemma_fx_mul_nonnegative(self.zoom_factor as int, dt as int);
        }
        let zoom: i128 = self.zoom as i128 + mul_time(self.zoom_factor, dt);
        if zoom >= ONE as i128 {
            self.direction = ZoomDirection::Out;
            self.zoom_factor = self.base_rate;
            self.zoom = ONE;
        } else {
            self.zoom = zoom as i64;
        }
    }

    /// One frame of `dt` nanoseconds in the present direction.
    pub fn step(&mut self, dt: u64)
        requires
            old(self).wf(),
        ensures
            *final(self) == old(self).stepped(dt as int),
            final(self).wf(),
    {
        match self.direction {
            ZoomDirection::In => self.reset(dt),
            ZoomDirection::Out => {
                if !self.is_paused() {
                    self.zoom_out(dt);
                }
            },
        }
    }

    /// A collision: the zoom starts ramping back to one at the reset rate.
    pub fn on_collision(&mut self)
        requires
            old(self).wf(),
        ensures
            *final(self) == old(self).collided(),
            final(self).wf(),
    {
        self.direction = ZoomDirection::In;
        self.zoom_factor = RESET_ZOOM_FACTOR;
    }

    /// Counts `turns` more half turns of the bird. Each one pauses the
    /// shrinking or lets it go on, so an odd number changes the state of the
    /// pause and an even number leaves it.
    pub fn count_half_turns(&mut self, turns: u64)
        ensures
            *final(self) == old(self).turned(turns as int),
            (final(self).paused() != old(self).paused()) == (turns % 2 == 1),
            old(self).wf() ==> final(self).wf(),
    {
        let sum: u64 = self.cycle_count as u64 + turns % 0x1_0000_0000;
        self.cycle_count = (sum % 0x1_0000_0000) as u32;
    }
}

/// What can happen to the zoom.
pub enum ZoomEvent {
    /// A frame of the given elapsed time.
    Frame(int),
    /// A collision.
    Collision,
    /// So many half turns of the bird.
    HalfTurns(int),
}

/// The state after one event.
pub open spec fn after_event(state: ZoomState, event: ZoomEvent) -> ZoomState {
    match event {
        ZoomEvent::Frame(dt) => state.stepped(dt),
        ZoomEvent::Collision => state.collided(),
        ZoomEvent::HalfTurns(turns) => state.turned(turns),
    }
}

/// The state after the given events, in order.
pub open spec fn after_events(state: ZoomState, events: Seq<ZoomEvent>) -> ZoomState
    decreases events.len(),
{
    if events.len() == 0 {
        state
    } else {
        after_event(after_events(state, events.drop_last()), events.last())
    }
}

/// No frame has a negative elapsed time.
pub open spec fn frames_forward(events: Seq<ZoomEvent>) -> bool {
    forall|i: int|
        0 <= i < events.len() ==> match #[trigger] events[i] {
            ZoomEvent::Frame(dt) => 0 <= dt,
            _ => true,
        }
}

/// One event keeps the zoom between its floor and one.
pub proof fn lemma_event_keeps_zoom_in_range(state: ZoomState, event: ZoomEvent)
    requires
        state.wf(),
        match event {
            ZoomEvent::Frame(dt) => 0 <= dt,
            _ => true,
        },
    ensures
        after_event(state, event).wf(),
        after_event(state, event).min_zoom == state.min_zoom,
{
    match event {
        ZoomEvent::Frame(dt) => {
            lemma_fx_mul_nonnegative(state.zoom_factor as int, dt);
        },
        _ => {},
    }
}

/// Whatever frames of shrinking and ramping, collisions and half turns
/// follow one another, the zoom never leaves the range from its floor to
/// one.
pub proof fn lemma_zoom_stays_in_range(state: ZoomState, events: Seq<ZoomEvent>)
    requires
        state.wf(),
        frames_forward(events),
    ensures
        after_events(state, events).wf(),
        state.min_zoom <= after_events(state, events).zoom <= ONE,
    decreases events.len(),
{
    if events.len() > 0 {
        let before = events.drop_last();
        assert forall|i: int| 0 <= i < before.len() implies match #[trigger] before[i] {
            ZoomEvent::Frame(dt) => 0 <= dt,
            _ => true,
        } by {
            assert(before[i] == events[i]);
        }
        lemma_zoom_stays_in_range(state, before);
        lemma_keeps_floor(state, before);
        lemma_event_keeps_zoom_in_range(after_events(state, before), events.last());
    }
}

/// No event changes the floor of the zoom.
pub proof fn lemma_keeps_floor(state: ZoomState, events: Seq<ZoomEvent>)
    ensures
        after_events(state, events).min_zoom == state.min_zoom,
    decreases events.len(),
{
    if events.len() > 0 {
        lemma_keeps_floor(state, events.drop_last());
    }
}

/// A frame of no time leaves the zoom where it was. The whole state stays
/// as it was too, but for a ramp that has already reached one: that ramp
/// ends, as it would in any other frame.
pub proof fn lemma_zero_frame_keeps_zoom(state: ZoomState)
    requires
        state.wf(),
    ensures
        state.stepped(0).zoom == state.zoom,
        state.zoomed_out(0) == state,
        state.direction == ZoomDirection::Out || state.zoom < ONE ==> state.stepped(0) == state,
{
    lemma_fx_mul_nonnegative(state.zoom_factor as int, 0);
    lemma_fx_mul_nonnegative(ZOOM_FACTOR_DECAY as int, 0);
}

} // verus!
