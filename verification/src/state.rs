//! One game: the bird, the spiral it must avoid, the zoom and the score,
//! advanced one frame at a time.
use crate::bird::{score_of, Bird, START_ANGLE, START_RADIUS};
use crate::color::Color;
use crate::config::{CollisionPolicy, CollisionResponse, Config};
use crate::fixed::{div_floor, lemma_fx_mul_nonnegative, ONE};
use crate::geometry::{gap_sq_scaled, Point};
use crate::polar::{polar_point, poltocart, Heading};
use crate::spiral::{
    check_headings, curve_hits, curve_in_limit, curve_meets, generate, headings_wf, hit_radius,
    hit_radius_at, lemma_grazed_curve_collides, lemma_outside_curve_misses,
    lemma_spiral_has_no_empty_segment, lemma_spiral_winds_outward, neighbours_differ,
    segments_outside, spiral_points, winds_outward, HIT_RADIUS, SHARP_ZOOM,
};
use crate::zoom::ZoomState;
use vstd::prelude::*;

verus! {

/// Half a turn, in fixed point.
pub const PI: i64 = 3_141_592_654;

/// How many half turns lie between angle zero and `angle`.
pub open spec fn half_turns(angle: int) -> int {
    angle / (PI as int)
}

/// How many half turns lie between angle zero and `angle`.
pub fn half_turns_of(angle: i64) -> (k: i64)
    ensures
        k == half_turns(angle as int),
{
    let k: i128 = div_floor(angle as i128, PI as i128);
    k as i64
}

/// The whole state of one game.
#[derive(Debug)]
pub struct MainState {
    pub bird: Bird,
    /// The heading of the angle of each sample of the spiral.
    pub headings: Vec<Heading>,
    /// The spiral at the present zoom.
    pub points: Vec<Point>,
    pub zoom: ZoomState,
    pub spiral_color: Color,
    /// The score as of the last frame.
    pub score: i64,
    pub config: Config,
}

impl MainState {
    /// The parts are well formed and agree with the options, and the curve
    /// is the spiral at the present zoom.
    pub open spec fn wf(&self) -> bool {
        &&& self.config.wf()
        &&& self.bird.wf()
        &&& self.bird.governed_by(self.config)
        &&& self.zoom.wf()
        &&& self.zoom.min_zoom == self.config.zoom_floor
        &&& self.zoom.base_rate == self.config.zoom_rate
        &&& headings_wf(self.headings@)
        &&& self.points@ == spiral_points(self.headings@, self.zoom.zoom as int)
        &&& curve_in_limit(self.points@)
    }

    /// The bounds that every frame keeps: the zoom between its floor and
    /// one, the rate of the zoom above zero, and the bird's velocity between
    /// its floor and its ceiling.
    pub open spec fn in_bounds(&self) -> bool {
        &&& self.config.zoom_floor <= self.zoom.zoom <= ONE
        &&& 0 < self.zoom.zoom_factor
        &&& self.config.velocity_floor <= self.bird.velocity <= self.config.velocity_ceiling
    }

    /// The centre of the bird's hit area, where `heading` is the heading of
    /// the bird's angle.
    pub open spec fn centre(&self, heading: Heading) -> Point {
        polar_point(self.bird.radius as int, heading)
    }

    /// The bird as a game starts or starts again.
    pub open spec fn fresh_bird(config: Config) -> Bird {
        Bird::at_rest(START_RADIUS, START_ANGLE, Color::spec_white(), config)
    }

    /// The bird's hit area, with its centre along `heading`, collides with
    /// the curve under the game's policy.
    pub open spec fn collides(&self, heading: Heading) -> bool {
        curve_meets(
            self.points@,
            self.centre(heading),
            hit_radius_at(self.zoom.zoom as int),
            self.config.collision_policy,
        )
    }

    /// How many multiples of half a turn a frame of `dt` takes the bird
    /// across, if the game counts them.
    pub open spec fn crossings(&self, dt: int) -> int {
        if self.config.pulse {
            half_turns(self.bird.angle_after(dt)) - half_turns(self.bird.angle as int)
        } else {
            0
        }
    }

    /// The zoom after a frame of `dt` in which the bird crossed `turns`
    /// multiples of half a turn, before any collision is answered.
    pub open spec fn zoom_stepped(&self, dt: int, turns: int) -> ZoomState {
        self.zoom.turned(turns).stepped(dt)
    }

    /// The bird after the answer to a collision flag.
    pub open spec fn bird_resolved(&self, hit: bool) -> Bird {
        match self.config.collision_response {
            CollisionResponse::Reset => if hit {
                Self::fresh_bird(self.config)
            } else {
                Bird { color: Color::spec_white(), ..self.bird }
            },
            CollisionResponse::Flag => Bird { color: Color::spec_for_collision(hit), ..self.bird },
        }
    }

    /// The zoom after the answer to a collision flag.
    pub open spec fn zoom_resolved(&self, hit: bool) -> ZoomState {
        if hit && self.config.collision_response == CollisionResponse::Reset {
            self.zoom.collided()
        } else {
            self.zoom
        }
    }

    /// A new game under the standard options. `headings[i]` must be the
    /// heading of the angle of sample `i` of the spiral. There is no game for
    /// a table that is too long or holds a heading that is not one.
    pub fn new(headings: Vec<Heading>) -> (state: Option<MainState>)
        ensures
            state.is_some() == headings_wf(headings@),
            state matches Some(s) ==> {
                &&& s.wf()
                &&& s.headings@ == headings@
                &&& s.config == Config::standard()
                &&& s.bird == Self::fresh_bird(s.config)
                &&& s.zoom == ZoomState::initial(s.config.zoom_floor, s.config.zoom_rate)
                &&& s.spiral_color == Color::spec_red()
                &&& s.score == 0
            },
    {
        MainState::with_config(headings, Config::default())
    }

    /// A new game under the given options. There is no game for options
    /// that are not well formed, nor for a table of headings that is too long
    /// or holds a heading that is not one.
    pub fn with_config(headings: Vec<Heading>, config: Config) -> (state: Option<MainState>)
        ensures
            state.is_some() == (config.wf() && headings_wf(headings@)),
            state matches Some(s) ==> {
                &&& s.wf()
                &&& s.headings@ == headings@
                &&& s.config == config
                &&& s.bird == Self::fresh_bird(config)
                &&& s.zoom == ZoomState::initial(config.zoom_floor, config.zoom_rate)
                &&& s.spiral_color == Color::spec_red()
                &&& s.score == 0
            },
    {
        if !config.is_wf() || !check_headings(&headings) {
            return None;
        }
        let zoom = ZoomState::with_config(&config);
        let points = generate(&headings, zoom.zoom);
        let bird = Bird::with_config(START_RADIUS, START_ANGLE, Color::white(), &config);
        Some(
            MainState {
                bird,
                headings,
                points,
                zoom,
                spiral_color: Color::red(),
                score: 0,
                config,
            },
        )
    }

    /// A key went down. The bird jumps if the key is the jump key, once for
    /// each press: a repeat from a key held down does nothing.
    pub fn key_down_event(&mut self, jump_key: bool, repeated: bool)
        requires
            old(self).wf(),
        ensures
            final(self).wf(),
            *final(self) == (MainState {
                bird: if jump_key && !repeated {
                    old(self).bird.jumped()
                } else {
                    old(self).bird
                },
                ..*old(self)
            }),
    {
        if jump_key && !repeated {
            self.bird.jump();
        }
    }

    /// Whether the bird's hit area collides with the curve. `heading` must
    /// be the heading of the bird's angle. The hit area is a circle about
    /// the bird whose radius shrinks with the zoom.
    pub fn spiral_intersects_circle(&self, heading: Heading) -> (hit: bool)
        requires
            self.wf(),
            heading.wf(),
        ensures
            hit == self.collides(heading),
    {
        let center: Point = poltocart(self.bird.radius, heading);
        let radius: i64 = hit_radius(self.zoom.zoom);
        curve_hits(&self.points, center, radius, self.config.collision_policy)
    }

    /// Advances the spiral's colour through the hues by `dt` nanoseconds.
    pub fn update_color(&mut self, dt: u64)
        ensures
            *final(self) == (MainState {
                spiral_color: old(self).spiral_color.cycled(dt as int),
                ..*old(self)
            }),
    {
        self.spiral_color.cycle(dt);
    }

    /// Advances all but the bird by a frame of `dt` nanoseconds: the half
    /// turns that the bird has just made are counted, and the zoom moves in
    /// its direction; the curve follows the zoom; the colour of the spiral
    /// cycles; and the score is taken from the bird's angle.
    pub fn update_elements(&mut self, dt: u64, turns: u64)
        requires
            old(self).wf(),
        ensures
            final(self).wf(),
            final(self).zoom == old(self).zoom_stepped(dt as int, turns as int),
            final(self).spiral_color == old(self).spiral_color.cycled(dt as int),
            final(self).score == old(self).bird.spec_score(),
            final(self).bird == old(self).bird,
            final(self).headings == old(self).headings,
            final(self).config == old(self).config,
    {
        self.zoom.count_half_turns(turns);
        self.zoom.step(dt);
        self.points = generate(&self.headings, self.zoom.zoom);
        self.update_color(dt);
        self.score = self.bird.score();
    }

    /// Answers a collision flag. Under the reset response a collision sends
    /// the bird back to its start and turns the zoom to ramping back; without
    /// one the bird is white. Under the flag response the bird turns red on a
    /// collision and white otherwise, and nothing else changes.
    pub fn resolve(&mut self, hit: bool)
        requires
            old(self).wf(),
        ensures
            final(self).wf(),
            *final(self) == (MainState {
                bird: old(self).bird_resolved(hit),
                zoom: old(self).zoom_resolved(hit),
                ..*old(self)
            }),
    {
        match self.config.collision_response {
            CollisionResponse::Reset => {
                if hit {
                    self.zoom.on_collision();
                    self.bird = Bird::with_config(
                        START_RADIUS,
                        START_ANGLE,
                        Color::white(),
                        &self.config,
                    );
                } else {
                    self.bird.update_color(Color::white());
                }
            },
            CollisionResponse::Flag => {
                self.bird.update_color(Color::for_collision(hit));
            },
        }
    }

    /// One frame of `dt` nanoseconds. `heading` must be the heading of the
    /// angle that the frame brings the bird to, `self.bird.next_angle(dt)`.
    ///
    /// The bird moves; its hit area is tested against the curve at the
    /// present zoom; the zoom, the curve, the colour and the score follow;
    /// and the collision, if there was one, is answered. The result is the
    /// collision flag. Whether or not there was a collision, the zoom and the
    /// velocity are within their bounds after the frame. In a frame of no
    /// time nothing moves: only the collision is tested and answered.
    pub fn update(&mut self, dt: u64, heading: Heading) -> (hit: bool)
        requires
            old(self).wf(),
            heading.wf(),
            old(self).bird.can_update(dt as int),
        ensures
            final(self).wf(),
            final(self).in_bounds(),
            hit == (MainState { bird: old(self).bird.updated(dt as int), ..*old(self) }).collides(
                heading,
            ),
            final(self).bird == (MainState {
                bird: old(self).bird.updated(dt as int),
                ..*old(self)
            }).bird_resolved(hit),
            final(self).zoom == (MainState {
                zoom: old(self).zoom_stepped(dt as int, old(self).crossings(dt as int)),
                ..*old(self)
            }).zoom_resolved(hit),
            final(self).spiral_color == old(self).spiral_color.cycled(dt as int),
            final(self).score == score_of(old(self).bird.angle_after(dt as int)),
            final(self).headings == old(self).headings,
            final(self).config == old(self).config,
    {
        let before: i64 = half_turns_of(self.bird.angle);
        self.bird.update(dt);
        let after: i64 = half_turns_of(self.bird.angle);
        let hit: bool = self.spiral_intersects_circle(heading);
        let turns: u64 = if self.config.pulse {
            (after - before) as u64
        } else {
            0
        };
        self.update_elements(dt, turns);
        self.resolve(hit);
        hit
    }

    /// One frame of `dt` nanoseconds, if the bird's position after it can
    /// be represented: then the result is the collision flag of `update`.
    /// Otherwise nothing changes and there is no result.
    pub fn try_update(&mut self, dt: u64, heading: Heading) -> (hit: Option<bool>)
        requires
            old(self).wf(),
            heading.wf(),
        ensures
            final(self).wf(),
            final(self).in_bounds(),
            hit.is_some() == old(self).bird.can_update(dt as int),
            hit.is_none() ==> *final(self) == *old(self),
            hit matches Some(flag) ==> {
                &&& flag == (MainState {
                    bird: old(self).bird.updated(dt as int),
                    ..*old(self)
                }).collides(heading)
                &&& final(self).bird == (MainState {
                    bird: old(self).bird.updated(dt as int),
                    ..*old(self)
                }).bird_resolved(flag)
                &&& final(self).zoom == (MainState {
                    zoom: old(self).zoom_stepped(dt as int, old(self).crossings(dt as int)),
                    ..*old(self)
                }).zoom_resolved(flag)
                &&& final(self).spiral_color == old(self).spiral_color.cycled(dt as int)
                &&& final(self).score == score_of(old(self).bird.angle_after(dt as int))
                &&& final(self).headings == old(self).headings
                &&& final(self).config == old(self).config
            },
    {
        if self.bird.fits_update(dt) {
            Some(self.update(dt, heading))
        } else {
            None
        }
    }
}

/// Under options whose zoom floor is at least `SHARP_ZOOM`, as the standard
/// ones are, the curve of a game winds outward from point to point, and so
/// never has a segment of length zero.
pub proof fn lemma_curve_has_no_empty_segment(state: MainState)
    requires
        state.wf(),
        state.config.zoom_floor >= SHARP_ZOOM,
    ensures
        winds_outward(state.points@),
        neighbours_differ(state.points@),
{
    lemma_spiral_winds_outward(state.headings@, state.zoom.zoom as int);
    lemma_spiral_has_no_empty_segment(state.headings@, state.zoom.zoom as int);
}

/// A well-formed game is within its bounds.
pub proof fn lemma_game_in_bounds(state: MainState)
    requires
        state.wf(),
    ensures
        state.in_bounds(),
{
}

/// Under segment intersection, a segment of the curve that comes within
/// the hit radius of the bird's centre is a collision, also where it is
/// exactly the hit radius away at a point strictly between its ends.
pub proof fn lemma_grazing_segment_collides(
    state: MainState,
    heading: Heading,
    i: int,
    n: int,
    m: int,
)
    requires
        state.wf(),
        state.config.collision_policy == CollisionPolicy::SegmentIntersection,
        0 <= i && i + 1 < state.points@.len(),
        0 <= n <= m,
        0 < m,
        gap_sq_scaled(state.points@[i], state.points@[i + 1], state.centre(heading), n, m)
            <= hit_radius_at(state.zoom.zoom as int) * hit_radius_at(state.zoom.zoom as int) * (m
            * m),
    ensures
        state.collides(heading),
{
    lemma_fx_mul_nonnegative(HIT_RADIUS as int, state.zoom.zoom as int);
    lemma_grazed_curve_collides(
        state.points@,
        state.centre(heading),
        hit_radius_at(state.zoom.zoom as int),
        i,
        n,
        m,
    );
}

/// A curve all of whose segments stay farther than the hit radius from the
/// bird's centre is no collision, under either policy. (The curve of a game
/// has as many points as its table has headings; one of a single point has
/// no segment, and that point is tested as it is.)
pub proof fn lemma_outside_curve_is_no_collision(state: MainState, heading: Heading)
    requires
        state.wf(),
        state.points@.len() != 1,
        segments_outside(
            state.points@,
            state.centre(heading),
            hit_radius_at(state.zoom.zoom as int),
        ),
    ensures
        !state.collides(heading),
{
    lemma_outside_curve_misses(
        state.points@,
        state.centre(heading),
        hit_radius_at(state.zoom.zoom as int),
        state.config.collision_policy,
    );
}

} // verus!
