use polarust::bird::{Bird, START_ANGLE, START_RADIUS};
use polarust::color::Color;
use polarust::config::{
    CollisionPolicy, CollisionResponse, Config, ANGULAR_RATE, GRAVITY, LIFT, VELOCITY_CEILING,
    VELOCITY_FLOOR,
};
use polarust::fixed::ONE;

fn start() -> Bird {
    Bird::new(START_RADIUS, START_ANGLE, Color::white())
}

#[test]
fn a_new_bird_is_at_rest() {
    let bird = start();
    assert_eq!(bird.radius, 100_000_000_000);
    assert_eq!(bird.angle, 10_000_000_000);
    assert_eq!(bird.velocity, 0);
    assert_eq!(bird.gravity, -100_000_000);
    assert_eq!(bird.lift, 50_000_000_000);
    assert_eq!(bird.velocity_floor, -500_000_000_000);
    assert_eq!(bird.velocity_ceiling, 400_000_000_000);
    assert_eq!(bird.angular_rate, 500_000_000);
    assert_eq!(bird.color, Color::white());
    assert_eq!((GRAVITY, LIFT, ANGULAR_RATE), (bird.gravity, bird.lift, bird.angular_rate));
    assert_eq!((VELOCITY_FLOOR, VELOCITY_CEILING), (bird.velocity_floor, bird.velocity_ceiling));
}

#[test]
fn a_bird_takes_its_constants_from_the_options() {
    let config = Config {
        gravity: -7,
        lift: 11,
        angular_rate: 13,
        velocity_floor: -17,
        velocity_ceiling: 19,
        zoom_floor: 23,
        zoom_rate: 29,
        collision_policy: CollisionPolicy::PointSampling,
        collision_response: CollisionResponse::Flag,
        pulse: true,
    };
    assert!(config.is_wf());
    let bird = Bird::with_config(1, 2, Color::red(), &config);
    assert_eq!(
        bird,
        Bird {
            radius: 1,
            angle: 2,
            gravity: -7,
            lift: 11,
            velocity: 0,
            velocity_floor: -17,
            velocity_ceiling: 19,
            angular_rate: 13,
            color: Color::red(),
        }
    );
    let standard = Bird::with_config(START_RADIUS, START_ANGLE, Color::white(), &Config::default());
    assert_eq!(standard, start());
}

#[test]
fn a_jump_adds_the_lift() {
    let mut bird = start();
    bird.jump();
    assert_eq!(bird.velocity, 50_000_000_000);
    assert_eq!(bird.radius, START_RADIUS);
    assert_eq!(bird.angle, START_ANGLE);
    bird.jump();
    assert_eq!(bird.velocity, 100_000_000_000);
}

#[test]
fn jumps_stop_at_the_ceiling() {
    let mut bird = start();
    for i in 1..=20 {
        bird.jump();
        assert!(bird.velocity <= 400_000_000_000);
        let expected: i64 = if i < 8 { i * 50_000_000_000 } else { 400_000_000_000 };
        assert_eq!(bird.velocity, expected);
    }
    bird.velocity = 380_000_000_000;
    bird.jump();
    assert_eq!(bird.velocity, 400_000_000_000);
    bird.velocity = 349_999_999_999;
    bird.jump();
    assert_eq!(bird.velocity, 399_999_999_999);
    bird.velocity = 350_000_000_001;
    bird.jump();
    assert_eq!(bird.velocity, 400_000_000_000);
}

#[test]
fn a_jump_from_the_floor_with_extreme_constants() {
    let mut bird = start();
    bird.velocity_floor = i64::MIN;
    bird.velocity_ceiling = i64::MAX;
    bird.lift = i64::MAX;
    bird.velocity = i64::MAX - 1;
    bird.jump();
    assert_eq!(bird.velocity, i64::MAX);
    bird.velocity = i64::MIN;
    bird.jump();
    assert_eq!(bird.velocity, -1);
}

#[test]
fn a_frame_moves_the_bird_in_proportion_to_the_time() {
    let mut bird = start();
    bird.jump();
    bird.update(16_000_000);
    // 100 + 50 * 0.016, 10 + 0.5 * 0.016, 50 - 0.1
    assert_eq!(bird.radius, 100_800_000_000);
    assert_eq!(bird.angle, 10_008_000_000);
    assert_eq!(bird.velocity, 49_900_000_000);
    bird.update(1_000_000_000);
    assert_eq!(bird.radius, 150_700_000_000);
    assert_eq!(bird.angle, 10_508_000_000);
    assert_eq!(bird.velocity, 49_800_000_000);
}

#[test]
fn a_frame_of_no_time_changes_nothing() {
    let mut bird = start();
    bird.jump();
    let before = bird;
    bird.update(0);
    assert_eq!(bird.radius, START_RADIUS);
    assert_eq!(bird.angle, START_ANGLE);
    assert_eq!(bird.velocity, 50_000_000_000);
    assert_eq!(bird, before);
    let mut rest = start();
    rest.update(0);
    assert_eq!(rest.velocity, 0);
    assert_eq!(rest, start());
    // At the edge of the range too.
    let mut far = Bird::new(i64::MAX, i64::MIN, Color::red());
    far.velocity = -500_000_000_000;
    let edge = far;
    assert!(far.fits_update(0));
    far.update(0);
    assert_eq!(far, edge);
    assert!(far.try_update(0));
    assert_eq!(far, edge);
}

#[test]
fn gravity_acts_once_a_frame() {
    let mut bird = start();
    bird.update(1);
    assert_eq!(bird.velocity, -100_000_000);
    bird.update(1_000_000_000);
    assert_eq!(bird.velocity, -200_000_000);
    bird.update(5_000_000_000);
    assert_eq!(bird.velocity, -300_000_000);
}

#[test]
fn gravity_stops_at_the_floor() {
    let mut bird = start();
    for i in 1..=6000 {
        bird.update(1);
        assert!(bird.velocity >= -500_000_000_000);
        let expected: i64 = if i < 5000 { -i * 100_000_000 } else { -500_000_000_000 };
        assert_eq!(bird.velocity, expected);
    }
    bird.velocity = -499_950_000_000;
    bird.update(1);
    assert_eq!(bird.velocity, -500_000_000_000);
    bird.velocity = -499_900_000_001;
    bird.update(1);
    assert_eq!(bird.velocity, -500_000_000_000);
    bird.velocity = -499_899_999_999;
    bird.update(1);
    assert_eq!(bird.velocity, -499_999_999_999);
}

#[test]
fn a_frame_is_taken_only_if_it_fits() {
    let mut bird = start();
    bird.jump();
    assert!(bird.try_update(16_000_000));
    assert_eq!(bird.radius, 100_800_000_000);
    assert_eq!(bird.velocity, 49_900_000_000);
    bird.radius = i64::MAX;
    let before = bird;
    assert!(!bird.try_update(1_000_000_000));
    assert_eq!(bird, before);
    assert_eq!(bird.next_angle(1_000_000_000), None);
    assert!(bird.try_update(0));
    assert_eq!(bird, before);
}

#[test]
fn the_radius_may_become_negative() {
    let mut bird = Bird::new(ONE, START_ANGLE, Color::white());
    bird.velocity = -500_000_000_000;
    bird.update(1_000_000_000);
    assert_eq!(bird.radius, -499_000_000_000);
    bird.update(1_000_000_000);
    assert_eq!(bird.radius, -999_000_000_000);
}

#[test]
fn a_frame_rounds_the_step_down() {
    let mut bird = Bird::new(0, 0, Color::white());
    bird.velocity = -1;
    bird.update(1);
    assert_eq!(bird.radius, -1);
    assert_eq!(bird.angle, 0);
    bird.velocity = 1;
    bird.update(999_999_999);
    assert_eq!(bird.radius, -1);
    bird.velocity = 3;
    bird.update(1_000_000_000);
    assert_eq!(bird.radius, 2);
    // 0 + 0.499999999 + 0.5: each step is rounded down on its own.
    assert_eq!(bird.angle, 999_999_999);
}

#[test]
fn the_score_counts_whole_radians_from_the_start() {
    let mut bird = start();
    assert_eq!(bird.score(), 0);
    bird.angle = 10_999_999_999;
    assert_eq!(bird.score(), 0);
    bird.angle = 11_000_000_000;
    assert_eq!(bird.score(), 1);
    bird.angle = 9_500_000_000;
    assert_eq!(bird.score(), -1);
    bird.angle = 0;
    assert_eq!(bird.score(), -10);
    bird.angle = i64::MAX;
    assert_eq!(bird.score(), 9_223_372_026);
    bird.angle = i64::MIN;
    assert_eq!(bird.score(), -9_223_372_047);
}

#[test]
fn the_score_never_falls_while_the_bird_flies() {
    let mut bird = start();
    let mut last = bird.score();
    for dt in [0u64, 1, 16_000_000, 2_000_000_000, 999_999_999, 5, 60_000_000_000] {
        bird.update(dt);
        let score = bird.score();
        assert!(score >= last);
        last = score;
    }
    // 10 + 0.5 * 63.016000005 = 41.5080000025
    assert_eq!(last, 31);
}

#[test]
fn a_frame_that_would_leave_the_range_is_told_apart() {
    let mut bird = start();
    assert!(bird.fits_update(0));
    // Half a radian per second for u64::MAX nanoseconds is past the range.
    assert!(!bird.fits_update(u64::MAX));
    assert!(bird.fits_update(18_446_744_053_709_551_614));
    assert!(!bird.fits_update(18_446_744_053_709_551_616));
    bird.radius = i64::MAX;
    bird.velocity = 50_000_000_000;
    assert!(bird.fits_update(0));
    assert!(!bird.fits_update(1_000_000_000));
    bird.velocity = -50_000_000_000;
    assert!(bird.fits_update(1_000_000_000));
    bird.radius = i64::MIN;
    assert!(!bird.fits_update(1_000_000_000));
    bird.radius = 0;
    bird.angle = i64::MAX - 7;
    assert!(bird.fits_update(14));
    assert!(bird.fits_update(15));
    assert!(!bird.fits_update(16));
    bird.update(15);
    assert_eq!(bird.angle, i64::MAX);
}

#[test]
fn the_next_angle_is_the_angle_after_the_frame() {
    let mut bird = start();
    assert_eq!(bird.next_angle(0), Some(START_ANGLE));
    assert_eq!(bird.next_angle(16_000_000), Some(10_008_000_000));
    assert_eq!(bird.next_angle(3), Some(10_000_000_001));
    assert_eq!(bird.next_angle(u64::MAX), None);
    let next = bird.next_angle(123_456_789);
    bird.update(123_456_789);
    assert_eq!(Some(bird.angle), next);
    assert_eq!(next, Some(10_061_728_394));
}

#[test]
fn the_colour_of_the_bird_is_only_a_colour() {
    let mut bird = start();
    bird.jump();
    let before = bird;
    bird.update_color(Color::red());
    assert_eq!(bird.color, Color::red());
    assert_eq!(bird, Bird { color: Color::red(), ..before });
}
