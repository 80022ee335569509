use polarust::config::{Config, INITIAL_ZOOM_FACTOR, MIN_ZOOM};
use polarust::fixed::ONE;
use polarust::zoom::{ZoomDirection, ZoomState, RESET_ZOOM_FACTOR, ZOOM_FACTOR_DECAY};

#[test]
fn the_zoom_starts_at_one() {
    let z = ZoomState::new();
    assert_eq!(
        z,
        ZoomState {
            zoom: 1_000_000_000,
            zoom_factor: 30_000_000,
            direction: ZoomDirection::Out,
            cycle_count: 0,
            min_zoom: 100_000_000,
            base_rate: 30_000_000,
        }
    );
    assert_eq!(ZoomState::with_config(&Config::default()), z);
    assert_eq!((MIN_ZOOM, INITIAL_ZOOM_FACTOR), (z.min_zoom, z.base_rate));
    assert_eq!((ZOOM_FACTOR_DECAY, RESET_ZOOM_FACTOR), (10_000, ONE));
    let mut config = Config::default();
    config.zoom_floor = 250_000_000;
    config.zoom_rate = 7;
    let y = ZoomState::with_config(&config);
    assert_eq!((y.zoom, y.zoom_factor, y.min_zoom, y.base_rate), (ONE, 7, 250_000_000, 7));
}

#[test]
fn shrinking_is_in_proportion_to_the_time() {
    let mut z = ZoomState::new();
    z.zoom_out(1_000_000_000);
    assert_eq!(z.zoom, 970_000_000);
    assert_eq!(z.zoom_factor, 29_990_000);
    let mut y = ZoomState::new();
    y.zoom_out(16_666_667);
    // 0.03 * 0.016666667 = 0.00050000001; 0.00001 * 0.016666667 = 0.000000166...
    assert_eq!(y.zoom, 999_500_000);
    assert_eq!(y.zoom_factor, 29_999_834);
    y.zoom_out(0);
    assert_eq!(y.zoom, 999_500_000);
    assert_eq!(y.zoom_factor, 29_999_834);
    assert_eq!(y.direction, ZoomDirection::Out);
}

#[test]
fn shrinking_stops_at_the_floor() {
    let mut z = ZoomState::new();
    z.zoom_out(100_000_000_000);
    assert_eq!(z.zoom, 100_000_000);
    assert_eq!(z.zoom_factor, 29_000_000);
    z.zoom_out(u64::MAX);
    assert_eq!(z.zoom, 100_000_000);
    let mut y = ZoomState::new();
    y.zoom_out(30_000_000_000);
    assert_eq!(y.zoom, 100_000_000);
    let mut x = ZoomState::new();
    x.zoom_out(29_999_999_999);
    assert_eq!(x.zoom, 100_000_001);
}

#[test]
fn the_rate_decays_but_never_to_zero() {
    let mut z = ZoomState::new();
    z.zoom_out(2_999_999_999_999);
    assert_eq!(z.zoom_factor, 30_000_000 - 29_999_999);
    let mut y = ZoomState::new();
    y.zoom_out(3_000_000_000_000);
    assert_eq!(y.zoom_factor, 30_000_000);
    let mut x = ZoomState::new();
    x.zoom_out(u64::MAX);
    assert_eq!(x.zoom_factor, 30_000_000);
}

#[test]
fn ramping_back_ends_at_one() {
    let mut z = ZoomState::new();
    z.zoom = 500_000_000;
    z.on_collision();
    assert_eq!(z.direction, ZoomDirection::In);
    assert_eq!(z.zoom_factor, 1_000_000_000);
    assert_eq!(z.zoom, 500_000_000);
    z.reset(250_000_000);
    assert_eq!(z.zoom, 750_000_000);
    assert_eq!(z.direction, ZoomDirection::In);
    assert_eq!(z.zoom_factor, 1_000_000_000);
    z.reset(249_999_999);
    assert_eq!(z.zoom, 999_999_999);
    assert_eq!(z.direction, ZoomDirection::In);
    // Reaching one exactly ends the ramp.
    z.reset(1);
    assert_eq!(z.zoom, ONE);
    assert_eq!(z.direction, ZoomDirection::Out);
    assert_eq!(z.zoom_factor, 30_000_000);
}

#[test]
fn ramping_back_never_passes_one() {
    let mut z = ZoomState::new();
    z.zoom = 100_000_000;
    z.on_collision();
    z.reset(u64::MAX);
    assert_eq!(z.zoom, ONE);
    assert_eq!(z.direction, ZoomDirection::Out);
    assert_eq!(z.zoom_factor, 30_000_000);
    let mut y = ZoomState::new();
    y.zoom = 999_999_999;
    y.on_collision();
    y.reset(0);
    assert_eq!(y.zoom, 999_999_999);
    assert_eq!(y.direction, ZoomDirection::In);
}

#[test]
fn a_step_goes_in_the_present_direction() {
    let mut z = ZoomState::new();
    z.step(1_000_000_000);
    assert_eq!((z.zoom, z.zoom_factor), (970_000_000, 29_990_000));
    z.on_collision();
    z.step(10_000_000);
    assert_eq!((z.zoom, z.zoom_factor, z.direction), (980_000_000, ONE, ZoomDirection::In));
    z.step(20_000_000);
    assert_eq!((z.zoom, z.zoom_factor, z.direction), (ONE, 30_000_000, ZoomDirection::Out));
    z.step(1_000_000_000);
    assert_eq!((z.zoom, z.zoom_factor), (970_000_000, 29_990_000));
}

#[test]
fn half_turns_pause_and_resume_the_shrinking() {
    let mut z = ZoomState::new();
    assert!(!z.is_paused());
    z.count_half_turns(1);
    assert_eq!(z.cycle_count, 1);
    assert!(z.is_paused());
    z.step(1_000_000_000);
    assert_eq!((z.zoom, z.zoom_factor), (ONE, 30_000_000));
    z.count_half_turns(0);
    assert_eq!(z.cycle_count, 1);
    assert!(z.is_paused());
    z.count_half_turns(1);
    assert_eq!(z.cycle_count, 2);
    assert!(!z.is_paused());
    z.step(1_000_000_000);
    assert_eq!((z.zoom, z.zoom_factor), (970_000_000, 29_990_000));
    // A ramp is not paused.
    z.count_half_turns(1);
    z.on_collision();
    z.step(10_000_000);
    assert_eq!(z.zoom, 980_000_000);
}

#[test]
fn several_half_turns_are_counted_at_once() {
    let mut z = ZoomState::new();
    z.count_half_turns(5);
    assert_eq!(z.cycle_count, 5);
    assert!(z.is_paused());
    z.count_half_turns(4);
    assert_eq!(z.cycle_count, 9);
    assert!(z.is_paused());
    z.count_half_turns(7);
    assert_eq!(z.cycle_count, 16);
    assert!(!z.is_paused());
    let before = z;
    z.count_half_turns(0);
    assert_eq!(z, before);
}

#[test]
fn the_count_of_half_turns_wraps() {
    let mut z = ZoomState::new();
    z.cycle_count = u32::MAX - 1;
    assert!(!z.is_paused());
    z.count_half_turns(1);
    assert_eq!(z.cycle_count, u32::MAX);
    assert!(z.is_paused());
    z.count_half_turns(1);
    assert_eq!(z.cycle_count, 0);
    assert!(!z.is_paused());
    z.count_half_turns(u64::MAX);
    assert_eq!(z.cycle_count, u32::MAX);
    assert!(z.is_paused());
    z.count_half_turns(0x1_0000_0000);
    assert_eq!(z.cycle_count, u32::MAX);
    z.count_half_turns(0x1_0000_0003);
    assert_eq!(z.cycle_count, 2);
}

#[test]
fn the_zoom_never_leaves_its_range() {
    let mut z = ZoomState::new();
    let times = [0u64, 1, 16_666_667, 5_000_000_000, 700_000_000, u64::MAX, 33_000_000];
    for round in 0..200usize {
        let dt = times[round % times.len()];
        if round % 13 == 5 {
            z.on_collision();
        }
        if round % 7 == 3 {
            z.count_half_turns(round as u64);
        }
        z.step(dt);
        assert!(z.min_zoom <= z.zoom && z.zoom <= ONE);
        assert!(z.zoom_factor >= 0);
        assert_eq!(z.min_zoom, 100_000_000);
    }
}
