use polarust::color::{lower, raise, Color, COLOR_STEP};
use polarust::fixed::ONE;

#[test]
fn the_named_colours() {
    assert_eq!(Color::white(), Color { r: ONE, g: ONE, b: ONE, a: ONE });
    assert_eq!(Color::red(), Color { r: ONE, g: 0, b: 0, a: ONE });
    assert_eq!(Color::for_collision(true), Color::red());
    assert_eq!(Color::for_collision(false), Color::white());
    assert_eq!(COLOR_STEP, 500_000_000);
}

#[test]
fn channels_stop_at_their_bounds() {
    assert_eq!(raise(0, 5), 5);
    assert_eq!(raise(ONE - 3, 5), ONE);
    assert_eq!(raise(ONE, 0), ONE);
    assert_eq!(raise(-7, 2), -5);
    assert_eq!(raise(i64::MIN, i64::MAX as i128), -1);
    assert_eq!(lower(ONE, 5), ONE - 5);
    assert_eq!(lower(3, 5), 0);
    assert_eq!(lower(0, 0), 0);
    assert_eq!(lower(i64::MAX, i64::MAX as i128), 0);
    assert_eq!(lower(i64::MAX, 1), i64::MAX - 1);
}

#[test]
fn the_spiral_cycles_through_the_hues() {
    let half = ONE / 2;
    let second: u64 = 1_000_000_000;
    let mut c = Color::red();
    let expected = [
        (ONE, half, 0),
        (ONE, ONE, 0),
        (half, ONE, 0),
        (0, ONE, 0),
        (0, ONE, half),
        (0, ONE, ONE),
        (0, half, ONE),
        (0, 0, ONE),
        (half, 0, ONE),
        (ONE, 0, ONE),
        (ONE, 0, half),
        (ONE, 0, 0),
        (ONE, half, 0),
    ];
    for (r, g, b) in expected {
        c.cycle(second);
        assert_eq!(c, Color { r, g, b, a: ONE });
    }
}

#[test]
fn a_short_frame_moves_one_channel_a_little() {
    let mut c = Color::red();
    c.cycle(16_000_000);
    assert_eq!(c, Color { r: ONE, g: 8_000_000, b: 0, a: ONE });
    c.cycle(0);
    assert_eq!(c, Color { r: ONE, g: 8_000_000, b: 0, a: ONE });
    c.cycle(u64::MAX);
    assert_eq!(c, Color { r: ONE, g: ONE, b: 0, a: ONE });
    c.cycle(3);
    assert_eq!(c, Color { r: ONE - 1, g: ONE, b: 0, a: ONE });
}

#[test]
fn a_colour_off_the_cycle_stays() {
    let mut grey = Color { r: 5, g: 5, b: 5, a: ONE };
    grey.cycle(1_000_000_000);
    assert_eq!(grey, Color { r: 5, g: 5, b: 5, a: ONE });
    let mut white = Color::white();
    white.cycle(1_000_000_000);
    assert_eq!(white, Color { r: ONE / 2, g: ONE, b: ONE, a: ONE });
}
