use musiclight::animation::{Color, ColorBuffer};
use musiclight::fixed::{FP_ONE, fp_mul, fp_div, isqrt, fp_pow_quarters};

#[test]
fn fixed_point_products_and_quotients() {
    // 0.5 * 0.5 == 0.25
    assert_eq!(fp_mul(32768, 32768), 16384);
    // 0.25 / 0.5 == 0.5
    assert_eq!(fp_div(16384, 32768), 32768);
    assert_eq!(fp_mul(FP_ONE, FP_ONE), FP_ONE);
    assert_eq!(fp_mul(0, FP_ONE), 0);
}

#[test]
fn integer_square_root_exact() {
    assert_eq!(isqrt(0), 0);
    assert_eq!(isqrt(15), 3);
    assert_eq!(isqrt(16), 4);
    assert_eq!(isqrt(u64::MAX), 0xFFFF_FFFF);
}

#[test]
fn unit_powers_fix_zero_and_one() {
    assert_eq!(fp_pow_quarters(FP_ONE, 7), FP_ONE);
    assert_eq!(fp_pow_quarters(0, 6), 0);
    // x^0 == 1 for any unit x
    assert_eq!(fp_pow_quarters(12345, 0), FP_ONE);
    // a fractional power of 0.25: (0.25)^(1/2) is 0.5 up to the
    // fixed-point rounding of the quarter-root chain
    assert_eq!(fp_pow_quarters(16384, 2), 32766);
}

#[test]
fn color_scale_add_limit() {
    let mut c = Color { r: FP_ONE, g: 32768, b: 0, w: FP_ONE };
    c.scale(32768);
    assert_eq!(c.r, 32768);
    assert_eq!(c.g, 16384);
    assert_eq!(c.b, 0);
    assert_eq!(c.w, 32768);

    let d = c.scaled_copy(FP_ONE);
    assert_eq!(d, c);

    let mut e = Color { r: 60000, g: 0, b: 1, w: 0 };
    e.add(&Color { r: 60000, g: 5, b: u64::MAX, w: 0 });
    assert_eq!(e.r, 120000);
    assert_eq!(e.g, 5);
    // saturating addition never wraps
    assert_eq!(e.b, u64::MAX);

    e.limit();
    assert_eq!(e.r, FP_ONE);
    assert_eq!(e.g, 5);
    assert_eq!(e.b, FP_ONE);
    assert_eq!(e.w, 0);
}

#[test]
fn color_channel_accessors() {
    let mut c = Color { r: 1, g: 2, b: 3, w: 4 };
    assert_eq!(c.channel(0), 1);
    assert_eq!(c.channel(3), 4);
    c.set_channel(2, 99);
    assert_eq!(c.b, 99);
    assert_eq!(c.g, 2);
}

#[test]
fn buffer_layout_is_row_major() {
    let mut b = ColorBuffer::new(2, 3);
    assert_eq!(b.len(), 6);
    assert_eq!(b.num_strips(), 2);
    assert_eq!(b.leds_per_strip(), 3);
    b.set_flat(4, Color { r: 7, g: 0, b: 0, w: 0 });
    // cell (1, 1) lives at flat index 1 * 3 + 1
    assert_eq!(b.get_flat(4).r, 7);
    b.add_flat(4, &Color { r: 5, g: 1, b: 0, w: 0 });
    assert_eq!(b.get_flat(4).r, 12);
    assert_eq!(b.get_flat(4).g, 1);
    b.scale_all(32768);
    assert_eq!(b.get_flat(4).r, 6);
    b.clear();
    assert_eq!(b.get_flat(4).r, 0);
}
