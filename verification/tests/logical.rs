//! The logical extent agrees with what binary64 gives.

use wayland_display_core::geometry::Size;
use wayland_display_core::ui_scale::UiScale;

fn scale_of(scale: f64) -> UiScale {
    UiScale::clamp(scale.to_bits()).unwrap()
}

fn in_floats(pixels: i32, scale: f64) -> i32 {
    (pixels as f64 / scale).round() as i32
}

fn check(pixels: i32, scale: f64) {
    let size = Size { w: pixels, h: pixels };
    let logical = size.to_logical(scale_of(scale));
    assert_eq!(logical.w, in_floats(pixels, scale), "{pixels} / {scale}");
    assert_eq!(logical.h, logical.w);
}

#[test]
fn whole_scales_divide() {
    let size = Size { w: 1920, h: 1080 };
    assert_eq!(size.to_logical(scale_of(1.0)), size);
    assert_eq!(size.to_logical(scale_of(2.0)), Size { w: 960, h: 540 });
    assert_eq!(size.to_logical(scale_of(3.0)), Size { w: 640, h: 360 });
    assert_eq!(size.to_logical(scale_of(1.5)), Size { w: 1280, h: 720 });
}

#[test]
fn a_quotient_that_binary64_rounds_up_to_a_half_goes_up() {
    // 1.6 is held a little too large, so the exact quotient is below 337.5.
    assert_eq!(Size { w: 540, h: 0 }.to_logical(scale_of(1.6)), Size { w: 338, h: 0 });
    check(540, 1.6);
}

#[test]
fn every_size_agrees_at_common_scales() {
    for pixels in 0..5000 {
        for scale in [1.0, 1.1, 1.15, 1.2, 1.25, 1.3, 1.4, 1.5, 1.6, 1.75, 1.9, 2.0, 2.4, 2.5, 3.0] {
            check(pixels, scale);
        }
    }
}

#[test]
fn extreme_sizes_agree() {
    for pixels in [i32::MIN, i32::MIN + 1, -1081, -1, 1, 2, 3, i32::MAX - 1, i32::MAX] {
        for scale in [1.0, 1.000_000_000_000_000_2, 1.3, 1.999_999_999_999_999_8, 2.0, 2.3, 3.0] {
            check(pixels, scale);
        }
    }
}

#[test]
fn scattered_scales_agree() {
    // A fixed walk over the patterns between 1.0 and 3.0.
    let mut bits: u64 = 0x3ff0_0000_0000_0000;
    let mut pixels: i32 = 1;
    while bits <= 0x4008_0000_0000_0000 {
        check(pixels, f64::from_bits(bits));
        check(-pixels, f64::from_bits(bits));
        bits += 0x0000_0017_3f4d_2b91;
        pixels = (pixels.wrapping_mul(31).wrapping_add(17)) % 8192;
        if pixels < 0 {
            pixels = -pixels;
        }
    }
}
