//! The fullscreen fit.

use wayland_display_core::geometry::{
    fullscreen_fit, window_fullscreen_fit, AckedState, Fit, FitFacts, Point, Rect, Size,
};

fn size(w: i32, h: i32) -> Size {
    Size { w, h }
}

fn scale(fit: Fit) -> f64 {
    fit.num as f64 / fit.den as f64
}

fn offset(fit: Fit) -> (f64, f64) {
    let unit = 2.0 * fit.den as f64;
    (fit.offset_x as f64 / unit, fit.offset_y as f64 / unit)
}

/// The point of the content that is drawn at `(x, y)`.
fn content_at(fit: Fit, x: f64, y: f64) -> (f64, f64) {
    let (left, top) = offset(fit);
    ((x - left) / scale(fit), (y - top) / scale(fit))
}

fn lit(fit: Fit, surface: Size, x: f64, y: f64) -> bool {
    let (cx, cy) = content_at(fit, x, y);
    0.0 <= cx && cx < surface.w as f64 && 0.0 <= cy && cy < surface.h as f64
}

fn check(configured: (i32, i32), surface: (i32, i32), want: f64, (x, y): (f64, f64)) {
    let fit = fullscreen_fit(size(configured.0, configured.1), size(surface.0, surface.1));
    assert!((scale(fit) - want).abs() < 1e-9, "{configured:?} <- {surface:?}: {fit:?}");
    let (got_x, got_y) = offset(fit);
    assert!((got_x - x).abs() < 1e-9 && (got_y - y).abs() < 1e-9, "{fit:?}");
}

fn fullscreen(configured: Option<Size>, surface: Size) -> FitFacts {
    FitFacts {
        current: Some(AckedState { fullscreen: true, size: configured }),
        surface_size: Some(surface),
        bbox: Rect { loc: Point { x: 0, y: 0 }, size: surface },
    }
}

#[test]
fn fullscreen_fit_table() {
    // The window fills its configure.
    check((1920, 1080), (1920, 1080), 1.0, (0.0, 0.0));
    // Degenerate sizes.
    check((1920, 1080), (0, 0), 1.0, (0.0, 0.0));
    check((0, 0), (960, 540), 1.0, (0.0, 0.0));

    // The same aspect: no bars.
    check((1920, 1080), (960, 540), 2.0, (0.0, 0.0));
    check((1920, 1080), (1280, 720), 1.5, (0.0, 0.0));

    // Bars left and right.
    check((1920, 1080), (1440, 1080), 1.0, (240.0, 0.0));
    check((1920, 1080), (640, 480), 2.25, (240.0, 0.0));
    // Bars above and below.
    check((1920, 1080), (1920, 800), 1.0, (0.0, 140.0));

    // Larger than its configure.
    check((1280, 720), (1920, 1080), 2.0 / 3.0, (0.0, 0.0));

    // A fractional offset stays one.
    check((1920, 1080), (1000, 540), 1.92, (0.0, 21.6));
}

#[test]
fn no_render_size_composites_one_to_one() {
    let output = size(1920, 1080);
    let fit = window_fullscreen_fit(fullscreen(Some(output), output), output);
    assert_eq!(fit, Fit { num: 1, den: 1, offset_x: 0, offset_y: 0 });
    for (x, y) in [(0.0, 0.0), (1919.0, 0.0), (0.0, 1079.0), (1919.0, 1079.0), (960.0, 540.0)] {
        assert!(lit(fit, output, x, y));
    }
}

#[test]
fn fullscreen_buffer_smaller_than_output_is_scaled_to_fit() {
    let output = size(1920, 1080);
    let surface = size(960, 540);
    let fit = window_fullscreen_fit(fullscreen(Some(output), surface), output);
    assert!(lit(fit, surface, 10.0, 10.0));
    assert!(lit(fit, surface, 1900.0, 1000.0));
}

#[test]
fn fullscreen_buffer_with_other_aspect_is_letterboxed() {
    let output = size(1920, 1080);
    let surface = size(1440, 1080);
    let fit = window_fullscreen_fit(fullscreen(Some(output), surface), output);
    assert!(!lit(fit, surface, 10.0, 540.0));
    assert!(lit(fit, surface, 960.0, 540.0));
    assert!(!lit(fit, surface, 1910.0, 540.0));
}

#[test]
fn fullscreen_viewport_destination_smaller_than_the_output_is_scaled_to_fit() {
    // A 480x270 buffer shown at 960x540: what counts is the size it is shown at.
    let output = size(1920, 1080);
    let shown = size(960, 540);
    let fit = window_fullscreen_fit(fullscreen(Some(output), shown), output);
    assert!(lit(fit, shown, 10.0, 10.0));
    assert!(lit(fit, shown, 1900.0, 1000.0));
}

#[test]
fn pointer_input_is_mapped_through_the_fullscreen_fit() {
    let output = size(1920, 1080);
    let fit = window_fullscreen_fit(fullscreen(Some(output), size(960, 540)), output);
    assert_eq!(content_at(fit, 1900.0, 1000.0), (950.0, 500.0));
}

#[test]
fn relative_motion_is_scaled_by_the_fullscreen_fit() {
    let output = size(1920, 1080);
    let fit = window_fullscreen_fit(fullscreen(Some(output), size(960, 540)), output);
    assert_eq!((20.0 / scale(fit), 20.0 / scale(fit)), (10.0, 10.0));
}

#[test]
fn a_window_is_left_alone_unless_it_is_fullscreen_and_within_its_surface() {
    let output = size(1920, 1080);
    let surface = size(960, 540);
    let identity = Fit { num: 1, den: 1, offset_x: 0, offset_y: 0 };
    let facts = fullscreen(Some(output), surface);

    let no_state = FitFacts { current: None, ..facts };
    assert_eq!(window_fullscreen_fit(no_state, output), identity);
    let windowed = FitFacts {
        current: Some(AckedState { fullscreen: false, size: Some(output) }),
        ..facts
    };
    assert_eq!(window_fullscreen_fit(windowed, output), identity);
    let no_buffer = FitFacts { surface_size: None, ..facts };
    assert_eq!(window_fullscreen_fit(no_buffer, output), identity);
    // Subsurfaces that reach beyond the root surface.
    for bbox in [
        Rect { loc: Point { x: 0, y: 0 }, size: size(961, 540) },
        Rect { loc: Point { x: 0, y: 1 }, size: size(960, 540) },
        Rect { loc: Point { x: -1, y: 0 }, size: size(10, 10) },
    ] {
        let wide = FitFacts { bbox, ..facts };
        assert_eq!(window_fullscreen_fit(wide, output), identity);
    }
    // Without a configured size the output is filled.
    let fit = window_fullscreen_fit(fullscreen(None, surface), output);
    assert_eq!(scale(fit), 2.0);
}

#[test]
fn sizes_overlap_or_have_nothing_in_common() {
    assert_eq!(size(800, 600).intersection(size(640, 1080)), Some(size(640, 600)));
    assert_eq!(size(800, 0).intersection(size(640, 1080)), None);
    assert!(size(800, 600).contains_rect(Rect { loc: Point { x: 1, y: 2 }, size: size(799, 598) }));
    assert!(!size(800, 600).contains_rect(Rect { loc: Point { x: 2, y: 2 }, size: size(799, 598) }));
    assert!(size(i32::MAX, 1).contains_rect(Rect {
        loc: Point { x: 5, y: 0 },
        size: size(i32::MAX, 1),
    }));
}
