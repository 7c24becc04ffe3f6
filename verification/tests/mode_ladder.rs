//! The ladder of further modes, beside the mode that is composited at.

use wayland_display_core::geometry::Size;
use wayland_display_core::state::State;
use wayland_display_core::video::{
    BufferKind, BufferPlan, Colorimetry, MemoryKind, RenderTarget, VideoInfo,
};

fn info(width: i32, height: i32) -> VideoInfo {
    VideoInfo {
        format: 11,
        size: Size { w: width, h: height },
        fps_numer: 60,
        fps_denom: 1,
        colorimetry: Colorimetry { range: 1, matrix: 1, transfer: 1, primaries: 1 },
    }
}

fn apply_encode(state: &mut State, width: i32, height: i32) {
    let info = info(width, height);
    let plan = state.plan_video_info(false, info, RenderTarget::Software, MemoryKind::Raw);
    assert_eq!(plan, BufferPlan::Allocate(BufferKind::Raw));
    state.apply_video_info(info, 60_000, plan, true);
}

fn dims(state: &State) -> Vec<(i32, i32)> {
    state.output.as_ref().unwrap().modes.iter().map(|m| (m.size.w, m.size.h)).collect()
}

fn current(state: &State) -> (i32, i32) {
    let mode = state.output.as_ref().unwrap().current_mode.unwrap();
    (mode.size.w, mode.size.h)
}

#[test]
fn mode_ladder_is_advertised_on_wl_output() {
    let mut state = State::new();
    state.apply_mode_ladder(&vec![(2560, 1440), (1920, 1080), (1280, 720), (960, 540)]);
    apply_encode(&mut state, 1920, 1080);

    assert_eq!(dims(&state), vec![(1920, 1080), (1280, 720), (960, 540)]);
    assert_eq!(current(&state), (1920, 1080));
}

#[test]
fn mode_ladder_does_not_move_the_current_mode() {
    let mut state = State::new();
    state.apply_mode_ladder(&vec![(1280, 720), (960, 540)]);
    apply_encode(&mut state, 1920, 1080);

    assert_eq!(current(&state), (1920, 1080));
    let encoded = state.video_info.unwrap().size;
    assert_eq!((encoded.w, encoded.h), (1920, 1080));
}

#[test]
fn mode_ladder_after_caps_is_applied_and_is_idempotent() {
    let mut state = State::new();
    apply_encode(&mut state, 1920, 1080);

    assert!(state.apply_mode_ladder(&vec![(1280, 720), (960, 540)]));
    let after_first = dims(&state);
    assert!(after_first.contains(&(1280, 720)) && after_first.contains(&(960, 540)));

    assert!(!state.apply_mode_ladder(&vec![(1280, 720), (960, 540)]));
    assert_eq!(after_first, dims(&state), "a re-apply must not duplicate");
}

#[test]
fn clearing_the_ladder_retires_its_rungs() {
    let mut state = State::new();
    state.apply_mode_ladder(&vec![(1920, 1080), (1280, 720), (960, 540)]);
    apply_encode(&mut state, 1920, 1080);

    state.apply_mode_ladder(&vec![]);

    assert_eq!(dims(&state), vec![(1920, 1080)], "only the current mode should be left");
    assert_eq!(current(&state), (1920, 1080));
}

#[test]
fn superseded_render_sizes_do_not_accumulate_as_modes() {
    let mut state = State::new();
    apply_encode(&mut state, 1920, 1080);

    state.apply_render_size(Size { w: 1280, h: 1080 });
    state.apply_render_size(Size { w: 1920, h: 1080 });

    assert_eq!(dims(&state), vec![(1920, 1080)]);
}

#[test]
fn a_superseded_render_size_that_is_a_ladder_rung_is_kept() {
    let mut state = State::new();
    state.apply_mode_ladder(&vec![(1280, 720)]);
    apply_encode(&mut state, 1920, 1080);

    state.apply_render_size(Size { w: 1280, h: 720 });
    state.apply_render_size(Size { w: 1920, h: 1080 });

    let dims = dims(&state);
    assert!(dims.contains(&(1280, 720)), "got {dims:?}");
    assert!(dims.contains(&(1920, 1080)), "got {dims:?}");
    assert_eq!(dims.len(), 2, "and nothing else: {dims:?}");
}

#[test]
fn ladder_rungs_follow_the_encode_size_across_renegotiation() {
    let mut state = State::new();
    state.apply_mode_ladder(&vec![(1920, 1080), (1280, 720)]);
    apply_encode(&mut state, 1920, 1080);

    apply_encode(&mut state, 1280, 720);
    let dims = dims(&state);
    assert!(!dims.contains(&(1920, 1080)), "got {dims:?}");
    assert!(dims.contains(&(1280, 720)));
}

#[test]
fn a_rung_comes_back_when_the_encoded_frame_grows_again() {
    let mut state = State::new();
    state.apply_mode_ladder(&vec![(1920, 1080), (1280, 720)]);
    apply_encode(&mut state, 1280, 720);
    assert_eq!(dims(&state), vec![(1280, 720)]);

    apply_encode(&mut state, 3840, 2160);
    let dims = dims(&state);
    assert!(dims.contains(&(1920, 1080)) && dims.contains(&(1280, 720)));
    assert!(dims.contains(&(3840, 2160)));
    assert_eq!(dims.len(), 3);
}

#[test]
fn rungs_that_are_no_sizes_are_dropped() {
    let mut state = State::new();
    assert!(!state.apply_mode_ladder(&vec![(0, 720), (1280, 0), (-1, 5), (1280, 720)]));
    assert_eq!(state.mode_ladder, vec![Size { w: 1280, h: 720 }]);
}

#[test]
fn a_rung_named_twice_is_offered_once_at_the_rate_of_the_output() {
    let mut state = State::new();
    apply_encode(&mut state, 1920, 1080);
    state.apply_mode_ladder(&vec![(1280, 720), (1280, 720)]);

    assert_eq!(dims(&state), vec![(1920, 1080), (1280, 720)]);
    assert_eq!(state.advertised_ladder.len(), 1);
    assert!(state.output.as_ref().unwrap().modes.iter().all(|m| m.refresh == 60_000));
}
