//! The size applications draw at, apart from the size that is encoded.

use wayland_display_core::commit::{Attached, CommitAction, SurfaceCommit};
use wayland_display_core::geometry::Size;
use wayland_display_core::modes::{ModeEffects, PointerRemap, UiScaleStep, DEFAULT_REFRESH};
use wayland_display_core::output::Output;
use wayland_display_core::state::State;
use wayland_display_core::ui_scale::{UiScale, UI_SCALE_MAX, UI_SCALE_MIN};
use wayland_display_core::video::{
    BufferKind, BufferPlan, Colorimetry, MemoryKind, RenderTarget, VideoInfo,
};
use wayland_display_core::windows::SizeUpdate;

const SURFACE: u64 = 7;

fn info(width: i32, height: i32) -> VideoInfo {
    VideoInfo {
        format: 11,
        size: Size { w: width, h: height },
        fps_numer: 60,
        fps_denom: 1,
        colorimetry: Colorimetry { range: 1, matrix: 1, transfer: 1, primaries: 1 },
    }
}

/// A display whose output stands at 320x240 before anything is negotiated.
fn seeded() -> State {
    let mut state = State::new();
    state.output = Some(Output::new());
    state.apply_output_mode(Size { w: 320, h: 240 }, 60_000);
    state
}

fn apply_encode(state: &mut State, width: i32, height: i32) -> ModeEffects {
    let info = info(width, height);
    let plan = state.plan_video_info(false, info, RenderTarget::Software, MemoryKind::Raw);
    state.apply_video_info(info, 60_000, plan, true)
}

fn apply_render(state: &mut State, width: i32, height: i32) -> Option<ModeEffects> {
    state.apply_render_size(Size { w: width, h: height })
}

fn apply_scale(state: &mut State, scale: f64) -> UiScaleStep {
    state.apply_ui_scale(scale.to_bits())
}

fn moved(step: UiScaleStep) -> ModeEffects {
    match step {
        UiScaleStep::Moved(effects) => effects,
        other => panic!("expected a move, got {other:?}"),
    }
}

fn plain_commit(initial_configure_sent: bool) -> SurfaceCommit {
    SurfaceCommit {
        surface: SURFACE,
        root: SURFACE,
        attached: Attached::Other,
        initial_configure_sent,
        max_size: Size { w: 0, h: 0 },
        popup_configured: None,
    }
}

/// A window that has been configured, has answered, and is mapped.
fn create_window(state: &mut State) {
    state.new_toplevel(SURFACE);
    let first = state.commit(plain_commit(false), false);
    assert!(matches!(first.action, CommitAction::Configure(_)));
    let second = state.commit(plain_commit(true), false);
    assert_eq!(second.action, CommitAction::MapWindow);
    state.window_mapped();
}

fn mode_dimensions(state: &State) -> Option<(i32, i32)> {
    state.output.as_ref()?.current_mode.map(|m| (m.size.w, m.size.h))
}

fn encode_dimensions(state: &State) -> (i32, i32) {
    let size = state.video_info.unwrap().size;
    (size.w, size.h)
}

fn scale_of(scale: f64) -> UiScale {
    UiScale::clamp(scale.to_bits()).unwrap()
}

#[test]
fn render_size_changes_wl_output_mode_but_not_encode_size() {
    let mut state = seeded();
    create_window(&mut state);

    apply_encode(&mut state, 1920, 1080);
    assert_eq!(mode_dimensions(&state), Some((1920, 1080)));

    let effects = apply_render(&mut state, 1280, 720).unwrap();
    assert_eq!(mode_dimensions(&state), Some((1280, 720)));
    assert_eq!(effects.frame, Size { w: 1920, h: 1080 });
    assert_eq!(encode_dimensions(&state), (1920, 1080));
}

#[test]
fn render_size_survives_video_info_reapply() {
    let mut state = seeded();
    create_window(&mut state);

    apply_encode(&mut state, 1920, 1080);
    apply_render(&mut state, 1280, 720);
    apply_encode(&mut state, 1920, 1080);

    assert_eq!(mode_dimensions(&state), Some((1280, 720)));
    assert_eq!(encode_dimensions(&state), (1920, 1080));
}

#[test]
fn render_size_larger_than_encode_is_clamped() {
    let mut state = seeded();
    create_window(&mut state);

    apply_encode(&mut state, 1280, 720);
    apply_render(&mut state, 1920, 1080);

    assert_eq!(mode_dimensions(&state), Some((1280, 720)));
}

#[test]
fn zero_render_size_returns_to_following_the_encode_size() {
    let mut state = seeded();
    create_window(&mut state);

    apply_encode(&mut state, 1920, 1080);
    apply_render(&mut state, 1280, 720);
    assert_eq!(mode_dimensions(&state), Some((1280, 720)));

    apply_render(&mut state, 0, 0);
    assert_eq!(mode_dimensions(&state), Some((1920, 1080)));
    assert!(state.render_size.is_none());
}

#[test]
fn render_size_before_video_info_is_applied_on_negotiation() {
    let mut state = seeded();
    create_window(&mut state);

    apply_render(&mut state, 1280, 720);
    apply_encode(&mut state, 1920, 1080);

    assert_eq!(mode_dimensions(&state), Some((1280, 720)));
}

#[test]
fn ui_scale_is_sent_as_preferred_scale_to_mapped_toplevel() {
    let mut state = seeded();
    state.new_toplevel(SURFACE);
    assert_eq!(state.new_fractional_scale(SURFACE), scale_of(1.0));
    state.commit(plain_commit(false), false);
    state.commit(plain_commit(true), false);
    apply_encode(&mut state, 1920, 1080);
    assert_eq!(state.space[0].preferred_scale, Some(scale_of(1.0)));
    assert_eq!(mode_dimensions(&state), Some((1920, 1080)));

    let effects = moved(apply_scale(&mut state, 2.0));

    assert_eq!(state.space[0].preferred_scale, Some(scale_of(2.0)));
    assert_eq!(effects.announcements.len(), 1);
    assert!(effects.announcements[0].sent && effects.announcements[0].mapped);
    assert_eq!(effects.announcements[0].previous, Some(scale_of(1.0)));
    // The mode does not move, the output announces the scale, and the window is configured at
    // the mode divided by it.
    assert_eq!(mode_dimensions(&state), Some((1920, 1080)));
    assert_eq!(effects.scale, Some(scale_of(2.0)));
    assert_eq!(effects.configures.len(), 1);
    assert_eq!(effects.configures[0].size, SizeUpdate::Change(Some(Size { w: 960, h: 540 })));
    assert!(effects.configures[0].fullscreen);
    assert_eq!(encode_dimensions(&state), (1920, 1080));
}

#[test]
fn ui_scale_shrinks_logical_mode_and_keeps_scene_full_frame() {
    let mut state = seeded();

    apply_encode(&mut state, 1920, 1080);
    apply_render(&mut state, 1280, 720);
    let effects = moved(apply_scale(&mut state, 2.0));

    assert_eq!(mode_dimensions(&state), Some((1280, 720)));
    assert_eq!(effects.scale, Some(scale_of(2.0)));
    assert_eq!(effects.frame, Size { w: 1920, h: 1080 });

    state.new_toplevel(SURFACE);
    let first = state.commit(plain_commit(false), false);
    match first.action {
        CommitAction::Configure(configure) => {
            assert_eq!(configure.size, SizeUpdate::Change(Some(Size { w: 640, h: 360 })));
            assert!(configure.fullscreen);
        }
        other => panic!("expected a configure, got {other:?}"),
    }
}

#[test]
fn cold_start_first_mode_set_is_safe_without_a_previous_mode() {
    let mut state = State::new();
    assert!(state.output.is_none(), "precondition: no output yet");
    assert!(state.video_info.is_none());

    let effects = apply_encode(&mut state, 1920, 1080);
    match effects.pointer {
        PointerRemap::Centre(extent) => {
            assert_eq!((extent.w as f64 / 2.0, extent.h as f64 / 2.0), (960.0, 540.0));
        }
        other => panic!("with no previous extent the pointer centres, got {other:?}"),
    }
    assert_eq!(mode_dimensions(&state), Some((1920, 1080)));

    let effects = apply_render(&mut state, 1280, 720).unwrap();
    assert_eq!(
        effects.pointer,
        PointerRemap::Proportional {
            old: Size { w: 1920, h: 1080 },
            new: Size { w: 1280, h: 720 },
        },
    );
}

#[test]
fn cold_start_ui_scale_before_any_video_info() {
    let mut state = State::new();

    assert!(matches!(apply_scale(&mut state, 2.0), UiScaleStep::Stored(_)));
    assert!(state.output.is_none(), "still no output to configure");

    let effects = apply_encode(&mut state, 1920, 1080);

    assert_eq!(effects.scale, Some(scale_of(2.0)));
    assert_eq!(effects.pointer, PointerRemap::Centre(Size { w: 960, h: 540 }));
}

#[test]
fn a_redundant_render_size_apply_is_a_no_op() {
    let mut state = seeded();
    create_window(&mut state);
    apply_encode(&mut state, 1920, 1080);
    apply_render(&mut state, 1280, 720);

    assert!(apply_render(&mut state, 1280, 720).is_none());

    // ... but a real change still does something.
    let effects = apply_render(&mut state, 960, 540).unwrap();
    assert_eq!(effects.configures.len(), 1);
    assert_eq!(mode_dimensions(&state), Some((960, 540)));
}

#[test]
fn a_redundant_ui_scale_apply_is_a_no_op() {
    let mut state = seeded();
    create_window(&mut state);
    apply_encode(&mut state, 1920, 1080);
    apply_scale(&mut state, 2.0);

    assert!(matches!(apply_scale(&mut state, 2.0), UiScaleStep::Unchanged));

    // ... but a real change still does something.
    assert_eq!(moved(apply_scale(&mut state, 1.5)).configures.len(), 1);
}

#[test]
fn mode_change_remaps_the_pointer_instead_of_recentring_it() {
    let mut state = seeded();
    apply_encode(&mut state, 1920, 1080);

    // A quarter across, three quarters down.
    let (x, y) = (480.0, 810.0);
    let effects = moved(apply_scale(&mut state, 2.0));
    match effects.pointer {
        PointerRemap::Proportional { old, new } => {
            let x: f64 = x * new.w as f64 / old.w as f64;
            let y: f64 = y * new.h as f64 / old.h as f64;
            assert!((x - 240.0).abs() < 1.0 && (y - 405.0).abs() < 1.0);
            assert_ne!((x, y), (480.0, 270.0));
        }
        other => panic!("the pointer must not be centred, got {other:?}"),
    }
}

#[test]
fn ui_scale_reaches_a_toplevel_still_pending_its_initial_configure() {
    let mut state = seeded();
    state.new_toplevel(SURFACE);
    assert_eq!(state.new_fractional_scale(SURFACE), scale_of(1.0));
    state.commit(plain_commit(false), false);
    assert_eq!(state.pending_windows[0].preferred_scale, Some(scale_of(1.0)));
    assert!(state.space.is_empty(), "precondition: the window is not mapped yet");

    let effects = moved(apply_scale(&mut state, 2.0));
    assert!(effects.announcements[0].sent && !effects.announcements[0].mapped);

    // Being mapped must not lose it either.
    state.commit(plain_commit(true), false);
    assert_eq!(state.space[0].preferred_scale, Some(scale_of(2.0)));
}

#[test]
fn ui_scale_out_of_range_is_clamped() {
    let mut state = seeded();

    apply_scale(&mut state, 7.5);
    assert_eq!(f64::from_bits(state.ui_scale.bits), 3.0);

    apply_scale(&mut state, 0.2);
    assert_eq!(f64::from_bits(state.ui_scale.bits), 1.0);
}

#[test]
fn render_size_change_triggers_a_configure() {
    let mut state = seeded();
    create_window(&mut state);
    apply_encode(&mut state, 1920, 1080);

    let effects = apply_render(&mut state, 1280, 720).unwrap();
    assert_eq!(effects.configures.len(), 1);
    assert_eq!(effects.configures[0].surface, SURFACE);
    assert_eq!(effects.configures[0].size, SizeUpdate::Change(Some(Size { w: 1280, h: 720 })));
}

#[test]
fn a_scale_that_is_no_number_is_ignored() {
    let mut state = seeded();
    apply_scale(&mut state, 2.0);
    for scale in [f64::NAN, f64::INFINITY, f64::NEG_INFINITY] {
        assert!(matches!(apply_scale(&mut state, scale), UiScaleStep::Ignored));
        assert_eq!(f64::from_bits(state.ui_scale.bits), 2.0);
    }
}

#[test]
fn clamping_a_scale_agrees_with_binary64() {
    let samples = [
        -2.0,
        -0.0,
        0.0,
        5e-324,
        0.999_999_999_999_999_9,
        1.0,
        1.000_000_000_000_000_2,
        1.25,
        2.999_999_999_999_999_6,
        3.0,
        3.000_000_000_000_000_4,
        1e300,
    ];
    for scale in samples {
        let clamped = UiScale::clamp(f64::to_bits(scale)).unwrap();
        assert_eq!(f64::from_bits(clamped.bits), scale.clamp(1.0, 3.0));
    }
    assert_eq!(f64::from_bits(UI_SCALE_MIN), 1.0);
    assert_eq!(f64::from_bits(UI_SCALE_MAX), 3.0);
    assert_eq!(UiScale::one().bits, UI_SCALE_MIN);
}

#[test]
fn back_to_a_scale_of_one_is_announced_too() {
    let mut state = seeded();
    apply_encode(&mut state, 1920, 1080);
    apply_scale(&mut state, 2.0);
    let effects = moved(apply_scale(&mut state, 1.0));
    assert_eq!(effects.scale, Some(scale_of(1.0)));
    assert_eq!(
        effects.pointer,
        PointerRemap::Proportional { old: Size { w: 960, h: 540 }, new: Size { w: 1920, h: 1080 } },
    );
}

#[test]
fn a_mode_change_alone_does_not_announce_the_scale_again() {
    let mut state = seeded();
    apply_encode(&mut state, 1920, 1080);
    let effects = apply_render(&mut state, 960, 540).unwrap();
    assert_eq!(effects.scale, None);
}

#[test]
fn a_window_with_a_largest_size_is_configured_within_it() {
    let mut state = seeded();
    create_window(&mut state);
    state.space[0].max_size = Size { w: 800, h: 2000 };
    let effects = apply_encode(&mut state, 1920, 1080);
    assert_eq!(effects.configures[0].size, SizeUpdate::Change(Some(Size { w: 800, h: 1080 })));

    // A largest size on one axis alone leaves nothing in common.
    state.space[0].max_size = Size { w: 800, h: 0 };
    let effects = apply_encode(&mut state, 1280, 720);
    assert_eq!(effects.configures[0].size, SizeUpdate::Change(None));
}

#[test]
fn the_refresh_rate_is_kept_or_assumed() {
    let mut state = State::new();
    state.output = Some(Output::new());
    let effects = apply_render(&mut state, 1280, 720).unwrap();
    assert_eq!(effects.mode.refresh, DEFAULT_REFRESH);
    assert_eq!(DEFAULT_REFRESH, 60_000);

    let info = info(1920, 1080);
    let plan = state.plan_video_info(false, info, RenderTarget::Software, MemoryKind::Raw);
    state.apply_video_info(info, 120_000, plan, true);
    let effects = apply_render(&mut state, 960, 540).unwrap();
    assert_eq!(effects.mode.refresh, 120_000);
}

#[test]
fn without_anything_requested_or_encoded_there_is_no_size() {
    let mut state = State::new();
    assert_eq!(state.effective_render_size(), Size { w: 0, h: 0 });
    apply_render(&mut state, 640, 480);
    assert_eq!(state.effective_render_size(), Size { w: 640, h: 480 });
    assert!(state.apply_output_mode(Size { w: 640, h: 480 }, 60_000).is_none());
}

#[test]
fn a_vulkan_buffer_that_never_came_leaves_the_buffer_as_it_was() {
    let mut state = State::new();
    let info = info(1920, 1080);
    let plan = state.plan_video_info(false, info, RenderTarget::Hardware, MemoryKind::Vulkan);
    assert_eq!(plan, BufferPlan::Allocate(BufferKind::Vulkan));
    state.apply_video_info(info, 60_000, plan, false);
    assert_eq!(state.output_buffer, None);
    assert_eq!(state.video_info, Some(info));
    assert_eq!(mode_dimensions(&state), Some((1920, 1080)));

    state.apply_video_info(info, 60_000, plan, true);
    assert_eq!(state.output_buffer, Some(BufferKind::Vulkan));
}

#[test]
fn only_a_change_of_colours_keeps_the_buffer_and_only_with_colour_management() {
    let mut state = State::new();
    let sdr = info(1920, 1080);
    let hdr = VideoInfo {
        colorimetry: Colorimetry { range: 2, matrix: 6, transfer: 14, primaries: 7 },
        ..sdr
    };
    let nv12 = MemoryKind::Dma { fourcc: Some(u32::from_le_bytes(*b"NV12")) };
    let plan = state.plan_video_info(true, sdr, RenderTarget::Hardware, nv12);
    assert!(matches!(plan, BufferPlan::Allocate(BufferKind::Converted(_))));
    state.apply_video_info(sdr, 60_000, plan, true);
    let buffer = state.output_buffer;

    assert_eq!(
        state.plan_video_info(true, hdr, RenderTarget::Hardware, nv12),
        BufferPlan::Keep,
    );
    assert_ne!(
        state.plan_video_info(false, hdr, RenderTarget::Hardware, nv12),
        BufferPlan::Keep,
    );
    assert_ne!(
        state.plan_video_info(true, sdr, RenderTarget::Hardware, nv12),
        BufferPlan::Keep,
    );
    let wider = VideoInfo { size: Size { w: 2560, h: 1080 }, ..hdr };
    assert_ne!(
        state.plan_video_info(true, wider, RenderTarget::Hardware, nv12),
        BufferPlan::Keep,
    );
    state.apply_video_info(hdr, 60_000, BufferPlan::Keep, false);
    assert_eq!(state.output_buffer, buffer);
    assert_eq!(state.video_info, Some(hdr));
}

#[test]
fn a_second_negotiation_repeats_nothing() {
    let mut state = State::new();
    state.new_toplevel(SURFACE);
    state.new_toplevel(SURFACE + 1);
    let first = apply_encode(&mut state, 1920, 1080);
    assert_eq!(first.first_configures.len(), 2);
    assert!(first.announcements.iter().all(|note| note.sent));

    let second = apply_encode(&mut state, 1280, 720);
    assert!(second.first_configures.is_empty());
    assert!(second.announcements.iter().all(|note| !note.sent));
    assert_eq!(second.scale, None);
}

#[test]
fn a_change_of_extent_there_and_back_puts_the_pointer_back() {
    let mut state = State::new();
    apply_encode(&mut state, 1920, 1080);
    let there = apply_render(&mut state, 1280, 720).unwrap().pointer;
    let back = apply_render(&mut state, 1920, 1080).unwrap().pointer;
    let step = |remap, x: f64| match remap {
        PointerRemap::Proportional { old, new } => x * new.w as f64 / old.w as f64,
        PointerRemap::Centre(extent) => extent.w as f64 / 2.0,
    };
    assert_eq!(step(there, 480.0), 320.0);
    assert_eq!(step(back, step(there, 480.0)), 480.0);
}
