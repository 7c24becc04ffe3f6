//! Commands, frames, and what a display starts and ends with.

use wayland_display_core::blockers::{after_attempt, first_fence, Attempt, BlockerStep, Fence};
use wayland_display_core::geometry::{Point, Size};
use wayland_display_core::pointer::constraint_takes_effect;
use wayland_display_core::session::{
    event_time, Command, FrameEnd, FrameStart, Presentation, Reaction,
};
use wayland_display_core::startup::{
    dmabuf_global, explicit_sync, plan_globals, release_seat, DmabufGlobal, ExplicitSync, Globals,
    SeatStep,
};
use wayland_display_core::state::State;
use wayland_display_core::video::{
    BufferKind, BufferPlan, Colorimetry, RenderTarget, VideoInfo,
};
use wayland_display_core::windows::Window;

const MS: u64 = 1_000_000;
const PERIOD: u64 = 16_666_667;

fn negotiated(kind: BufferKind) -> State {
    let mut state = State::new();
    let info = VideoInfo {
        format: 11,
        size: Size { w: 1920, h: 1080 },
        fps_numer: 60,
        fps_denom: 1,
        colorimetry: Colorimetry { range: 1, matrix: 1, transfer: 1, primaries: 1 },
    };
    state.apply_video_info(info, 60_000, BufferPlan::Allocate(kind), true);
    state
}

#[test]
fn a_display_starts_with_nothing() {
    let state = State::new();
    assert!(!state.should_quit);
    assert!(state.output.is_none() && state.video_info.is_none() && state.output_buffer.is_none());
    assert_eq!(f64::from_bits(state.ui_scale.bits), 1.0);
    assert_eq!((state.renderer_degraded, state.app_surface_commits), (0, 0));
    assert!(!state.hdr_signalled && !state.last_hdr_state && !state.current_input_is_pq());
}

#[test]
fn commands_reach_what_they_are_about() {
    let mut state = negotiated(BufferKind::Raw);
    assert!(matches!(state.dispatch(Command::VideoInfo, 0, PERIOD), Reaction::Negotiate));
    let size = Command::RenderSize { width: 1280, height: 720 };
    assert!(matches!(state.dispatch(size, 0, PERIOD), Reaction::Moved(_)));
    assert_eq!(state.effective_render_size(), Size { w: 1280, h: 720 });
    let size = Command::RenderSize { width: 1280, height: 720 };
    assert!(matches!(state.dispatch(size, 0, PERIOD), Reaction::Nothing));
    let ladder = Command::ModeLadder(vec![(640, 480)]);
    assert!(matches!(state.dispatch(ladder, 0, PERIOD), Reaction::Nothing));
    assert_eq!(state.mode_ladder, vec![Size { w: 640, h: 480 }]);
    let scale = |s: f64| Command::UiScale { bits: s.to_bits() };
    assert!(matches!(state.dispatch(scale(2.0), 0, PERIOD), Reaction::Moved(_)));
    assert!(matches!(state.dispatch(scale(2.0), 0, PERIOD), Reaction::Nothing));
    assert!(matches!(state.dispatch(scale(f64::NAN), 0, PERIOD), Reaction::Nothing));
    assert!(matches!(
        State::new().dispatch(scale(2.0), 0, PERIOD),
        Reaction::Announced(_),
    ));
    assert!(matches!(
        state.dispatch(Command::InputDevice, 0, PERIOD),
        Reaction::AddInputDevice,
    ));
    assert!(matches!(
        state.dispatch(Command::GetSupportedDmaFormats, 0, PERIOD),
        Reaction::ReplyFormats,
    ));
    assert!(matches!(
        state.dispatch(Command::GetRenderDevice, 0, PERIOD),
        Reaction::ReplyRenderDevice,
    ));
    assert!(matches!(
        state.dispatch(Command::Input, 12_345 * MS, PERIOD),
        Reaction::Forward { time: 12_345 },
    ));
    assert!(matches!(state.dispatch(Command::HdrState, 0, PERIOD), Reaction::Nothing));
    assert!(!state.should_quit);
    assert!(matches!(state.dispatch(Command::Quit, 0, PERIOD), Reaction::Nothing));
    assert!(state.should_quit);
    let mut state = State::new();
    state.dispatch(Command::Closed, 0, PERIOD);
    assert!(state.should_quit);
}

#[test]
fn a_new_pool_is_for_cuda_buffers_alone() {
    let command = || Command::UpdateCudaBufferPool;
    assert!(matches!(
        negotiated(BufferKind::Cuda).dispatch(command(), 0, PERIOD),
        Reaction::ReplacePool,
    ));
    assert!(matches!(
        negotiated(BufferKind::Dma).dispatch(command(), 0, PERIOD),
        Reaction::Nothing,
    ));
    assert!(matches!(State::new().dispatch(command(), 0, PERIOD), Reaction::Nothing));
}

#[test]
fn frames_are_a_period_apart() {
    let mut state = negotiated(BufferKind::Raw);
    assert!(matches!(state.dispatch(Command::Buffer, 5, PERIOD), Reaction::Draw));
    state.end_frame(100 * MS, FrameEnd::Drawn { sent: true });
    assert!(matches!(
        state.dispatch(Command::Buffer, 110 * MS, PERIOD),
        Reaction::DrawAfter { wait: 6_666_667 },
    ));
    assert!(matches!(
        state.dispatch(Command::Buffer, 100 * MS + PERIOD, PERIOD),
        Reaction::Draw,
    ));
    assert_eq!(state.frame_wait(90 * MS, PERIOD), Some(PERIOD));
}

#[test]
fn a_frame_without_a_buffer_ends_the_session() {
    let mut state = State::new();
    state.wire_hdr_signal(true);
    state.space.push(Window::new(1));
    state.note_renderer_degraded(0);
    state.begin_frame(0, Some(true));
    let start = state.begin_frame(6_000 * MS, Some(true));
    assert_eq!(start, FrameStart { hdr: Some(true), degraded: true, draw: false });
    assert!(state.should_quit);

    let mut state = State::new();
    state.wire_hdr_signal(true);
    state.begin_frame(0, Some(true));
    let start = state.begin_frame(6_000 * MS, Some(true));
    assert_eq!(start, FrameStart { hdr: None, degraded: false, draw: false });

    let mut state = negotiated(BufferKind::Raw);
    let start = state.begin_frame(0, None);
    assert_eq!(start, FrameStart { hdr: None, degraded: false, draw: true });
    assert!(!state.should_quit);
}

#[test]
fn a_consumer_that_is_gone_ends_the_session() {
    let mut state = negotiated(BufferKind::Raw);
    state.end_frame(1, FrameEnd::Failed { sent: true });
    assert!(!state.should_quit);
    assert_eq!(state.last_render, None, "a failed frame does not count");
    state.end_frame(2, FrameEnd::Drawn { sent: true });
    assert_eq!(state.last_render, Some(2));
    assert!(!state.should_quit);
    state.end_frame(3, FrameEnd::Drawn { sent: false });
    assert_eq!(state.last_render, Some(3));
    assert!(state.should_quit);

    let mut state = negotiated(BufferKind::Raw);
    state.end_frame(1, FrameEnd::Failed { sent: false });
    assert!(state.should_quit);
    let mut state = State::new();
    state.timer_failed();
    assert!(state.should_quit);
}

#[test]
fn clients_are_told_of_frames_that_changed_something() {
    let state = negotiated(BufferKind::Raw);
    assert_eq!(state.presentation(true), Presentation::Shown { refresh: Some(60_000) });
    assert_eq!(state.presentation(false), Presentation::Nothing);
    assert_eq!(State::new().presentation(true), Presentation::Nothing);
}

#[test]
fn event_times_start_again() {
    assert_eq!(event_time(1_999_999), 1);
    assert_eq!(event_time(u32::MAX as u64 * MS), u32::MAX);
    assert_eq!(event_time((u32::MAX as u64 + 3) * MS), 2);
}

#[test]
fn protocols_are_offered_where_they_make_sense() {
    assert_eq!(
        plan_globals(RenderTarget::Hardware, true),
        Globals {
            color_manager: true,
            frog_color_manager: true,
            dmabuf: true,
            explicit_sync: true,
        },
    );
    assert_eq!(
        plan_globals(RenderTarget::Software, false),
        Globals {
            color_manager: false,
            frog_color_manager: false,
            dmabuf: false,
            explicit_sync: false,
        },
    );
    assert_eq!(dmabuf_global(true), DmabufGlobal::WithFeedback);
    assert_eq!(dmabuf_global(false), DmabufGlobal::FormatsOnly);
}

#[test]
fn explicit_sync_needs_a_device_that_can() {
    let on = RenderTarget::Hardware;
    assert_eq!(explicit_sync(on, true, true, true), ExplicitSync::Enabled);
    assert_eq!(explicit_sync(on, true, true, false), ExplicitSync::Unsupported);
    assert_eq!(explicit_sync(on, true, false, true), ExplicitSync::NotOpened);
    assert_eq!(explicit_sync(on, false, true, true), ExplicitSync::NoPath);
    assert_eq!(
        explicit_sync(RenderTarget::Software, true, true, true),
        ExplicitSync::Software,
    );
}

#[test]
fn a_grab_is_unset_before_the_keyboard_goes() {
    assert_eq!(release_seat(None), vec![]);
    assert_eq!(release_seat(Some(false)), vec![SeatStep::ClearFocus, SeatStep::RemoveKeyboard]);
    assert_eq!(
        release_seat(Some(true)),
        vec![SeatStep::UnsetGrab, SeatStep::ClearFocus, SeatStep::RemoveKeyboard],
    );
}

#[test]
fn commits_wait_for_the_named_point_or_for_the_buffer() {
    let good = Attempt { generated: true, client: true, registered: true };
    assert_eq!(first_fence(false, true), BlockerStep::PassThrough);
    assert_eq!(first_fence(true, true), BlockerStep::Try(Fence::Explicit));
    assert_eq!(first_fence(true, false), BlockerStep::Try(Fence::Implicit));
    assert_eq!(after_attempt(Fence::Explicit, good), BlockerStep::Block);
    assert_eq!(after_attempt(Fence::Implicit, good), BlockerStep::Block);
    for bad in [
        Attempt { generated: false, ..good },
        Attempt { client: false, ..good },
        Attempt { registered: false, ..good },
    ] {
        assert_eq!(after_attempt(Fence::Explicit, bad), BlockerStep::Try(Fence::Implicit));
        assert_eq!(after_attempt(Fence::Implicit, bad), BlockerStep::PassThrough);
    }
}

#[test]
fn pointer_constraints_follow_the_focus_and_hints_the_window() {
    assert!(constraint_takes_effect(Some(3), 3));
    assert!(!constraint_takes_effect(Some(4), 3));
    assert!(!constraint_takes_effect(None, 3));

    let mut state = State::new();
    state.space.push(Window::new(3));
    let corner = Point { x: 10, y: 20 };
    assert_eq!(state.cursor_hint_origin(3, true, corner), Some(corner));
    assert_eq!(state.cursor_hint_origin(4, true, corner), Some(Point { x: 0, y: 0 }));
    assert_eq!(state.cursor_hint_origin(3, false, corner), None);
}
