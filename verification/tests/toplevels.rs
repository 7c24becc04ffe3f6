//! Windows from their creation to their mapping.

use wayland_display_core::commit::{Attached, CommitAction, CommitEffects, SurfaceCommit};
use wayland_display_core::formats::{ABGR2101010, NV12};
use wayland_display_core::geometry::Size;
use wayland_display_core::state::State;
use wayland_display_core::ui_scale::UiScale;
use wayland_display_core::video::{Colorimetry, MemoryKind, RenderTarget, VideoInfo};
use wayland_display_core::windows::{Announcement, Configure, SizeUpdate, Window};

fn info(width: i32, height: i32) -> VideoInfo {
    VideoInfo {
        format: 11,
        size: Size { w: width, h: height },
        fps_numer: 60,
        fps_denom: 1,
        colorimetry: Colorimetry { range: 1, matrix: 1, transfer: 1, primaries: 1 },
    }
}

fn apply_encode(state: &mut State, width: i32, height: i32) -> Vec<Configure> {
    let info = info(width, height);
    let plan = state.plan_video_info(false, info, RenderTarget::Software, MemoryKind::Raw);
    state.apply_video_info(info, 60_000, plan, true).first_configures
}

fn commit_of(surface: u64, initial_configure_sent: bool) -> SurfaceCommit {
    SurfaceCommit {
        surface,
        root: surface,
        attached: Attached::Other,
        initial_configure_sent,
        max_size: Size { w: 0, h: 0 },
        popup_configured: None,
    }
}

fn map_window(state: &mut State, surface: u64) {
    state.new_toplevel(surface);
    state.commit(commit_of(surface, false), false);
    assert_eq!(state.commit(commit_of(surface, true), false).action, CommitAction::MapWindow);
}

fn surfaces(windows: &Vec<Window>) -> Vec<u64> {
    windows.iter().map(|w| w.surface).collect()
}

#[test]
fn a_toplevel_committed_before_the_output_exists_survives_and_maps() {
    let mut state = State::new();
    assert!(state.output.is_none(), "precondition: no output yet");

    state.new_toplevel(1);
    let parked = state.commit(commit_of(1, false), false);
    assert_eq!(parked.action, CommitAction::Park);
    assert_eq!(state.pending_windows.len(), 1);
    assert_eq!(state.space.len(), 0);

    let woken = apply_encode(&mut state, 1920, 1080);
    assert_eq!(
        woken,
        vec![Configure {
            surface: 1,
            size: SizeUpdate::Change(Some(Size { w: 1920, h: 1080 })),
            fullscreen: true,
        }],
    );

    let mapped = state.commit(commit_of(1, true), false);
    assert_eq!(mapped.action, CommitAction::MapWindow);
    assert_eq!(state.space.len(), 1);
    assert!(state.pending_windows.is_empty());
}

#[test]
fn a_first_commit_is_answered_with_a_configure() {
    let mut state = State::new();
    apply_encode(&mut state, 1920, 1080);
    state.new_toplevel(1);
    let effects = state.commit(commit_of(1, false), false);
    assert_eq!(
        effects,
        CommitEffects {
            refresh: false,
            announcement: Some(Announcement {
                surface: 1,
                previous: None,
                sent: true,
                mapped: false,
            }),
            action: CommitAction::Configure(Configure {
                surface: 1,
                size: SizeUpdate::Change(Some(Size { w: 1920, h: 1080 })),
                fullscreen: true,
            }),
        },
    );
    assert!(state.pending_windows[0].initial_configure_sent);
    assert_eq!(state.pending_windows[0].preferred_scale, Some(UiScale::one()));
}

#[test]
fn a_window_with_a_largest_size_chooses_its_first_size() {
    let mut state = State::new();
    apply_encode(&mut state, 1920, 1080);
    state.new_toplevel(1);
    let bounded = SurfaceCommit { max_size: Size { w: 800, h: 600 }, ..commit_of(1, false) };
    assert_eq!(
        state.commit(bounded, false).action,
        CommitAction::Configure(Configure {
            surface: 1,
            size: SizeUpdate::Keep,
            fullscreen: false,
        }),
    );
    assert_eq!(state.pending_windows[0].max_size, Size { w: 800, h: 600 });
}

#[test]
fn windows_keep_their_order_as_they_are_configured_and_mapped() {
    let mut state = State::new();
    apply_encode(&mut state, 1920, 1080);
    for surface in [1, 2, 3] {
        state.new_toplevel(surface);
    }
    // The last one takes the place of the one that is taken out, which goes to the end.
    state.commit(commit_of(1, false), false);
    assert_eq!(surfaces(&state.pending_windows), vec![3, 2, 1]);
    state.commit(commit_of(3, true), false);
    assert_eq!(surfaces(&state.pending_windows), vec![1, 2]);
    assert_eq!(surfaces(&state.space), vec![3]);
    state.commit(commit_of(2, true), false);
    assert_eq!(surfaces(&state.space), vec![3, 2]);
}

#[test]
fn a_commit_of_a_mapped_window_refreshes_it() {
    let mut state = State::new();
    apply_encode(&mut state, 1920, 1080);
    map_window(&mut state, 1);
    let effects = state.commit(
        SurfaceCommit { max_size: Size { w: 9, h: 8 }, ..commit_of(1, true) },
        false,
    );
    assert!(effects.refresh);
    assert_eq!(effects.action, CommitAction::Nothing);
    assert_eq!(effects.announcement, None);
    assert_eq!(state.space[0].max_size, Size { w: 9, h: 8 });
}

#[test]
fn a_popup_is_configured_once() {
    let mut state = State::new();
    let popup = |sent| SurfaceCommit { popup_configured: Some(sent), ..commit_of(5, false) };
    assert_eq!(state.commit(popup(false), false).action, CommitAction::ConfigurePopup);
    assert_eq!(state.commit(popup(true), false).action, CommitAction::Nothing);
    assert_eq!(state.commit(commit_of(5, false), false).action, CommitAction::Nothing);
}

#[test]
fn only_buffers_in_the_tree_of_a_mapped_window_are_counted() {
    let mut state = State::new();
    state.new_toplevel(1);
    state.commit(commit_of(1, false), false);
    assert_eq!(state.app_surface_commits, 0, "a parked window does not count");
    apply_encode(&mut state, 1920, 1080);
    state.commit(SurfaceCommit { surface: 10, root: 1, ..commit_of(1, true) }, false);
    assert_eq!(state.app_surface_commits, 0, "nor does the tree of one that waits");
    assert_eq!(state.commit(commit_of(1, true), false).action, CommitAction::MapWindow);
    assert_eq!(state.app_surface_commits, 0, "it was not mapped before this commit");
    state.commit(commit_of(1, true), false);
    assert_eq!(state.app_surface_commits, 1);
    // A child surface of the window.
    state.commit(SurfaceCommit { surface: 10, root: 1, ..commit_of(1, true) }, false);
    assert_eq!(state.app_surface_commits, 2);
    // A cursor, and a commit without a buffer.
    state.commit(commit_of(20, true), false);
    state.commit(SurfaceCommit { attached: Attached::Nothing, ..commit_of(1, true) }, false);
    assert_eq!(state.app_surface_commits, 2);
    state.app_surface_commits = u64::MAX;
    state.commit(commit_of(1, true), false);
    assert_eq!(state.app_surface_commits, 0);
}

#[test]
fn a_buffer_that_is_no_dmabuf_ends_a_degradation() {
    let mut state = State::new();
    state.note_renderer_degraded(1);
    let dmabuf = SurfaceCommit {
        attached: Attached::Dmabuf { fourcc: NV12 },
        ..commit_of(1, false)
    };
    state.commit(dmabuf, false);
    assert_eq!(state.renderer_degraded_active, Some(1));
    state.commit(SurfaceCommit { attached: Attached::Nothing, ..dmabuf }, false);
    assert_eq!(state.renderer_degraded_active, Some(1));
    state.commit(commit_of(1, false), false);
    assert_eq!(state.renderer_degraded_active, None);
}

#[test]
fn content_is_pq_by_the_last_buffer_of_the_active_window() {
    let mut state = State::new();
    apply_encode(&mut state, 1920, 1080);
    map_window(&mut state, 1);
    map_window(&mut state, 2);
    let on = |surface, root, attached| SurfaceCommit {
        surface,
        root,
        attached,
        ..commit_of(surface, true)
    };
    let pq = Attached::Dmabuf { fourcc: ABGR2101010 };
    let sdr = Attached::Dmabuf { fourcc: NV12 };
    state.commit(on(1, 1, pq), false);
    assert!(!state.current_input_is_pq(), "there is no colour management");
    state.commit(on(2, 2, pq), true);
    assert!(!state.current_input_is_pq(), "the other window is not active");
    state.commit(on(1, 1, pq), true);
    assert!(state.current_input_is_pq());
    state.commit(on(1, 1, Attached::Nothing), true);
    assert!(state.current_input_is_pq(), "its last buffer is still that one");
    state.commit(on(2, 2, sdr), true);
    state.commit(on(77, 77, sdr), true);
    assert!(state.current_input_is_pq(), "others have no say");
    state.commit(on(10, 1, sdr), true);
    assert!(!state.current_input_is_pq(), "a surface of its tree has");
    state.commit(on(1, 1, pq), true);
    state.commit(on(1, 1, Attached::Other), true);
    assert!(!state.current_input_is_pq(), "shared memory is never PQ-encoded");

    // The next window brings its own content.
    state.commit(on(2, 2, pq), true);
    assert!(!state.current_input_is_pq());
    state.drop_dead_windows(&vec![1]);
    assert!(state.current_input_is_pq());
    state.drop_dead_windows(&vec![2]);
    assert!(!state.current_input_is_pq());
}

#[test]
fn the_first_window_brings_the_content_of_its_mapping_commit() {
    let mut state = State::new();
    apply_encode(&mut state, 1920, 1080);
    state.new_toplevel(1);
    let pq = Attached::Dmabuf { fourcc: ABGR2101010 };
    state.commit(SurfaceCommit { attached: Attached::Nothing, ..commit_of(1, false) }, true);
    assert!(!state.current_input_is_pq());
    let effects = state.commit(SurfaceCommit { attached: pq, ..commit_of(1, true) }, true);
    assert_eq!(effects.action, CommitAction::MapWindow);
    assert!(state.current_input_is_pq());
}

#[test]
fn dead_windows_leave_the_screen() {
    let mut state = State::new();
    apply_encode(&mut state, 1920, 1080);
    for surface in [1, 2, 3] {
        map_window(&mut state, surface);
    }
    state.new_toplevel(4);
    state.drop_dead_windows(&vec![2, 4]);
    assert_eq!(surfaces(&state.space), vec![1, 3]);
    assert_eq!(surfaces(&state.pending_windows), vec![4]);
}

#[test]
fn a_surface_that_asks_is_told_the_scale_in_force() {
    let mut state = State::new();
    state.new_toplevel(1);
    state.new_toplevel(2);
    state.apply_ui_scale(2.5f64.to_bits());
    state.new_toplevel(3);
    assert_eq!(f64::from_bits(state.new_fractional_scale(3).bits), 2.5);
    assert_eq!(f64::from_bits(state.new_fractional_scale(99).bits), 2.5);
    let told: Vec<f64> = state
        .pending_windows
        .iter()
        .map(|w| f64::from_bits(w.preferred_scale.unwrap().bits))
        .collect();
    assert_eq!(told, vec![2.5, 2.5, 2.5]);
}

#[test]
fn pending_refocus_re_emits_enter() {
    let mut state = State::new();
    state.pending_pointer_refocus = true;
    assert!(state.take_pointer_refocus(true, false), "a fresh enter is due");
    assert!(!state.pending_pointer_refocus, "and due once");
    assert!(!state.take_pointer_refocus(true, false));
}

#[test]
fn pending_refocus_retained_without_surface() {
    let mut state = State::new();
    state.pending_pointer_refocus = true;
    assert!(!state.take_pointer_refocus(false, false));
    assert!(state.pending_pointer_refocus);
}

#[test]
fn pending_refocus_retained_while_grabbed() {
    let mut state = State::new();
    state.pending_pointer_refocus = true;
    assert!(!state.take_pointer_refocus(true, true));
    assert!(state.pending_pointer_refocus);
    assert!(state.take_pointer_refocus(true, false));
    assert!(!state.pending_pointer_refocus);
}

#[test]
fn mapping_asks_for_an_enter_after_the_empty_motion() {
    let mut state = State::new();
    apply_encode(&mut state, 1920, 1080);
    map_window(&mut state, 1);
    // The empty motion right after mapping must not use it up.
    assert!(!state.take_pointer_refocus(true, false));
    state.window_mapped();
    assert!(state.take_pointer_refocus(true, false));
}
