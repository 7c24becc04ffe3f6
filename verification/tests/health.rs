//! Reports of client buffers that cannot be imported.

use wayland_display_core::health::{
    debug_fail_dmabuf_import, ImportOutcome, ImportReply, REPORT_PERIOD,
};
use wayland_display_core::state::State;

const S: u64 = 1_000_000_000;

#[test]
fn a_single_failure_is_reported_at_once_and_then_every_period() {
    let mut state = State::new();
    assert_eq!(REPORT_PERIOD, 5 * S);
    assert!(!state.tick_renderer_degraded(S));
    assert!(state.note_renderer_degraded(10 * S));
    assert_eq!(state.renderer_degraded, 1);
    assert!(!state.tick_renderer_degraded(15 * S - 1));
    assert!(state.tick_renderer_degraded(15 * S));
    assert!(!state.tick_renderer_degraded(16 * S));
    assert!(state.tick_renderer_degraded(20 * S));
    assert_eq!(state.renderer_degraded, 3);
}

#[test]
fn a_client_that_fails_every_frame_neither_floods_nor_holds_off_the_reports() {
    let mut state = State::new();
    let mut reports = 0;
    for frame in 0..1_000u64 {
        let now = frame * S / 60;
        if state.note_renderer_degraded(now) {
            reports += 1;
        }
        if state.tick_renderer_degraded(now) {
            reports += 1;
        }
    }
    // At 0, 5, 10 and 15 seconds of nearly 17.
    assert_eq!(reports, 4);
    assert_eq!(state.renderer_degraded, 4);
}

#[test]
fn a_handled_buffer_ends_the_condition() {
    let mut state = State::new();
    state.note_renderer_degraded(S);
    state.clear_renderer_degraded();
    assert_eq!(state.renderer_degraded_active, None);
    assert!(!state.tick_renderer_degraded(100 * S));
    assert!(state.note_renderer_degraded(101 * S));
    assert_eq!(state.renderer_degraded, 2);
}

#[test]
fn imports_are_answered_and_noted() {
    let mut state = State::new();
    assert_eq!(
        state.dmabuf_imported(ImportOutcome::Failed, S),
        ImportReply { accepted: false, report: true },
    );
    assert_eq!(
        state.dmabuf_imported(ImportOutcome::Injected, 2 * S),
        ImportReply { accepted: false, report: false },
    );
    assert_eq!(state.renderer_degraded_active, Some(S));
    assert_eq!(
        state.dmabuf_imported(ImportOutcome::Imported, 3 * S),
        ImportReply { accepted: true, report: false },
    );
    assert_eq!(state.renderer_degraded_active, None);
    assert_eq!(state.renderer_degraded, 1);
}

#[test]
fn the_count_starts_again_beyond_the_largest() {
    let mut state = State::new();
    state.renderer_degraded = u64::MAX;
    assert!(state.note_renderer_degraded(S));
    assert_eq!(state.renderer_degraded, 0);
}

#[test]
fn failures_are_injected_by_two_settings_only() {
    for setting in ["1", "true"] {
        assert!(debug_fail_dmabuf_import(Some(setting)));
    }
    for setting in ["", "0", "2", "11", "True", "tru", "truee", "fals", "yes", "trué"] {
        assert!(!debug_fail_dmabuf_import(Some(setting)), "{setting}");
    }
    assert!(!debug_fail_dmabuf_import(None));
}
