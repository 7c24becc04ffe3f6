//! HDR metadata, and when a change of the output is signalled.

use wayland_display_core::hdr::{
    ChromaticityCoordinate, ContentLightLevel, DisplayPrimary, Eotf, HdrMetadata, HdrState,
    MasteringDisplayInfo,
};
use wayland_display_core::hdr_switch::{hdr_change, HDR_DEBOUNCE};
use wayland_display_core::state::State;
use wayland_display_core::windows::Window;

const MS: u64 = 1_000_000;

fn signalled() -> State {
    let mut state = State::new();
    state.space.push(Window::new(1));
    state.wire_hdr_signal(true);
    state
}

#[test]
fn an_output_is_sdr_until_it_is_told_otherwise() {
    let mut hdr = HdrState::new();
    assert!(!hdr.supports_hdr());
    assert_eq!(hdr.max_luminance, 100);
    assert_eq!(hdr.min_luminance, 0);
    assert_eq!(hdr.supported_eotfs.len(), 2);
    assert!(hdr.metadata.is_none());

    hdr.supported_eotfs.push(Eotf::Hlg);
    assert!(hdr.supports_hdr());
    let only_pq = HdrState { supported_eotfs: vec![Eotf::St2084], ..HdrState::default() };
    assert!(only_pq.supports_hdr());
    let nothing = HdrState { supported_eotfs: vec![], ..HdrState::default() };
    assert!(!nothing.supports_hdr());
}

#[test]
fn metadata_is_replaced_and_changes_nothing_else() {
    let mut hdr = HdrState::new();
    let primary = |x, y| DisplayPrimary { x, y };
    hdr.set_metadata(HdrMetadata {
        eotf: Eotf::St2084,
        mastering_display_info: Some(MasteringDisplayInfo {
            display_primaries: [primary(1, 2), primary(3, 4), primary(5, 6)],
            white_point: ChromaticityCoordinate { x: 7, y: 8 },
            max_display_mastering_luminance: 1000,
            min_display_mastering_luminance: 1,
        }),
        content_light_level: Some(ContentLightLevel {
            max_content_light_level: 800,
            max_frame_average_light_level: 200,
        }),
    });
    assert!(!hdr.supports_hdr(), "metadata does not make an output HDR");
    let metadata = hdr.metadata.as_ref().unwrap();
    assert!(matches!(metadata.eotf, Eotf::St2084));
    assert_eq!(metadata.content_light_level.as_ref().unwrap().max_content_light_level, 800);
}

#[test]
fn content_or_the_active_surface_makes_the_output_hdr() {
    let mut state = State::new();
    state.space.push(Window::new(1));
    assert!(!state.output_hdr_state(None));
    assert!(!state.output_hdr_state(Some(false)));
    assert!(state.output_hdr_state(Some(true)));
    state.space[0].content_is_pq = true;
    assert!(state.current_input_is_pq());
    assert!(state.output_hdr_state(None));
    assert!(state.output_hdr_state(Some(false)));
}

#[test]
fn without_a_window_the_output_is_sdr() {
    let mut state = signalled();
    state.space[0].content_is_pq = true;
    assert_eq!(state.update_hdr_state(0, Some(true)), None);
    assert_eq!(state.update_hdr_state(600 * MS, Some(true)), Some(true));
    state.drop_dead_windows(&vec![1]);
    assert!(!state.current_input_is_pq());
    for declared in [None, Some(false), Some(true)] {
        assert!(!state.output_hdr_state(declared));
    }
    assert_eq!(state.update_hdr_state(1_000 * MS, Some(true)), None);
    assert_eq!(state.update_hdr_state(1_600 * MS, Some(true)), Some(false));
    // A window that waits is not on the screen.
    state.pending_windows.push(Window { content_is_pq: true, ..Window::new(2) });
    assert!(!state.output_hdr_state(Some(true)));
}

#[test]
fn the_active_surface_is_the_first_that_is_mapped() {
    let mut state = State::new();
    assert_eq!(state.active_surface(), None);
    state.space.push(Window::new(4));
    state.space.push(Window::new(9));
    assert_eq!(state.active_surface(), Some(4));
}

#[test]
fn a_change_is_signalled_once_it_has_held() {
    let mut state = signalled();
    assert_eq!(HDR_DEBOUNCE, 600 * MS);
    assert_eq!(state.update_hdr_state(1_000 * MS, Some(true)), None);
    assert_eq!(state.update_hdr_state(1_599 * MS, Some(true)), None);
    assert_eq!(state.update_hdr_state(1_600 * MS, Some(true)), Some(true));
    assert_eq!(state.update_hdr_state(1_601 * MS, Some(true)), None);
    assert!(state.last_hdr_state);

    assert_eq!(state.update_hdr_state(2_000 * MS, None), None);
    assert_eq!(state.update_hdr_state(2_700 * MS, None), Some(false));
}

#[test]
fn a_flicker_is_never_signalled() {
    let mut state = signalled();
    for step in 0..1_000 {
        let hdr = step % 30 != 0;
        assert_eq!(state.update_hdr_state(step * 16 * MS, Some(hdr)), None);
    }
}

#[test]
fn without_colour_management_nothing_is_signalled() {
    let mut state = State::new();
    state.space.push(Window::new(1));
    state.wire_hdr_signal(false);
    for step in 0..100 {
        assert_eq!(state.update_hdr_state(step * 100 * MS, Some(true)), None);
    }
    assert_eq!(state.hdr_candidate_since, None);
}

#[test]
fn only_an_hdr_picture_carries_mastering() {
    let caps = || Some(("mastering".to_string(), "cll".to_string()));
    let change = hdr_change(true, caps());
    assert!(change.hdr);
    assert_eq!(change.mastering.as_deref(), Some("mastering"));
    assert_eq!(change.cll.as_deref(), Some("cll"));

    let change = hdr_change(true, None);
    assert!(change.hdr && change.mastering.is_none() && change.cll.is_none());
    let change = hdr_change(false, caps());
    assert!(!change.hdr && change.mastering.is_none() && change.cll.is_none());
}
