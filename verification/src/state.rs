//! What the display remembers between two events.

use crate::geometry::Size;
use crate::output::{Output, OutputMode};
use crate::ui_scale::UiScale;
use crate::video::{BufferKind, VideoInfo};
use crate::windows::{surfaces, Window};
use vstd::prelude::*;

verus! {

/// The state of the display. Moments are counted in nanoseconds of a clock that never runs
/// backwards.
#[derive(Debug)]
pub struct State {
    pub should_quit: bool,
    /// The output, once there has been a negotiation.
    pub output: Option<Output>,
    /// The negotiated format: what is encoded.
    pub video_info: Option<VideoInfo>,
    /// The buffer frames are produced into.
    pub output_buffer: Option<BufferKind>,
    /// The size applications are asked to draw at; `None` follows the encoded size. It stays
    /// across negotiations.
    pub render_size: Option<Size>,
    /// How much larger than its pixels the desktop appears.
    pub ui_scale: UiScale,
    /// Further modes to offer beside the current one. They stay across negotiations; those
    /// above the encoded size are left out when they are advertised, not here.
    pub mode_ladder: Vec<Size>,
    /// The modes of the ladder that are on offer now.
    pub advertised_ladder: Vec<OutputMode>,
    /// The mapped windows, from back to front.
    pub space: Vec<Window>,
    /// The windows that are not mapped yet.
    pub pending_windows: Vec<Window>,
    /// The next motion of the pointer over a surface must make the surface enter anew.
    pub pending_pointer_refocus: bool,
    /// How many times a renderer degradation was reported.
    pub renderer_degraded: u64,
    /// A client buffer could not be imported, and none has been handled since: the moment of
    /// the last report.
    pub renderer_degraded_active: Option<u64>,
    /// Changes between SDR and HDR are signalled to the producer.
    pub hdr_signalled: bool,
    /// The output state that was last signalled: HDR, or SDR.
    pub last_hdr_state: bool,
    /// When the other output state was first seen, while it has not been signalled.
    pub hdr_candidate_since: Option<u64>,
    /// How many buffers have been committed in the trees of mapped windows.
    pub app_surface_commits: u64,
    /// When the last frame was produced.
    pub last_render: Option<u64>,
}

impl State {
    pub open spec fn wf(self) -> bool {
        &&& self.output matches Some(output) ==> output.wf()
        &&& self.ui_scale.in_range()
        &&& self.output_buffer is Some ==> self.video_info is Some
        &&& self.last_render is Some ==> self.video_info is Some
        &&& self.known_surfaces().no_duplicates()
    }

    /// The root surfaces of all windows, mapped or not. Each window is known once.
    pub open spec fn known_surfaces(self) -> Seq<u64> {
        surfaces(self.space@) + surfaces(self.pending_windows@)
    }

    /// The output, if there is one, has a mode.
    pub open spec fn has_mode(self) -> bool {
        self.output matches Some(output) ==> output.current_mode is Some
    }

    /// Nothing has happened yet.
    pub open spec fn is_new(self) -> bool {
        &&& !self.should_quit
        &&& self.output is None
        &&& self.video_info is None
        &&& self.output_buffer is None
        &&& self.render_size is None
        &&& self.ui_scale.is_one()
        &&& self.mode_ladder@.len() == 0
        &&& self.advertised_ladder@.len() == 0
        &&& self.space@.len() == 0
        &&& self.pending_windows@.len() == 0
        &&& !self.pending_pointer_refocus
        &&& self.renderer_degraded == 0
        &&& self.renderer_degraded_active is None
        &&& !self.hdr_signalled
        &&& !self.last_hdr_state
        &&& self.hdr_candidate_since is None
        &&& self.app_surface_commits == 0
        &&& self.last_render is None
    }

    pub fn new() -> (state: State)
        ensures
            state.is_new(),
            state.wf(),
            state.has_mode(),
    {
        State {
            should_quit: false,
            output: None,
            video_info: None,
            output_buffer: None,
            render_size: None,
            ui_scale: UiScale::one(),
            mode_ladder: Vec::new(),
            advertised_ladder: Vec::new(),
            space: Vec::new(),
            pending_windows: Vec::new(),
            pending_pointer_refocus: false,
            renderer_degraded: 0,
            renderer_degraded_active: None,
            hdr_signalled: false,
            last_hdr_state: false,
            hdr_candidate_since: None,
            app_surface_commits: 0,
            last_render: None,
        }
    }
}

/// A new display has no output, nothing negotiated, no windows, and a scale of 1.0; it has
/// reported and counted nothing, and asks for nothing.
pub proof fn law_a_display_starts_empty(state: State)
    requires
        state.is_new(),
    ensures
        state.output is None && state.video_info is None && state.output_buffer is None,
        state.render_size is None,
        state.ui_scale.bits == 0x3ff0_0000_0000_0000,
        state.mode_ladder@.len() == 0 && state.advertised_ladder@.len() == 0,
        state.known_surfaces().len() == 0,
        state.renderer_degraded == 0 && state.renderer_degraded_active is None,
        state.app_surface_commits == 0,
        state.last_render is None,
        !state.should_quit && !state.pending_pointer_refocus,
        !state.hdr_signalled && !state.last_hdr_state && state.hdr_candidate_since is None,
{
}

} // verus!
