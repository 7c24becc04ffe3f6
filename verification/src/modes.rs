//! The size applications see, apart from the size that is encoded.
//!
//! The output's mode is the *render* size. Windows live in the *logical* extent, which is the
//! mode divided by the UI scale; the frame that is encoded keeps its own size throughout.

use crate::formats::{NV12, P010};
use crate::geometry::Size;
use crate::listing::{lemma_filter, lemma_with_item, with_item};
use crate::logical::logical_of;
use crate::output::{
    ladder_modes, law_ladder_modes_are_the_fitting_rungs,
    law_relisted_offers_exactly_what_is_wanted, relisted, rung_fits, Output, OutputMode,
};
use crate::state::State;
use crate::ui_scale::{
    clamped, is_finite, law_a_full_exponent_is_no_number,
    law_a_request_is_brought_between_one_and_three, UiScale, UI_SCALE_MIN,
};
use crate::video::{
    buffer_plan, may_keep_buffer, plan_output_buffer, wanted_buffer, BufferKind, BufferPlan,
    MemoryKind, PixFmt, RenderTarget, VideoInfo,
};
use crate::windows::{
    all_configured, all_told, announcements, configure_mapped, configure_waiting,
    first_configure, lemma_surfaces_stay, lemma_told_windows_are_owed_the_same,
    mapped_configures, owed_configures, tell_scale, Announcement, Configure, SizeUpdate, Window,
};
use vstd::prelude::*;

verus! {

/// The refresh rate of an output that has no mode yet, in millihertz.
pub const DEFAULT_REFRESH: i32 = 60_000;

/// How the pointer follows a change of the logical extent.
#[derive(Debug, Clone, Copy, PartialEq, Eq, Structural)]
pub enum PointerRemap {
    /// It keeps its relative position: each coordinate is multiplied by the new extent and
    /// divided by the old one.
    Proportional { old: Size, new: Size },
    /// There was no extent to be placed in, so it goes to the middle of this one.
    Centre(Size),
}

impl PointerRemap {
    /// Where the horizontal coordinate `x / d` goes, as a fraction.
    pub open spec fn x_after(self, x: int, d: int) -> (int, int) {
        match self {
            PointerRemap::Proportional { old: from, new: to } => (x * to.w, d * from.w),
            PointerRemap::Centre(to) => (to.w as int, 2),
        }
    }

    /// Where the vertical coordinate `y / d` goes, as a fraction.
    pub open spec fn y_after(self, y: int, d: int) -> (int, int) {
        match self {
            PointerRemap::Proportional { old: from, new: to } => (y * to.h, d * from.h),
            PointerRemap::Centre(to) => (to.h as int, 2),
        }
    }
}

/// What a change of mode asks of the outside, in the order in which it is to be done.
#[derive(Debug)]
pub struct ModeEffects {
    pub mode: OutputMode,
    /// The scale to announce on the output, if it changed.
    pub scale: Option<UiScale>,
    /// The size of the frame in which damage is collected: the encoded one.
    pub frame: Size,
    pub pointer: PointerRemap,
    pub announcements: Vec<Announcement>,
    /// Configures for the mapped windows.
    pub configures: Vec<Configure>,
    /// First configures for the windows that were waiting for an output.
    pub first_configures: Vec<Configure>,
}

/// What came of a requested UI scale.
#[derive(Debug)]
pub enum UiScaleStep {
    /// The request was no number.
    Ignored,
    /// The scale is already in force.
    Unchanged,
    /// There is no output yet; the windows there are have been told.
    Stored(Vec<Announcement>),
    /// The logical extent changed with the scale.
    Moved(ModeEffects),
}

/// The size of the output's mode: what is requested, as far as the encoded frame has room
/// for it, and the encoded size when nothing is.
pub open spec fn effective(requested: Option<Size>, encode: Option<Size>) -> Size {
    match (requested, encode) {
        (Some(r), Some(e)) => Size {
            w: if r.w <= e.w { r.w } else { e.w },
            h: if r.h <= e.h { r.h } else { e.h },
        },
        (Some(r), None) => r,
        (None, Some(e)) => e,
        (None, None) => Size { w: 0, h: 0 },
    }
}

/// A size to draw at, or `None` for a request that is not positive on both axes.
pub open spec fn requested_size(size: Size) -> Option<Size> {
    if size.positive() {
        Some(size)
    } else {
        None
    }
}

/// The rungs of a requested ladder that are real sizes, in order.
pub open spec fn real_rungs(ladder: Seq<(i32, i32)>) -> Seq<Size> {
    ladder.filter(|r: (i32, i32)| r.0 > 0 && r.1 > 0).map_values(
        |r: (i32, i32)| Size { w: r.0, h: r.1 },
    )
}

/// Where the pointer goes when the logical extent changes: to the same relative position, or
/// to the middle when there was no extent to be placed in.
pub open spec fn remapped(old_extent: Option<Size>, new_extent: Size) -> PointerRemap {
    match old_extent {
        Some(old_size) => if old_size.positive() {
            PointerRemap::Proportional { old: old_size, new: new_extent }
        } else {
            PointerRemap::Centre(new_extent)
        },
        None => PointerRemap::Centre(new_extent),
    }
}

pub fn remap_pointer(old_extent: Option<Size>, new_extent: Size) -> (remap: PointerRemap)
    ensures
        remap == remapped(old_extent, new_extent),
{
    match old_extent {
        Some(old_size) => if old_size.is_positive() {
            PointerRemap::Proportional { old: old_size, new: new_extent }
        } else {
            PointerRemap::Centre(new_extent)
        },
        None => PointerRemap::Centre(new_extent),
    }
}

impl State {
    pub open spec fn encode_size(self) -> Option<Size> {
        match self.video_info {
            Some(info) => Some(info.size),
            None => None,
        }
    }

    pub open spec fn effective_size(self) -> Size {
        effective(self.render_size, self.encode_size())
    }

    /// The refresh rate the output runs at.
    pub open spec fn refresh(self) -> i32 {
        match self.output {
            Some(output) => match output.current_mode {
                Some(mode) => mode.refresh,
                None => DEFAULT_REFRESH,
            },
            None => DEFAULT_REFRESH,
        }
    }

    /// The output is at the size it should have.
    pub open spec fn mode_matches(self) -> bool {
        &&& self.output is Some
        &&& self.output->0.current_mode is Some
        &&& self.output->0.current_mode->0.size == self.effective_size()
    }

    /// The ladder is measured against the encoded frame, or against the mode before there is
    /// one.
    pub open spec fn ladder_bound(self) -> Size {
        match self.video_info {
            Some(info) => info.size,
            None => self.effective_size(),
        }
    }

    /// The modes on offer; none before there is an output.
    pub open spec fn offered(self) -> Seq<OutputMode> {
        match self.output {
            Some(output) => output.modes@,
            None => Seq::empty(),
        }
    }

    /// The scale the output announces; 1.0 before there is one.
    pub open spec fn announced_scale(self) -> UiScale {
        match self.output {
            Some(output) => output.scale,
            None => UiScale { bits: UI_SCALE_MIN },
        }
    }

    /// The extent windows and the pointer live in, once there is one.
    pub open spec fn extent(self) -> Option<Size> {
        match self.output {
            Some(output) => output.logical(),
            None => None,
        }
    }

    /// `after` is this state with its output, a new one if need be, moved to a mode of `size`
    /// at `refresh`, and `effects` is what that asks of the outside.
    pub open spec fn moved_to(
        self,
        size: Size,
        refresh: i32,
        after: State,
        effects: ModeEffects,
    ) -> bool {
        let output = after.output->0;
        let mode = OutputMode { size, refresh };
        let extent = logical_of(size, self.ui_scale);
        let frame = match self.video_info {
            Some(info) => info.size,
            None => size,
        };
        // The output composites at the new mode, which clients are also advised to pick.
        &&& after.output is Some
        &&& output.current_mode == Some(mode)
        &&& output.preferred_mode == Some(mode)
        &&& output.scale == self.ui_scale
        &&& after.advertised_ladder@ == ladder_modes(self.mode_ladder@, refresh, frame)
        &&& output.modes@ == relisted(
            with_item(self.offered(), mode),
            after.advertised_ladder@,
            Some(mode),
            Some(mode),
        )
        // Every window has been told the scale and has its configure.
        &&& after.space@ == all_configured(all_told(self.space@, self.ui_scale))
        &&& after.pending_windows@ == all_configured(
            all_told(self.pending_windows@, self.ui_scale),
        )
        &&& after == (State {
            output: after.output,
            advertised_ladder: after.advertised_ladder,
            space: after.space,
            pending_windows: after.pending_windows,
            ..self
        })
        // What is left to do outside.
        &&& effects.mode == mode
        &&& effects.scale == (if self.announced_scale() == self.ui_scale {
            None
        } else {
            Some(self.ui_scale)
        })
        &&& effects.frame == frame
        &&& effects.pointer == remapped(self.extent(), extent)
        &&& effects.announcements@ == announcements(self.space@, self.ui_scale, true)
            + announcements(self.pending_windows@, self.ui_scale, false)
        &&& effects.configures@ == mapped_configures(self.space@, extent)
        &&& effects.first_configures@ == owed_configures(self.pending_windows@, extent)
    }

    /// `after` is this state once the ladder `rungs` was taken over: with an output and a
    /// ladder that differs, the modes on offer are gone through again.
    pub open spec fn ladder_readvertised(self, rungs: Seq<Size>, after: State) -> bool {
        let before = self.output->0;
        let output = after.output->0;
        &&& self.output is None ==> after == (State { mode_ladder: after.mode_ladder, ..self })
        &&& self.output is Some && rungs == self.mode_ladder@ ==> after == self
        &&& self.output is Some && rungs != self.mode_ladder@ ==> {
            &&& after.advertised_ladder@ == ladder_modes(
                rungs,
                self.refresh(),
                self.ladder_bound(),
            )
            &&& after.output is Some
            &&& output.modes@ == relisted(
                before.modes@,
                after.advertised_ladder@,
                before.current_mode,
                before.preferred_mode,
            )
            &&& output == (Output { modes: output.modes, ..before })
            &&& after == (State {
                mode_ladder: after.mode_ladder,
                advertised_ladder: after.advertised_ladder,
                output: after.output,
                ..self
            })
        }
    }

    /// `after` is this state once applications were asked to draw at `size`.
    pub open spec fn render_size_applied(
        self,
        size: Size,
        after: State,
        effects: Option<ModeEffects>,
    ) -> bool {
        let asked = State { render_size: requested_size(size), ..self };
        let unchanged = requested_size(size) == self.render_size && self.mode_matches();
        &&& effects is Some <==> self.output is Some && !unchanged
        &&& effects is None ==> after == asked
        &&& effects matches Some(fx) ==> asked.moved_to(
            asked.effective_size(),
            asked.refresh(),
            after,
            fx,
        )
    }

    /// `after` is this state once the UI scale of the pattern `bits` was requested.
    pub open spec fn ui_scale_applied(self, bits: u64, after: State, step: UiScaleStep) -> bool {
        let scale = clamped(bits);
        let asked = State { ui_scale: scale, ..self };
        match step {
            UiScaleStep::Ignored => !is_finite(bits) && after == self,
            UiScaleStep::Unchanged => {
                &&& is_finite(bits)
                &&& self.output is Some
                &&& scale == self.ui_scale
                &&& after == self
            },
            UiScaleStep::Stored(notes) => {
                &&& is_finite(bits)
                &&& self.output is None
                &&& notes@ == announcements(self.space@, scale, true) + announcements(
                    self.pending_windows@,
                    scale,
                    false,
                )
                &&& after.space@ == all_told(self.space@, scale)
                &&& after.pending_windows@ == all_told(self.pending_windows@, scale)
                &&& after == (State {
                    space: after.space,
                    pending_windows: after.pending_windows,
                    ..asked
                })
            },
            UiScaleStep::Moved(fx) => {
                &&& is_finite(bits)
                &&& self.output is Some
                &&& scale != self.ui_scale
                &&& asked.moved_to(asked.effective_size(), asked.refresh(), after, fx)
            },
        }
    }

    /// `after` is this state once the format `info` was taken over at `refresh`, and the plan
    /// for the output buffer was carried out.
    pub open spec fn renegotiated(
        self,
        info: VideoInfo,
        refresh: i32,
        plan: BufferPlan,
        allocated: bool,
        after: State,
        effects: ModeEffects,
    ) -> bool {
        let negotiated = State {
            video_info: Some(info),
            output_buffer: match plan {
                BufferPlan::Allocate(kind) if allocated => Some(kind),
                _ => self.output_buffer,
            },
            ..self
        };
        negotiated.moved_to(negotiated.effective_size(), refresh, after, effects)
    }

    pub fn effective_render_size(&self) -> (size: Size)
        ensures
            size == self.effective_size(),
            self.render_size is None && self.video_info is None ==> size == (Size { w: 0, h: 0 }),
            self.render_size is None && self.video_info is Some ==> size
                == self.video_info->0.size,
            self.render_size is Some && self.video_info is None ==> size == self.render_size->0,
            self.render_size is Some && self.video_info is Some ==> {
                let (asked, frame) = (self.render_size->0, self.video_info->0.size);
                &&& size.w <= asked.w && size.w <= frame.w && (size.w == asked.w || size.w
                    == frame.w)
                &&& size.h <= asked.h && size.h <= frame.h && (size.h == asked.h || size.h
                    == frame.h)
            },
    {
        match (self.render_size, &self.video_info) {
            (Some(r), Some(info)) => r.min(info.size),
            (Some(r), None) => r,
            (None, Some(info)) => info.size,
            (None, None) => Size { w: 0, h: 0 },
        }
    }

    fn current_refresh(&self) -> (refresh: i32)
        ensures
            refresh == self.refresh(),
    {
        match &self.output {
            Some(output) => match output.current_mode {
                Some(mode) => mode.refresh,
                None => DEFAULT_REFRESH,
            },
            None => DEFAULT_REFRESH,
        }
    }

    /// Tell every window, mapped or not, to draw at the current UI scale.
    pub fn announce_ui_scale(&mut self) -> (notes: Vec<Announcement>)
        ensures
            notes@ == announcements(old(self).space@, old(self).ui_scale, true) + announcements(
                old(self).pending_windows@,
                old(self).ui_scale,
                false,
            ),
            final(self).space@ == all_told(old(self).space@, old(self).ui_scale),
            final(self).pending_windows@ == all_told(
                old(self).pending_windows@,
                old(self).ui_scale,
            ),
            *final(self) == (State {
                space: final(self).space,
                pending_windows: final(self).pending_windows,
                ..*old(self)
            }),
            old(self).wf() ==> final(self).wf(),
    {
        let mut notes: Vec<Announcement> = Vec::new();
        let scale = self.ui_scale;
        tell_scale(&mut self.space, scale, true, &mut notes);
        tell_scale(&mut self.pending_windows, scale, false, &mut notes);
        proof {
            lemma_surfaces_stay(old(self).space@, scale);
            lemma_surfaces_stay(old(self).pending_windows@, scale);
        }
        notes
    }

    /// Configure every mapped window for an extent of `size`.
    pub fn configure_toplevels(&mut self, size: Size) -> (sent: Vec<Configure>)
        ensures
            sent@ == mapped_configures(old(self).space@, size),
            final(self).space@ == all_configured(old(self).space@),
            *final(self) == (State { space: final(self).space, ..*old(self) }),
            old(self).wf() ==> final(self).wf(),
    {
        proof {
            lemma_surfaces_stay(self.space@, self.ui_scale);
        }
        configure_mapped(&mut self.space, size)
    }

    /// Send the first configure to every window that is still waiting for one. A window whose
    /// first commit came before the output did has nothing else to wake it.
    pub fn configure_pending_toplevels(&mut self, size: Size) -> (sent: Vec<Configure>)
        ensures
            sent@ == owed_configures(old(self).pending_windows@, size),
            final(self).pending_windows@ == all_configured(old(self).pending_windows@),
            *final(self) == (State {
                pending_windows: final(self).pending_windows,
                ..*old(self)
            }),
            old(self).wf() ==> final(self).wf(),
    {
        proof {
            lemma_surfaces_stay(self.pending_windows@, self.ui_scale);
        }
        configure_waiting(&mut self.pending_windows, size)
    }

    /// Point the output at a mode of `size`, in pixels, at `refresh`, in millihertz. The scale
    /// in force goes with it. Without an output nothing happens.
    pub fn apply_output_mode(&mut self, size: Size, refresh: i32) -> (effects: Option<ModeEffects>)
        requires
            old(self).wf(),
        ensures
            final(self).wf(),
            final(self).has_mode(),
            effects is Some <==> old(self).output is Some,
            effects is None ==> *final(self) == *old(self),
            effects matches Some(fx) ==> old(self).moved_to(size, refresh, *final(self), fx),
    {
        match self.output.take() {
            Some(output) => Some(self.move_output(output, size, refresh)),
            None => None,
        }
    }

    /// Put `output` in place, moved to a mode of `size` at `refresh`.
    fn move_output(&mut self, output: Output, size: Size, refresh: i32) -> (effects: ModeEffects)
        requires
            old(self).wf(),
            output.wf(),
        ensures
            final(self).wf(),
            final(self).has_mode(),
            (State { output: Some(output), ..*old(self) }).moved_to(
                size,
                refresh,
                *final(self),
                effects,
            ),
    {
        let ghost before = output;
        let mut output = output;
        let old_extent = output.logical_size();
        let mode = OutputMode { size, refresh };
        let scale = if output.scale == self.ui_scale {
            None
        } else {
            Some(self.ui_scale)
        };
        output.change_current_state(mode, scale);
        output.set_preferred(mode);
        proof {
            lemma_with_item(before.modes@, mode);
        }
        let frame = match &self.video_info {
            Some(info) => info.size,
            None => size,
        };
        self.advertised_ladder = output.advertise_mode_ladder(&self.mode_ladder, refresh, frame);
        let extent = size.to_logical(output.scale);
        self.output = Some(output);
        let pointer = remap_pointer(old_extent, extent);
        let announcements = self.announce_ui_scale();
        let configures = self.configure_toplevels(extent);
        let first_configures = self.configure_pending_toplevels(extent);
        proof {
            lemma_told_windows_are_owed_the_same(old(self).space@, self.ui_scale, extent);
            lemma_told_windows_are_owed_the_same(old(self).pending_windows@, self.ui_scale, extent);
        }
        ModeEffects {
            mode,
            scale,
            frame,
            pointer,
            announcements,
            configures,
            first_configures,
        }
    }

    /// Ask applications to draw at `size`; one that is not positive on both axes means the
    /// encoded size. The request stays across negotiations. A request that changes nothing
    /// asks nothing of anyone.
    pub fn apply_render_size(&mut self, size: Size) -> (effects: Option<ModeEffects>)
        requires
            old(self).wf(),
        ensures
            final(self).wf(),
            old(self).has_mode() ==> final(self).has_mode(),
            ({
                let asked = State { render_size: requested_size(size), ..*old(self) };
                let unchanged = requested_size(size) == old(self).render_size
                    && old(self).mode_matches();
                &&& effects is Some <==> old(self).output is Some && !unchanged
                &&& effects is None ==> *final(self) == asked
                &&& effects matches Some(fx) ==> asked.moved_to(
                    asked.effective_size(),
                    asked.refresh(),
                    *final(self),
                    fx,
                )
            }),
            old(self).render_size_applied(size, *final(self), effects),
    {
        let requested = if size.is_positive() {
            Some(size)
        } else {
            None
        };
        let effective = self.effective_render_size();
        let matches = match &self.output {
            Some(output) => match output.current_mode {
                Some(mode) => mode.size == effective,
                None => false,
            },
            None => false,
        };
        let same = match (requested, self.render_size) {
            (Some(a), Some(b)) => a == b,
            (None, None) => true,
            _ => false,
        };
        if same && matches {
            return None;
        }
        self.render_size = requested;
        if self.output.is_none() {
            return None;
        }
        let refresh: i32 = self.current_refresh();
        let size = self.effective_render_size();
        self.apply_output_mode(size, refresh)
    }

    /// Request a UI scale, as the bit pattern of a binary64 number. It is brought between 1.0
    /// and 3.0, and stays across negotiations.
    pub fn apply_ui_scale(&mut self, bits: u64) -> (step: UiScaleStep)
        requires
            old(self).wf(),
        ensures
            final(self).wf(),
            old(self).has_mode() ==> final(self).has_mode(),
            step is Ignored <==> !is_finite(bits),
            step is Unchanged <==> is_finite(bits) && old(self).output is Some && clamped(bits)
                == old(self).ui_scale,
            step is Stored <==> is_finite(bits) && old(self).output is None,
            step is Ignored || step is Unchanged ==> *final(self) == *old(self),
            step matches UiScaleStep::Stored(notes) ==> {
                let scale = clamped(bits);
                &&& notes@ == announcements(old(self).space@, scale, true) + announcements(
                    old(self).pending_windows@,
                    scale,
                    false,
                )
                &&& final(self).space@ == all_told(old(self).space@, scale)
                &&& final(self).pending_windows@ == all_told(old(self).pending_windows@, scale)
                &&& *final(self) == (State {
                    ui_scale: scale,
                    space: final(self).space,
                    pending_windows: final(self).pending_windows,
                    ..*old(self)
                })
            },
            step matches UiScaleStep::Moved(fx) ==> {
                let asked = State { ui_scale: clamped(bits), ..*old(self) };
                asked.moved_to(asked.effective_size(), asked.refresh(), *final(self), fx)
            },
            old(self).ui_scale_applied(bits, *final(self), step),
    {
        let scale = match UiScale::clamp(bits) {
            Some(scale) => scale,
            None => {
                return UiScaleStep::Ignored;
            },
        };
        if scale == self.ui_scale && self.output.is_some() {
            return UiScaleStep::Unchanged;
        }
        self.ui_scale = scale;
        let refresh: i32 = self.current_refresh();
        let size = self.effective_render_size();
        match self.apply_output_mode(size, refresh) {
            Some(effects) => UiScaleStep::Moved(effects),
            None => UiScaleStep::Stored(self.announce_ui_scale()),
        }
    }

    /// Offer the sizes of `ladder` beside the current mode. Those that are not positive on
    /// both axes are dropped; the rest stays across negotiations. What the output composites
    /// at, the windows and the pointer are left alone. Returns whether the modes on offer were
    /// gone through again.
    pub fn apply_mode_ladder(&mut self, ladder: &Vec<(i32, i32)>) -> (advertised: bool)
        requires
            old(self).wf(),
        ensures
            final(self).wf(),
            old(self).has_mode() ==> final(self).has_mode(),
            advertised == (old(self).output is Some && real_rungs(ladder@)
                != old(self).mode_ladder@),
            final(self).mode_ladder@ == real_rungs(ladder@),
            old(self).ladder_readvertised(real_rungs(ladder@), *final(self)),
    {
        let requested = keep_real_rungs(ladder);
        if same_sizes(&requested, &self.mode_ladder) && self.output.is_some() {
            return false;
        }
        self.mode_ladder = requested;
        let refresh: i32 = self.current_refresh();
        let encode = match &self.video_info {
            Some(info) => info.size,
            None => self.effective_render_size(),
        };
        let mut output = match self.output.take() {
            Some(output) => output,
            None => {
                return false;
            },
        };
        self.advertised_ladder = output.advertise_mode_ladder(&self.mode_ladder, refresh, encode);
        self.output = Some(output);
        true
    }

    /// Which buffer a newly negotiated format is to be produced into.
    pub fn plan_video_info(
        &self,
        hdr_cm: bool,
        info: VideoInfo,
        target: RenderTarget,
        memory: MemoryKind,
    ) -> (plan: BufferPlan)
        ensures
            plan == (if may_keep_buffer(hdr_cm, self.output_buffer, self.video_info, info) {
                BufferPlan::Keep
            } else {
                BufferPlan::Allocate(wanted_buffer(target, memory))
            }),
            plan == buffer_plan(
                hdr_cm,
                self.output_buffer,
                self.video_info,
                info,
                target,
                memory,
            ),
            plan is Keep <==> {
                let prev = self.video_info->0;
                &&& hdr_cm
                &&& self.output_buffer is Some
                &&& self.video_info is Some
                &&& prev.format == info.format
                &&& prev.size.w == info.size.w
                &&& prev.size.h == info.size.h
                &&& prev.fps_numer == info.fps_numer
                &&& prev.fps_denom == info.fps_denom
                &&& prev.colorimetry != info.colorimetry
            },
            plan is Allocate ==> {
                let kind = plan->Allocate_0;
                let hardware = target is Hardware;
                let fourcc = memory->fourcc;
                let dma = hardware && memory is Dma;
                &&& kind is Raw <==> target is Software || memory is Raw
                &&& kind is Vulkan <==> hardware && memory is Vulkan
                &&& kind is Cuda <==> hardware && memory is Cuda
                &&& kind == BufferKind::Converted(PixFmt::Nv12) <==> dma && fourcc == Some(NV12)
                &&& kind == BufferKind::Converted(PixFmt::P010) <==> dma && fourcc == Some(P010)
                &&& kind is Dma <==> dma && fourcc != Some(NV12) && fourcc != Some(P010)
            },
    {
        plan_output_buffer(hdr_cm, self.output_buffer, self.video_info, info, target, memory)
    }

    /// Take over a newly negotiated format at `refresh`, in millihertz, once the plan for the
    /// output buffer has been carried out. Only a Vulkan buffer may fail to be `allocated`: its
    /// device comes from the consumer, who may never share one. The first negotiation brings
    /// the output into being.
    pub fn apply_video_info(
        &mut self,
        info: VideoInfo,
        refresh: i32,
        plan: BufferPlan,
        allocated: bool,
    ) -> (effects: ModeEffects)
        requires
            old(self).wf(),
            plan matches BufferPlan::Allocate(kind) ==> allocated || kind is Vulkan,
        ensures
            final(self).wf(),
            final(self).has_mode(),
            ({
                let negotiated = State {
                    video_info: Some(info),
                    output_buffer: match plan {
                        BufferPlan::Allocate(kind) if allocated => Some(kind),
                        _ => old(self).output_buffer,
                    },
                    ..*old(self)
                };
                negotiated.moved_to(
                    negotiated.effective_size(),
                    refresh,
                    *final(self),
                    effects,
                )
            }),
            old(self).renegotiated(info, refresh, plan, allocated, *final(self), effects),
    {
        self.video_info = Some(info);
        if let BufferPlan::Allocate(kind) = plan {
            if allocated {
                self.output_buffer = Some(kind);
            }
        }
        let output = match self.output.take() {
            Some(output) => output,
            None => Output::new(),
        };
        let size = self.effective_render_size();
        self.move_output(output, size, refresh)
    }
}

/// The rungs of `ladder` that are real sizes.
fn keep_real_rungs(ladder: &Vec<(i32, i32)>) -> (rungs: Vec<Size>)
    ensures
        rungs@ == real_rungs(ladder@),
{
    let mut rungs: Vec<Size> = Vec::new();
    let ghost is_real = |r: (i32, i32)| r.0 > 0 && r.1 > 0;
    let ghost size = |r: (i32, i32)| Size { w: r.0, h: r.1 };
    let n: usize = ladder.len();
    let mut i: usize = 0;
    while i < n
        invariant
            n == ladder@.len(),
            i <= n,
            is_real == (|r: (i32, i32)| r.0 > 0 && r.1 > 0),
            size == (|r: (i32, i32)| Size { w: r.0, h: r.1 }),
            rungs@ == ladder@.take(i as int).filter(is_real).map_values(size),
        decreases n - i,
    {
        let rung = ladder[i];
        proof {
            reveal(Seq::filter);
            assert(ladder@.take(i + 1).drop_last() =~= ladder@.take(i as int));
            let kept = ladder@.take(i as int).filter(is_real);
            assert(kept.push(rung).map_values(size) =~= kept.map_values(size).push(size(rung)));
        }
        if rung.0 > 0 && rung.1 > 0 {
            rungs.push(Size { w: rung.0, h: rung.1 });
        }
        i += 1;
    }
    proof {
        assert(ladder@.take(n as int) =~= ladder@);
    }
    rungs
}

fn same_sizes(a: &Vec<Size>, b: &Vec<Size>) -> (same: bool)
    ensures
        same == (a@ == b@),
{
    let n: usize = a.len();
    if n != b.len() {
        return false;
    }
    let mut i: usize = 0;
    while i < n
        invariant
            n == a@.len(),
            n == b@.len(),
            i <= n,
            forall|k: int| 0 <= k < i ==> a@[k] == b@[k],
        decreases n - i,
    {
        if a[i] != b[i] {
            return false;
        }
        i += 1;
    }
    assert(a@ =~= b@);
    true
}

/// Applications are never asked to draw at more than is encoded.
pub proof fn law_the_mode_fits_the_encoded_frame(requested: Option<Size>, encode: Size)
    ensures
        effective(requested, Some(encode)).w <= encode.w,
        effective(requested, Some(encode)).h <= encode.h,
        requested is None ==> effective(requested, Some(encode)) == encode,
{
}

/// A move to another mode changes nothing about what is encoded: the format and the buffer
/// stay, and damage is collected on the encoded frame.
pub proof fn law_a_move_leaves_the_encoding_alone(
    before: State,
    size: Size,
    refresh: i32,
    after: State,
    effects: ModeEffects,
)
    requires
        before.moved_to(size, refresh, after, effects),
    ensures
        after.video_info == before.video_info,
        after.output_buffer == before.output_buffer,
        after.encode_size() is Some ==> after.encode_size() == Some(effects.frame),
{
}

/// Once a move to the effective size is made, asking for the same render size or the same UI
/// scale again finds nothing to do.
pub proof fn law_what_is_in_force_is_not_applied_again(
    before: State,
    refresh: i32,
    after: State,
    effects: ModeEffects,
)
    requires
        before.moved_to(before.effective_size(), refresh, after, effects),
    ensures
        after.mode_matches(),
        after.render_size == before.render_size,
        after.ui_scale == before.ui_scale,
        after.announced_scale() == after.ui_scale,
        after.refresh() == refresh,
{
}

/// After a move the output offers the new mode and the rungs that fit the frame, and nothing
/// else: sizes that were in force before do not pile up.
pub proof fn law_superseded_modes_do_not_pile_up(
    before: State,
    size: Size,
    refresh: i32,
    after: State,
    effects: ModeEffects,
)
    requires
        before.wf(),
        before.moved_to(size, refresh, after, effects),
    ensures
        forall|m: OutputMode| #[trigger]
            after.offered().contains(m) <==> m == effects.mode || (before.mode_ladder@.contains(
                m.size,
            ) && rung_fits(m.size, effects.frame) && m.refresh == refresh),
        after.offered().no_duplicates(),
{
    let ladder = after.advertised_ladder@;
    let listed = with_item(before.offered(), effects.mode);
    lemma_with_item(before.offered(), effects.mode);
    law_relisted_offers_exactly_what_is_wanted(
        listed,
        ladder,
        Some(effects.mode),
        Some(effects.mode),
    );
    law_ladder_modes_are_the_fitting_rungs(before.mode_ladder@, refresh, effects.frame);
    assert forall|m: OutputMode| #[trigger]
        after.offered().contains(m) <==> m == effects.mode || (before.mode_ladder@.contains(m.size)
            && rung_fits(m.size, effects.frame) && m.refresh == refresh) by {
        assert(ladder.contains(m) <==> before.mode_ladder@.contains(m.size) && rung_fits(
            m.size,
            effects.frame,
        ) && m.refresh == refresh);
    }
}

/// A window that was waiting for an output is sent its first configure by the first move, at
/// the whole new extent if it declares no largest size, and it is still waiting to be mapped.
pub proof fn law_a_parked_window_is_woken(
    before: State,
    size: Size,
    refresh: i32,
    after: State,
    effects: ModeEffects,
    i: int,
)
    requires
        before.moved_to(size, refresh, after, effects),
        0 <= i < before.pending_windows@.len(),
        !before.pending_windows@[i].initial_configure_sent,
    ensures
        effects.first_configures@.contains(
            first_configure(before.pending_windows@[i], logical_of(size, before.ui_scale)),
        ),
        after.pending_windows@.len() == before.pending_windows@.len(),
        after.pending_windows@[i] == (Window {
            initial_configure_sent: true,
            preferred_scale: Some(before.ui_scale),
            ..before.pending_windows@[i]
        }),
{
    let windows = before.pending_windows@;
    let extent = logical_of(size, before.ui_scale);
    let owed = |w: Window| !w.initial_configure_sent;
    let first = |w: Window| first_configure(w, extent);
    lemma_filter(windows, owed);
    assert(windows.contains(windows[i]));
    let kept = windows.filter(owed);
    assert(kept.contains(windows[i]));
    let k = choose|k: int| 0 <= k < kept.len() && kept[k] == windows[i];
    assert(kept.map_values(first)[k] == first_configure(windows[i], extent));
}

/// The pointer keeps its relative position when the extent changes: as a part of the new
/// extent it stands where it stood as a part of the old one. A change there and back puts it
/// where it was.
pub proof fn law_the_pointer_keeps_its_relative_position(
    from: Size,
    to: Size,
    x: int,
    y: int,
    d: int,
)
    requires
        from.positive(),
        to.positive(),
        d > 0,
    ensures
        ({
            let there = remapped(Some(from), to);
            let back = remapped(Some(to), from);
            let (x1, dx1) = there.x_after(x, d);
            let (y1, dy1) = there.y_after(y, d);
            let (x2, dx2) = back.x_after(x1, dx1);
            let (y2, dy2) = back.y_after(y1, dy1);
            &&& dx1 > 0 && x1 * (d * from.w) == x * (dx1 * to.w)
            &&& dy1 > 0 && y1 * (d * from.h) == y * (dy1 * to.h)
            &&& dx2 > 0 && x2 * d == x * dx2
            &&& dy2 > 0 && y2 * d == y * dy2
        }),
{
    lemma_axis_keeps_its_place(from.w as int, to.w as int, x, d);
    lemma_axis_keeps_its_place(from.h as int, to.h as int, y, d);
}

proof fn lemma_axis_keeps_its_place(from: int, to: int, x: int, d: int)
    by (nonlinear_arith)
    requires
        from > 0,
        to > 0,
        d > 0,
    ensures
        d * from > 0,
        (d * from) * to > 0,
        (x * to) * (d * from) == x * ((d * from) * to),
        ((x * to) * from) * d == x * ((d * from) * to),
{
}

/// A second move tells no window the same scale twice and sends no first configure twice.
pub proof fn law_a_second_move_repeats_nothing(
    start: State,
    size: Size,
    refresh: i32,
    middle: State,
    effects: ModeEffects,
    next_size: Size,
    next_refresh: i32,
    end: State,
    next_effects: ModeEffects,
)
    requires
        start.moved_to(size, refresh, middle, effects),
        middle.moved_to(next_size, next_refresh, end, next_effects),
    ensures
        next_effects.scale is None,
        next_effects.first_configures@.len() == 0,
        forall|i: int|
            0 <= i < next_effects.announcements@.len()
                ==> !(#[trigger] next_effects.announcements@[i]).sent,
        next_effects.pointer == remapped(
            Some(logical_of(size, start.ui_scale)),
            logical_of(next_size, start.ui_scale),
        ),
{
    let windows = middle.pending_windows@;
    let owed = |w: Window| !w.initial_configure_sent;
    lemma_filter(windows, owed);
    if windows.filter(owed).len() > 0 {
        assert(windows.filter(owed).contains(windows.filter(owed)[0]));
        let k = choose|k: int| 0 <= k < windows.len() && windows[k] == windows.filter(owed)[0];
        assert(windows[k].initial_configure_sent);
    }
}

/// The size applications draw at is what was asked for, cut down on each axis to what is
/// encoded; nothing asked for means all that is encoded, and before anything is encoded
/// nothing is cut.
pub proof fn law_the_request_is_cut_down_to_the_frame(state: State)
    ensures
        ({
            let size = state.effective_size();
            let asked = state.render_size->0;
            let frame = state.video_info->0.size;
            let has_asked = state.render_size is Some;
            let has_frame = state.video_info is Some;
            &&& !has_asked && !has_frame ==> size.w == 0 && size.h == 0
            &&& !has_asked && has_frame ==> size == frame
            &&& has_asked && !has_frame ==> size == asked
            &&& has_asked && has_frame ==> {
                &&& size.w <= asked.w && size.w <= frame.w && (size.w == asked.w || size.w
                    == frame.w)
                &&& size.h <= asked.h && size.h <= frame.h && (size.h == asked.h || size.h
                    == frame.h)
            }
        }),
{
}

/// Two real dimensions ask for that size; anything else asks for the encoded size.
pub proof fn law_only_a_real_size_is_a_request(size: Size)
    ensures
        size.w > 0 && size.h > 0 ==> requested_size(size) == Some(size),
        size.w <= 0 || size.h <= 0 ==> requested_size(size) is None,
{
}

/// The rungs of a ladder are taken over one by one: a real size is kept, behind those before
/// it, and anything else is dropped.
pub proof fn law_only_real_rungs_are_kept(ladder: Seq<(i32, i32)>, rung: (i32, i32))
    ensures
        real_rungs(Seq::empty()) == Seq::<Size>::empty(),
        rung.0 > 0 && rung.1 > 0 ==> real_rungs(ladder.push(rung)) == real_rungs(ladder).push(
            Size { w: rung.0, h: rung.1 },
        ),
        rung.0 <= 0 || rung.1 <= 0 ==> real_rungs(ladder.push(rung)) == real_rungs(ladder),
{
    reveal(Seq::filter);
    let is_real = |r: (i32, i32)| r.0 > 0 && r.1 > 0;
    let size = |r: (i32, i32)| Size { w: r.0, h: r.1 };
    assert(ladder.push(rung).drop_last() =~= ladder);
    let kept = ladder.filter(is_real);
    assert(kept.push(rung).map_values(size) =~= kept.map_values(size).push(size(rung)));
    assert(Seq::<(i32, i32)>::empty().filter(is_real).map_values(size) =~= Seq::empty());
}

/// A size is among the rungs that were kept exactly when it was asked for and is real.
proof fn lemma_real_rungs(ladder: Seq<(i32, i32)>, s: Size)
    ensures
        real_rungs(ladder).contains(s) <==> ladder.contains((s.w, s.h)) && s.w > 0 && s.h > 0,
{
    let is_real = |r: (i32, i32)| r.0 > 0 && r.1 > 0;
    let size = |r: (i32, i32)| Size { w: r.0, h: r.1 };
    let kept = ladder.filter(is_real);
    lemma_filter(ladder, is_real);
    if real_rungs(ladder).contains(s) {
        let i = choose|i: int| 0 <= i < real_rungs(ladder).len() && real_rungs(ladder)[i] == s;
        assert(kept.contains(kept[i]));
        assert(size(kept[i]) == s);
        assert(kept[i] == (s.w, s.h));
    }
    if ladder.contains((s.w, s.h)) && s.w > 0 && s.h > 0 {
        assert(kept.contains((s.w, s.h)));
        let i = choose|i: int| 0 <= i < kept.len() && kept[i] == (s.w, s.h);
        assert(real_rungs(ladder)[i] == s);
    }
}

/// Once a ladder that differs has been taken over, the output offers a mode exactly when it is
/// a real rung no larger than the negotiated frame on either axis, at the output's refresh
/// rate, or the current or preferred mode. So the size applications draw at has no say: a rung
/// as large as the frame is always on offer.
pub proof fn law_a_ladder_is_measured_against_the_negotiated_frame(
    before: State,
    ladder: Seq<(i32, i32)>,
    after: State,
    current: OutputMode,
    m: OutputMode,
)
    requires
        before.wf(),
        before.output is Some,
        before.output->0.current_mode == Some(current),
        before.video_info is Some,
        real_rungs(ladder) != before.mode_ladder@,
        before.ladder_readvertised(real_rungs(ladder), after),
    ensures
        ({
            let frame = before.video_info->0.size;
            let rung = ladder.contains((m.size.w, m.size.h)) && m.size.w > 0 && m.size.h > 0
                && m.size.w <= frame.w && m.size.h <= frame.h && m.refresh == current.refresh;
            &&& after.output is Some
            &&& after.output->0.modes@.contains(m) <==> rung || m == current
                || before.output->0.preferred_mode == Some(m)
            &&& after.advertised_ladder@.contains(m) <==> rung
            &&& ladder.contains((frame.w, frame.h)) && frame.w > 0 && frame.h > 0
                ==> after.output->0.modes@.contains(
                OutputMode { size: frame, refresh: current.refresh },
            )
        }),
{
    let frame = before.video_info->0.size;
    let output = before.output->0;
    let rungs = real_rungs(ladder);
    law_ladder_modes_are_the_fitting_rungs(rungs, current.refresh, frame);
    law_relisted_offers_exactly_what_is_wanted(
        output.modes@,
        after.advertised_ladder@,
        output.current_mode,
        output.preferred_mode,
    );
    lemma_real_rungs(ladder, m.size);
    lemma_real_rungs(ladder, frame);
    let whole = OutputMode { size: frame, refresh: current.refresh };
    assert(after.advertised_ladder@.contains(m) <==> rungs.contains(m.size) && rung_fits(
        m.size,
        frame,
    ) && m.refresh == current.refresh);
    assert(after.advertised_ladder@.contains(whole) <==> rungs.contains(whole.size) && rung_fits(
        whole.size,
        frame,
    ) && whole.refresh == current.refresh);
}

/// Before anything has been negotiated there is only the mode to measure a ladder against, and
/// an output without a mode counts as running at sixty hertz.
pub proof fn law_without_a_frame_a_ladder_is_measured_against_the_mode(
    before: State,
    ladder: Seq<(i32, i32)>,
    after: State,
    m: OutputMode,
)
    requires
        before.output is Some,
        before.video_info is None,
        real_rungs(ladder) != before.mode_ladder@,
        before.ladder_readvertised(real_rungs(ladder), after),
    ensures
        ({
            let bound = if before.render_size is Some {
                before.render_size->0
            } else {
                Size { w: 0, h: 0 }
            };
            let refresh = if before.output->0.current_mode is Some {
                before.output->0.current_mode->0.refresh
            } else {
                60_000
            };
            after.advertised_ladder@.contains(m) <==> ladder.contains((m.size.w, m.size.h))
                && m.size.w > 0 && m.size.h > 0 && m.size.w <= bound.w && m.size.h <= bound.h
                && m.refresh == refresh
        }),
{
    let refresh = before.refresh();
    let bound = before.ladder_bound();
    law_ladder_modes_are_the_fitting_rungs(real_rungs(ladder), refresh, bound);
    lemma_real_rungs(ladder, m.size);
    assert(after.advertised_ladder@.contains(m) <==> real_rungs(ladder).contains(m.size)
        && rung_fits(m.size, bound) && m.refresh == refresh);
}

/// A ladder changes nothing but the ladder and the modes on offer, and where it is the one in
/// force, nothing at all.
pub proof fn law_a_ladder_leaves_the_picture_alone(before: State, rungs: Seq<Size>, after: State)
    requires
        before.ladder_readvertised(rungs, after),
    ensures
        after.output is Some <==> before.output is Some,
        before.output is Some ==> {
            &&& after.output->0.current_mode == before.output->0.current_mode
            &&& after.output->0.preferred_mode == before.output->0.preferred_mode
            &&& after.output->0.scale == before.output->0.scale
        },
        before.output is Some && rungs == before.mode_ladder@ ==> after == before,
        before.output is None ==> after.advertised_ladder == before.advertised_ladder,
        after.space == before.space,
        after.pending_windows == before.pending_windows,
        after.video_info == before.video_info,
        after.output_buffer == before.output_buffer,
        after.render_size == before.render_size,
        after.ui_scale == before.ui_scale,
        after.should_quit == before.should_quit,
{
}

/// After a move the output runs at the new mode, prefers it, and announces the scale in force.
/// Beside that mode it offers exactly the real rungs that are no larger than what is encoded,
/// at the same refresh rate.
pub proof fn law_a_move_offers_the_mode_and_the_rungs_within_the_frame(
    before: State,
    size: Size,
    refresh: i32,
    after: State,
    effects: ModeEffects,
    m: OutputMode,
)
    requires
        before.wf(),
        before.moved_to(size, refresh, after, effects),
    ensures
        after.output is Some,
        ({
            let output = after.output->0;
            let mode = OutputMode { size, refresh };
            let frame = if before.video_info is Some {
                before.video_info->0.size
            } else {
                size
            };
            &&& output.current_mode == Some(mode)
            &&& output.preferred_mode == Some(mode)
            &&& output.scale.bits == before.ui_scale.bits
            &&& effects.mode == mode
            &&& effects.frame == frame
            &&& output.modes@.contains(m) <==> m == mode || (before.mode_ladder@.contains(m.size)
                && m.size.w > 0 && m.size.h > 0 && m.size.w <= frame.w && m.size.h <= frame.h
                && m.refresh == refresh)
        }),
        after.render_size == before.render_size,
        after.ui_scale == before.ui_scale,
        after.mode_ladder == before.mode_ladder,
        after.should_quit == before.should_quit,
        after.last_render == before.last_render,
        after.renderer_degraded == before.renderer_degraded,
        after.renderer_degraded_active == before.renderer_degraded_active,
        after.app_surface_commits == before.app_surface_commits,
        after.pending_pointer_refocus == before.pending_pointer_refocus,
        after.hdr_signalled == before.hdr_signalled,
        after.last_hdr_state == before.last_hdr_state,
        after.hdr_candidate_since == before.hdr_candidate_since,
{
    law_superseded_modes_do_not_pile_up(before, size, refresh, after, effects);
    assert(after.offered().contains(m) <==> m == effects.mode || (before.mode_ladder@.contains(
        m.size,
    ) && rung_fits(m.size, effects.frame) && m.refresh == refresh));
}

/// The output is told of a scale exactly when it announces another one; one that is new
/// announces 1.0.
pub proof fn law_the_output_is_told_of_a_new_scale(
    before: State,
    size: Size,
    refresh: i32,
    after: State,
    effects: ModeEffects,
)
    requires
        before.moved_to(size, refresh, after, effects),
    ensures
        ({
            let announced = if before.output is Some {
                before.output->0.scale.bits
            } else {
                0x3ff0_0000_0000_0000
            };
            &&& effects.scale is Some <==> before.ui_scale.bits != announced
            &&& effects.scale is Some ==> effects.scale->0.bits == before.ui_scale.bits
        }),
{
}

/// A move sends every mapped window a configure for the new extent, which is the new size at
/// the scale in force: the whole of it, or less for a window that declares a largest size.
pub proof fn law_a_move_configures_every_mapped_window(
    before: State,
    size: Size,
    refresh: i32,
    after: State,
    effects: ModeEffects,
    i: int,
)
    requires
        before.moved_to(size, refresh, after, effects),
        0 <= i < before.space@.len(),
    ensures
        effects.configures@.len() == before.space@.len(),
        after.space@.len() == before.space@.len(),
        ({
            let extent = logical_of(size, before.ui_scale);
            let window = before.space@[i];
            let c = effects.configures@[i];
            &&& c.surface == window.surface
            &&& c.fullscreen
            &&& window.max_size.w == 0 && window.max_size.h == 0 ==> c.size
                == SizeUpdate::Change(Some(extent))
            &&& window.max_size.w > 0 && window.max_size.h > 0 && extent.w > 0 && extent.h > 0
                ==> c.size is Change && c.size->0 is Some && {
                let given = c.size->0->0;
                &&& given.w <= extent.w && given.w <= window.max_size.w && (given.w == extent.w
                    || given.w == window.max_size.w)
                &&& given.h <= extent.h && given.h <= window.max_size.h && (given.h == extent.h
                    || given.h == window.max_size.h)
            }
        }),
        ({
            let (was, is) = (before.space@[i], after.space@[i]);
            &&& is.surface == was.surface
            &&& is.max_size == was.max_size
            &&& is.content_is_pq == was.content_is_pq
            &&& is.initial_configure_sent
            &&& is.preferred_scale == Some(before.ui_scale)
        }),
{
}

/// A move hands the scale in force to every window, the mapped ones first, and it goes out to
/// those that hold another.
pub proof fn law_a_move_hands_every_window_the_scale(
    before: State,
    size: Size,
    refresh: i32,
    after: State,
    effects: ModeEffects,
    i: int,
)
    requires
        before.moved_to(size, refresh, after, effects),
        0 <= i < before.space@.len() + before.pending_windows@.len(),
    ensures
        effects.announcements@.len() == before.space@.len() + before.pending_windows@.len(),
        ({
            let mapped = i < before.space@.len();
            let window = if mapped {
                before.space@[i]
            } else {
                before.pending_windows@[i - before.space@.len()]
            };
            let note = effects.announcements@[i];
            &&& note.surface == window.surface
            &&& note.mapped == mapped
            &&& note.previous == window.preferred_scale
            &&& note.sent <==> window.preferred_scale is None || window.preferred_scale->0.bits
                != before.ui_scale.bits
        }),
{
}

/// Without an extent of two real dimensions before it, a move puts the pointer in the middle of
/// the new extent; otherwise the pointer keeps its place relative to the extent.
pub proof fn law_the_pointer_moves_with_the_extent(
    before: State,
    size: Size,
    refresh: i32,
    after: State,
    effects: ModeEffects,
)
    requires
        before.moved_to(size, refresh, after, effects),
    ensures
        ({
            let new = logical_of(size, before.ui_scale);
            let placed = before.output is Some && before.output->0.current_mode is Some;
            let old_extent = logical_of(
                before.output->0.current_mode->0.size,
                before.output->0.scale,
            );
            if placed && old_extent.w > 0 && old_extent.h > 0 {
                effects.pointer == (PointerRemap::Proportional { old: old_extent, new })
            } else {
                effects.pointer == PointerRemap::Centre(new)
            }
        }),
{
}

/// On each axis the pointer is multiplied by the new extent and divided by the old one; with no
/// extent to come from it lands on half of the new one.
pub proof fn law_the_pointer_is_scaled_axis_by_axis(from: Size, to: Size, x: int, y: int, d: int)
    ensures
        (PointerRemap::Proportional { old: from, new: to }).x_after(x, d) == (x * to.w, d * from.w),
        (PointerRemap::Proportional { old: from, new: to }).y_after(y, d) == (y * to.h, d * from.h),
        PointerRemap::Centre(to).x_after(x, d) == (to.w as int, 2int),
        PointerRemap::Centre(to).y_after(y, d) == (to.h as int, 2int),
{
}

/// A negotiation takes over the format and the buffer that was allocated for it, and moves the
/// output to the size that was asked for, as far as the new frame has room, at the new rate. A
/// buffer that is kept, or could not be had, leaves the one in use.
pub proof fn law_a_negotiation_takes_over_format_buffer_and_size(
    before: State,
    info: VideoInfo,
    refresh: i32,
    plan: BufferPlan,
    allocated: bool,
    after: State,
    effects: ModeEffects,
)
    requires
        before.renegotiated(info, refresh, plan, allocated, after, effects),
    ensures
        after.video_info == Some(info),
        plan is Allocate && allocated ==> after.output_buffer == Some(plan->Allocate_0),
        plan is Keep || !allocated ==> after.output_buffer == before.output_buffer,
        effects.frame == info.size,
        effects.mode.refresh == refresh,
        before.render_size is None ==> effects.mode.size == info.size,
        before.render_size is Some ==> {
            let (asked, is) = (before.render_size->0, effects.mode.size);
            &&& is.w <= asked.w && is.w <= info.size.w && (is.w == asked.w || is.w
                == info.size.w)
            &&& is.h <= asked.h && is.h <= info.size.h && (is.h == asked.h || is.h
                == info.size.h)
        },
        after.output is Some && after.output->0.current_mode == Some(effects.mode),
        after.render_size == before.render_size,
        after.ui_scale == before.ui_scale,
        after.mode_ladder == before.mode_ladder,
{
}

/// A request for a render size is remembered whatever comes of it. It moves the output, at the
/// rate it runs at, unless there is none, or the request and the size it leads to are those in
/// force already.
pub proof fn law_a_requested_size_is_remembered_and_applied(
    before: State,
    size: Size,
    after: State,
    effects: Option<ModeEffects>,
)
    requires
        before.wf(),
        before.has_mode(),
        before.render_size_applied(size, after, effects),
    ensures
        size.w > 0 && size.h > 0 ==> after.render_size == Some(size),
        size.w <= 0 || size.h <= 0 ==> after.render_size is None,
        after.video_info == before.video_info,
        after.output_buffer == before.output_buffer,
        before.output is None ==> effects is None,
        before.output is Some ==> (effects is None <==> after.render_size == before.render_size
            && before.output->0.current_mode->0.size == before.effective_size()),
        effects is None && before.output is Some ==> after.render_size == before.render_size
            && after.output == before.output && after.space == before.space,
        effects is Some ==> {
            let fx = effects->0;
            &&& before.output is Some
            &&& fx.mode.refresh == before.output->0.current_mode->0.refresh
            &&& after.output->0.current_mode == Some(fx.mode)
            &&& before.video_info is Some ==> {
                let frame = before.video_info->0.size;
                let is = fx.mode.size;
                &&& fx.frame == frame
                &&& size.w <= 0 || size.h <= 0 ==> is == frame
                &&& size.w > 0 && size.h > 0 ==> {
                    &&& is.w <= size.w && is.w <= frame.w && (is.w == size.w || is.w == frame.w)
                    &&& is.h <= size.h && is.h <= frame.h && (is.h == size.h || is.h == frame.h)
                }
            }
        },
        before.output is Some && before.video_info is Some ==> {
            let frame = before.video_info->0.size;
            let is = after.output->0.current_mode->0.size;
            effects is None ==> is == before.output->0.current_mode->0.size && is.w <= frame.w
                && is.h <= frame.h
        },
{
}

/// What comes of a requested UI scale. A request that is no number is ignored, and one that is
/// in force already changes nothing. Any other is in force from then on, brought between 1.0 and
/// 3.0: without an output every window is told of it, and with one the output moves to the
/// extent that goes with it, at the size and rate it has.
pub proof fn law_a_ui_scale_is_ignored_stored_or_applied(
    before: State,
    bits: u64,
    after: State,
    step: UiScaleStep,
)
    requires
        before.has_mode(),
        before.ui_scale_applied(bits, after, step),
    ensures
        ({
            let finite = (bits / 0x10_0000_0000_0000) % 0x800 != 0x7ff;
            let wanted = if bits >= 0x8000_0000_0000_0000 || bits < 0x3ff0_0000_0000_0000 {
                0x3ff0_0000_0000_0000
            } else if bits > 0x4008_0000_0000_0000 {
                0x4008_0000_0000_0000
            } else {
                bits
            };
            &&& step is Ignored <==> !finite
            &&& step is Unchanged <==> finite && before.output is Some && before.ui_scale.bits
                == wanted
            &&& step is Stored <==> finite && before.output is None
            &&& step is Moved <==> finite && before.output is Some && before.ui_scale.bits
                != wanted
            &&& finite ==> after.ui_scale.bits == wanted
            &&& !finite ==> after == before
            &&& step is Moved ==> {
                let fx = step->Moved_0;
                &&& after.output->0.scale.bits == wanted
                &&& fx.mode.size == before.effective_size()
                &&& fx.mode.refresh == before.output->0.current_mode->0.refresh
                &&& fx.configures@.len() == before.space@.len()
                &&& fx.scale is Some <==> before.output->0.scale.bits != wanted
            }
            &&& step is Stored ==> step->Stored_0@.len() == before.space@.len()
                + before.pending_windows@.len() && after.output is None
            &&& after.render_size == before.render_size
            &&& after.video_info == before.video_info
            &&& after.output_buffer == before.output_buffer
            &&& after.mode_ladder == before.mode_ladder
        }),
{
    law_a_full_exponent_is_no_number(bits);
    if is_finite(bits) {
        law_a_request_is_brought_between_one_and_three(bits);
    }
}

} // verus!
