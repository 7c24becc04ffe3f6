//! What a display offers its clients from the start, and how it takes leave of them.

use crate::formats::{
    advertise_hdr_dmabuf_formats, hdr_formats, law_only_importable_hdr_formats_are_added,
    DrmFormat, ABGR16161616F, ABGR2101010, ARGB2101010, XBGR16161616F, XBGR2101010, XRGB2101010,
};
use crate::listing::with_items;
use crate::state::State;
use crate::video::RenderTarget;
use vstd::prelude::*;

verus! {

/// The protocols that are offered only under conditions.
#[derive(Debug, Clone, Copy, PartialEq, Eq, Structural)]
pub struct Globals {
    /// The standard colour management protocol.
    pub color_manager: bool,
    /// The colour management protocol of nested game compositors.
    pub frog_color_manager: bool,
    /// Dmabufs, over either protocol for them.
    pub dmabuf: bool,
    /// Whether explicit synchronisation is worth asking the device for.
    pub explicit_sync: bool,
}

/// How dmabufs are offered.
#[derive(Debug, Clone, Copy, PartialEq, Eq, Structural)]
pub enum DmabufGlobal {
    /// With the device and its formats as feedback.
    WithFeedback,
    /// With the bare list of formats, as the protocol's third version has it.
    FormatsOnly,
}

/// Whether clients can synchronise explicitly, and if not, why.
#[derive(Debug, Clone, Copy, PartialEq, Eq, Structural)]
pub enum ExplicitSync {
    Enabled,
    /// There is no device to synchronise with.
    Software,
    /// The render node has no path.
    NoPath,
    /// The render node could not be opened.
    NotOpened,
    /// The device cannot wait for a timeline point by an event.
    Unsupported,
}

/// A step in taking leave of the keyboard.
#[derive(Debug, Clone, Copy, PartialEq, Eq, Structural)]
pub enum SeatStep {
    UnsetGrab,
    ClearFocus,
    RemoveKeyboard,
}

/// What is offered from the start.
pub open spec fn globals_of(target: RenderTarget, hdr_cm: bool) -> Globals {
    Globals {
        color_manager: hdr_cm,
        frog_color_manager: hdr_cm,
        dmabuf: target is Hardware,
        explicit_sync: target is Hardware,
    }
}

/// Colour management is offered where it is switched on, and dmabufs where there is a device.
pub fn plan_globals(target: RenderTarget, hdr_cm: bool) -> (globals: Globals)
    ensures
        globals == (Globals {
            color_manager: hdr_cm,
            frog_color_manager: hdr_cm,
            dmabuf: target is Hardware,
            explicit_sync: target is Hardware,
        }),
        globals == globals_of(target, hdr_cm),
{
    let hardware = match target {
        RenderTarget::Hardware => true,
        RenderTarget::Software => false,
    };
    Globals {
        color_manager: hdr_cm,
        frog_color_manager: hdr_cm,
        dmabuf: hardware,
        explicit_sync: hardware,
    }
}

/// The formats on offer, in order.
pub open spec fn offer(
    hdr_cm: bool,
    drawable: Seq<DrmFormat>,
    importable: Seq<DrmFormat>,
) -> Seq<DrmFormat> {
    if hdr_cm {
        with_items(drawable, hdr_formats(importable))
    } else {
        drawable
    }
}

/// The dmabuf formats to offer: those that can be drawn to, and with colour management the
/// HDR formats that can be imported.
pub fn offered_formats(
    hdr_cm: bool,
    drawable: Vec<DrmFormat>,
    importable: &Vec<DrmFormat>,
) -> (formats: Vec<DrmFormat>)
    ensures
        formats@ == (if hdr_cm {
            with_items(drawable@, hdr_formats(importable@))
        } else {
            drawable@
        }),
        formats@ == offer(hdr_cm, drawable@, importable@),
{
    let mut formats = drawable;
    if hdr_cm {
        advertise_hdr_dmabuf_formats(importable, &mut formats);
    }
    formats
}

pub fn dmabuf_global(feedback_built: bool) -> (global: DmabufGlobal)
    ensures
        global is WithFeedback <==> feedback_built,
        global == global_of(feedback_built),
{
    if feedback_built {
        DmabufGlobal::WithFeedback
    } else {
        DmabufGlobal::FormatsOnly
    }
}

/// Whether clients can synchronise explicitly.
pub open spec fn sync_of(
    target: RenderTarget,
    has_path: bool,
    opened: bool,
    eventfd: bool,
) -> ExplicitSync {
    if target is Software {
        ExplicitSync::Software
    } else if !has_path {
        ExplicitSync::NoPath
    } else if !opened {
        ExplicitSync::NotOpened
    } else if !eventfd {
        ExplicitSync::Unsupported
    } else {
        ExplicitSync::Enabled
    }
}

/// Whether explicit synchronisation is offered. `opened` and `eventfd` are asked of the device
/// in that order, and only as far as needed.
pub fn explicit_sync(
    target: RenderTarget,
    has_path: bool,
    opened: bool,
    eventfd: bool,
) -> (sync: ExplicitSync)
    ensures
        sync is Enabled <==> target is Hardware && has_path && opened && eventfd,
        sync is Software <==> target is Software,
        sync is NoPath <==> target is Hardware && !has_path,
        sync is NotOpened <==> target is Hardware && has_path && !opened,
        sync == sync_of(target, has_path, opened, eventfd),
{
    match target {
        RenderTarget::Software => ExplicitSync::Software,
        RenderTarget::Hardware => if !has_path {
            ExplicitSync::NoPath
        } else if !opened {
            ExplicitSync::NotOpened
        } else if !eventfd {
            ExplicitSync::Unsupported
        } else {
            ExplicitSync::Enabled
        },
    }
}

/// How to give the keyboard back when the session ends. `keyboard` says whether there is one,
/// and whether a client still holds it. A grab holds on to the keyboard it was set on, so it
/// has to be unset first, or the keyboard outlives the session.
pub open spec fn seat_steps(keyboard: Option<bool>) -> Seq<SeatStep> {
    match keyboard {
        None => Seq::empty(),
        Some(grabbed) => if grabbed {
            seq![SeatStep::UnsetGrab, SeatStep::ClearFocus, SeatStep::RemoveKeyboard]
        } else {
            seq![SeatStep::ClearFocus, SeatStep::RemoveKeyboard]
        },
    }
}

pub fn release_seat(keyboard: Option<bool>) -> (steps: Vec<SeatStep>)
    ensures
        steps@ == seat_steps(keyboard),
{
    let mut steps: Vec<SeatStep> = Vec::new();
    if let Some(grabbed) = keyboard {
        if grabbed {
            steps.push(SeatStep::UnsetGrab);
        }
        steps.push(SeatStep::ClearFocus);
        steps.push(SeatStep::RemoveKeyboard);
    }
    assert(steps@ =~= seat_steps(keyboard));
    steps
}

/// How dmabufs are offered, given whether the feedback could be made.
pub open spec fn global_of(feedback_built: bool) -> DmabufGlobal {
    if feedback_built {
        DmabufGlobal::WithFeedback
    } else {
        DmabufGlobal::FormatsOnly
    }
}

impl State {
    /// This state with the signal wired if colours are managed.
    pub open spec fn wired(self, hdr_cm: bool) -> State {
        State { hdr_signalled: self.hdr_signalled || hdr_cm, ..self }
    }

    /// Changes of the output state are signalled only with colour management.
    pub fn wire_hdr_signal(&mut self, hdr_cm: bool)
        ensures
            *final(self) == (State {
                hdr_signalled: old(self).hdr_signalled || hdr_cm,
                ..*old(self)
            }),
            *final(self) == old(self).wired(hdr_cm),
            old(self).wf() ==> final(self).wf(),
    {
        if hdr_cm {
            self.hdr_signalled = true;
        }
    }
}

/// What can be drawn to is always on offer, ahead of everything else. Only colour management
/// adds to it, and only formats that can be imported and have one of the six HDR codes.
pub proof fn law_colour_management_adds_importable_hdr_formats(
    drawable: Seq<DrmFormat>,
    importable: Seq<DrmFormat>,
    f: DrmFormat,
)
    ensures
        offer(false, drawable, importable) == drawable,
        offer(true, drawable, importable).len() >= drawable.len(),
        offer(true, drawable, importable).take(drawable.len() as int) == drawable,
        offer(true, drawable, importable).contains(f) <==> drawable.contains(f) || (
        importable.contains(f) && (f.code == ABGR16161616F || f.code == XBGR16161616F || f.code
            == XBGR2101010 || f.code == ABGR2101010 || f.code == XRGB2101010 || f.code
            == ARGB2101010)),
{
    law_only_importable_hdr_formats_are_added(drawable, importable);
}

/// Colour management brings both of its protocols, and a device brings dmabufs and the question
/// of explicit synchronisation; neither has a say in what the other brings.
pub proof fn law_a_device_and_colour_management_bring_their_own(
    target: RenderTarget,
    hdr_cm: bool,
)
    ensures
        globals_of(target, hdr_cm).color_manager == hdr_cm,
        globals_of(target, hdr_cm).frog_color_manager == hdr_cm,
        globals_of(target, hdr_cm).dmabuf <==> target == RenderTarget::Hardware,
        globals_of(target, hdr_cm).explicit_sync <==> target == RenderTarget::Hardware,
{
}

/// A keyboard always loses its focus and is then removed, as the last thing that is done to it.
/// A grab that is still held is unset before anything else. Without a keyboard there is nothing
/// to do.
pub proof fn law_a_keyboard_is_given_back_in_order(grabbed: bool)
    ensures
        seat_steps(None).len() == 0,
        ({
            let steps = seat_steps(Some(grabbed));
            let n = steps.len() as int;
            &&& n == (if grabbed {
                3int
            } else {
                2int
            })
            &&& steps[n - 1] == SeatStep::RemoveKeyboard
            &&& steps[n - 2] == SeatStep::ClearFocus
            &&& grabbed ==> steps[0] == SeatStep::UnsetGrab
        }),
{
}

/// Explicit synchronisation takes a device with a path that can be opened and that can wait for
/// a timeline point by an event. The first of these that is missing is the reason it is off.
pub proof fn law_explicit_sync_takes_all_it_needs(
    target: RenderTarget,
    has_path: bool,
    opened: bool,
    eventfd: bool,
)
    ensures
        ({
            let sync = sync_of(target, has_path, opened, eventfd);
            let hardware = target == RenderTarget::Hardware;
            &&& sync == ExplicitSync::Enabled <==> hardware && has_path && opened && eventfd
            &&& sync == ExplicitSync::Software <==> !hardware
            &&& sync == ExplicitSync::NoPath <==> hardware && !has_path
            &&& sync == ExplicitSync::NotOpened <==> hardware && has_path && !opened
            &&& sync == ExplicitSync::Unsupported <==> hardware && has_path && opened && !eventfd
        }),
{
}

/// Only colour management wires the signal, nothing unwires it, and nothing else changes.
pub proof fn law_colour_management_wires_the_signal(state: State)
    ensures
        state.wired(true).hdr_signalled,
        state.wired(false) == state,
        state.wired(true) == (State { hdr_signalled: true, ..state }),
{
}

/// Dmabufs come with feedback where it could be made, and with the bare formats otherwise.
pub proof fn law_feedback_is_given_where_it_could_be_made(feedback_built: bool)
    ensures
        feedback_built ==> global_of(feedback_built) == DmabufGlobal::WithFeedback,
        !feedback_built ==> global_of(feedback_built) == DmabufGlobal::FormatsOnly,
{
}

} // verus!
