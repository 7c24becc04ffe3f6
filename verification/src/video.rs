//! The negotiated video format, and which kind of buffer frames are produced into.

use crate::formats::{NV12, P010};
use crate::geometry::Size;
use vstd::prelude::*;

verus! {

/// The colour description of a video format, each part by its number in the media framework.
#[derive(Debug, Clone, Copy, PartialEq, Eq, Structural)]
pub struct Colorimetry {
    pub range: u32,
    pub matrix: u32,
    pub transfer: u32,
    pub primaries: u32,
}

/// The negotiated video format: what is encoded.
#[derive(Debug, Clone, Copy, PartialEq, Eq, Structural)]
pub struct VideoInfo {
    /// The pixel format, by its number in the media framework.
    pub format: u32,
    pub size: Size,
    /// Frames per second, as a fraction in lowest terms.
    pub fps_numer: i32,
    pub fps_denom: i32,
    pub colorimetry: Colorimetry,
}

/// `new` differs from `prev` in its colours alone, as when the stream changes between SDR
/// and HDR without changing its shape.
pub open spec fn only_colours_differ(prev: VideoInfo, new: VideoInfo) -> bool {
    &&& new == (VideoInfo { colorimetry: new.colorimetry, ..prev })
    &&& new.colorimetry != prev.colorimetry
}

pub fn colorimetry_only_change(prev: &VideoInfo, new: &VideoInfo) -> (b: bool)
    ensures
        b == only_colours_differ(*prev, *new),
        b <==> prev.format == new.format && prev.size.w == new.size.w && prev.size.h == new.size.h
            && prev.fps_numer == new.fps_numer && prev.fps_denom == new.fps_denom
            && prev.colorimetry != new.colorimetry,
{
    prev.format == new.format && prev.size.w == new.size.w && prev.size.h == new.size.h
        && prev.fps_numer == new.fps_numer && prev.fps_denom == new.fps_denom
        && prev.colorimetry != new.colorimetry
}

/// What frames are drawn with.
#[derive(Debug, Clone, Copy, PartialEq, Eq, Structural)]
pub enum RenderTarget {
    Hardware,
    Software,
}

/// The memory the consumer negotiated.
#[derive(Debug, Clone, Copy, PartialEq, Eq, Structural)]
pub enum MemoryKind {
    Raw,
    /// A dmabuf; its fourcc is `None` for a format that has none.
    Dma { fourcc: Option<u32> },
    Vulkan,
    Cuda,
}

/// The two-plane formats a frame can be converted to.
#[derive(Debug, Clone, Copy, PartialEq, Eq, Structural)]
pub enum PixFmt {
    Nv12,
    P010,
}

/// The buffer that frames are produced into.
#[derive(Debug, Clone, Copy, PartialEq, Eq, Structural)]
pub enum BufferKind {
    Raw,
    /// Converted to a two-plane format on the GPU and exported as a dmabuf.
    Converted(PixFmt),
    Dma,
    Vulkan,
    Cuda,
}

/// What to do about the output buffer after a negotiation.
#[derive(Debug, Clone, Copy, PartialEq, Eq, Structural)]
pub enum BufferPlan {
    /// Keep the one in use.
    Keep,
    Allocate(BufferKind),
}

/// The buffer a negotiated format asks for.
pub open spec fn wanted_buffer(target: RenderTarget, memory: MemoryKind) -> BufferKind {
    match (target, memory) {
        (RenderTarget::Software, _) => BufferKind::Raw,
        (RenderTarget::Hardware, MemoryKind::Raw) => BufferKind::Raw,
        (RenderTarget::Hardware, MemoryKind::Dma { fourcc }) => if fourcc == Some(NV12) {
            BufferKind::Converted(PixFmt::Nv12)
        } else if fourcc == Some(P010) {
            BufferKind::Converted(PixFmt::P010)
        } else {
            BufferKind::Dma
        },
        (RenderTarget::Hardware, MemoryKind::Vulkan) => BufferKind::Vulkan,
        (RenderTarget::Hardware, MemoryKind::Cuda) => BufferKind::Cuda,
    }
}

/// The buffer in use may be kept under colour management when only the colours changed: it
/// draws each frame right whatever the colour tag says, and rebuilding it would starve the
/// stream.
pub open spec fn may_keep_buffer(
    hdr_cm: bool,
    in_use: Option<BufferKind>,
    prev: Option<VideoInfo>,
    new: VideoInfo,
) -> bool {
    &&& hdr_cm
    &&& in_use is Some
    &&& prev is Some
    &&& only_colours_differ(prev->0, new)
}

/// What a negotiation means for the buffer in use.
pub open spec fn buffer_plan(
    hdr_cm: bool,
    in_use: Option<BufferKind>,
    prev: Option<VideoInfo>,
    new: VideoInfo,
    target: RenderTarget,
    memory: MemoryKind,
) -> BufferPlan {
    if may_keep_buffer(hdr_cm, in_use, prev, new) {
        BufferPlan::Keep
    } else {
        BufferPlan::Allocate(wanted_buffer(target, memory))
    }
}

pub fn plan_output_buffer(
    hdr_cm: bool,
    in_use: Option<BufferKind>,
    prev: Option<VideoInfo>,
    new: VideoInfo,
    target: RenderTarget,
    memory: MemoryKind,
) -> (plan: BufferPlan)
    ensures
        plan == (if may_keep_buffer(hdr_cm, in_use, prev, new) {
            BufferPlan::Keep
        } else {
            BufferPlan::Allocate(wanted_buffer(target, memory))
        }),
        plan == buffer_plan(hdr_cm, in_use, prev, new, target, memory),
        plan is Keep <==> hdr_cm && in_use is Some && prev is Some && prev->0.format == new.format
            && prev->0.size.w == new.size.w && prev->0.size.h == new.size.h && prev->0.fps_numer
            == new.fps_numer && prev->0.fps_denom == new.fps_denom && prev->0.colorimetry
            != new.colorimetry,
        plan is Allocate ==> {
            let kind = plan->Allocate_0;
            let hardware = target is Hardware;
            let fourcc = memory->fourcc;
            let dma = hardware && memory is Dma;
            &&& kind is Raw <==> target is Software || memory is Raw
            &&& kind is Vulkan <==> hardware && memory is Vulkan
            &&& kind is Cuda <==> hardware && memory is Cuda
            &&& kind == BufferKind::Converted(PixFmt::Nv12) <==> dma && fourcc == Some(NV12)
            &&& kind == BufferKind::Converted(PixFmt::P010) <==> dma && fourcc == Some(P010)
            &&& kind is Dma <==> dma && fourcc != Some(NV12) && fourcc != Some(P010)
        },
{
    let colours_only = match prev {
        Some(prev) => colorimetry_only_change(&prev, &new),
        None => false,
    };
    if hdr_cm && in_use.is_some() && colours_only {
        return BufferPlan::Keep;
    }
    let kind = match target {
        RenderTarget::Software => BufferKind::Raw,
        RenderTarget::Hardware => match memory {
            MemoryKind::Raw => BufferKind::Raw,
            MemoryKind::Dma { fourcc } => match fourcc {
                Some(code) => if code == NV12 {
                    BufferKind::Converted(PixFmt::Nv12)
                } else if code == P010 {
                    BufferKind::Converted(PixFmt::P010)
                } else {
                    BufferKind::Dma
                },
                None => BufferKind::Dma,
            },
            MemoryKind::Vulkan => BufferKind::Vulkan,
            MemoryKind::Cuda => BufferKind::Cuda,
        },
    };
    BufferPlan::Allocate(kind)
}

/// Without colour management every negotiation allocates the buffer it asks for.
pub proof fn law_without_colour_management_nothing_is_kept(
    in_use: Option<BufferKind>,
    prev: Option<VideoInfo>,
    new: VideoInfo,
)
    ensures
        !may_keep_buffer(false, in_use, prev, new),
{
}

/// A change of size, format or frame rate always allocates a new buffer.
pub proof fn law_a_change_of_shape_is_never_kept(
    hdr_cm: bool,
    in_use: Option<BufferKind>,
    prev: VideoInfo,
    new: VideoInfo,
)
    requires
        new.size != prev.size || new.format != prev.format || new.fps_numer != prev.fps_numer
            || new.fps_denom != prev.fps_denom,
    ensures
        !may_keep_buffer(hdr_cm, in_use, Some(prev), new),
{
}

/// The buffer of a negotiation that keeps none is the one the consumer asked for: a dmabuf of a
/// two-plane format holds frames converted to that very format, any other dmabuf frames as they
/// are drawn, and every other kind of memory is of its own kind. Frames that are drawn in
/// software always end up in plain memory.
pub proof fn law_the_consumer_gets_the_memory_it_asked_for(
    hdr_cm: bool,
    in_use: Option<BufferKind>,
    prev: Option<VideoInfo>,
    new: VideoInfo,
    target: RenderTarget,
    memory: MemoryKind,
)
    ensures
        ({
            let plan = buffer_plan(hdr_cm, in_use, prev, new, target, memory);
            let hardware = target == RenderTarget::Hardware;
            plan !is Keep ==> {
                &&& !hardware ==> plan == BufferPlan::Allocate(BufferKind::Raw)
                &&& hardware && memory == MemoryKind::Raw ==> plan == BufferPlan::Allocate(
                    BufferKind::Raw,
                )
                &&& hardware && memory == MemoryKind::Vulkan ==> plan == BufferPlan::Allocate(
                    BufferKind::Vulkan,
                )
                &&& hardware && memory == MemoryKind::Cuda ==> plan == BufferPlan::Allocate(
                    BufferKind::Cuda,
                )
                &&& hardware && memory == (MemoryKind::Dma { fourcc: Some(NV12) }) ==> plan
                    == BufferPlan::Allocate(BufferKind::Converted(PixFmt::Nv12))
                &&& hardware && memory == (MemoryKind::Dma { fourcc: Some(P010) }) ==> plan
                    == BufferPlan::Allocate(BufferKind::Converted(PixFmt::P010))
                &&& hardware && memory is Dma && memory->fourcc != Some(NV12) && memory->fourcc
                    != Some(P010) ==> plan == BufferPlan::Allocate(BufferKind::Dma)
            }
        }),
{
}

/// The buffer in use is kept exactly when there is one, colours are managed, and the new format
/// is the previous one but for its colours.
pub proof fn law_a_buffer_is_kept_for_a_change_of_colours_alone(
    hdr_cm: bool,
    in_use: Option<BufferKind>,
    prev: Option<VideoInfo>,
    new: VideoInfo,
    target: RenderTarget,
    memory: MemoryKind,
)
    ensures
        buffer_plan(hdr_cm, in_use, prev, new, target, memory) is Keep <==> {
            &&& hdr_cm
            &&& in_use is Some
            &&& prev is Some
            &&& prev->0.format == new.format
            &&& prev->0.size.w == new.size.w
            &&& prev->0.size.h == new.size.h
            &&& prev->0.fps_numer == new.fps_numer
            &&& prev->0.fps_denom == new.fps_denom
            &&& prev->0.colorimetry != new.colorimetry
        },
{
}

} // verus!
