//! Scaling two-plane frames on the GPU: a ring of output images, a cache of views on the
//! source images, and for each frame the commands that scale it.
//!
//! A frame is drawn by a compute shader into a scratch image, because an image that can be
//! encoded cannot be written by a shader, and is then copied into an output image. Images, views
//! and formats are named by their Vulkan numbers.

use crate::video::PixFmt;
use vstd::arithmetic::div_mod::{
    lemma_add_mod_noop, lemma_mod_add_multiples_vanish, lemma_mod_self_0, lemma_small_mod,
};
use vstd::prelude::*;

verus! {

/// Vulkan image layouts.
pub const LAYOUT_UNDEFINED: i32 = 0;

pub const LAYOUT_GENERAL: i32 = 1;

pub const LAYOUT_SHADER_READ_ONLY: i32 = 5;

pub const LAYOUT_TRANSFER_SRC: i32 = 6;

pub const LAYOUT_TRANSFER_DST: i32 = 7;

pub const LAYOUT_VIDEO_ENCODE_SRC: i32 = 1_000_299_001;

/// Vulkan access masks.
pub const ACCESS_NONE: u32 = 0;

pub const ACCESS_SHADER_READ: u32 = 0x20;

pub const ACCESS_SHADER_WRITE: u32 = 0x40;

pub const ACCESS_TRANSFER_READ: u32 = 0x800;

pub const ACCESS_TRANSFER_WRITE: u32 = 0x1000;

/// The fewest output images a ring may have. With fewer, an image comes round while the
/// encoder still reads it.
pub const MIN_RING: usize = 4;

/// How many source image sets have their views kept.
pub const MAX_SOURCES: usize = 8;

/// How often an output image that is still in use is looked at again, and the pause between
/// two looks in microseconds.
pub const SLOT_LOOKS: u32 = 10_000;

pub const SLOT_PAUSE: u32 = 100;

/// Why a frame could not be scaled, or a scaler not be built.
#[derive(Debug, Clone, Copy, PartialEq, Eq, Structural)]
pub enum ScalerError {
    /// The input buffer holds no memory.
    NoMemory,
    /// A memory of the input buffer is no Vulkan image.
    NotAnImage { memory: u32 },
    /// The encoder holds on to an output image.
    SlotInUse,
    /// No output buffer could be allocated.
    NoOutput,
    /// The output buffer is no single Vulkan image.
    OutputNotAnImage,
    /// The device failed, with this Vulkan result.
    Device { result: i32 },
}

impl ScalerError {
    /// What is said of the error.
    pub open spec fn words(self) -> Seq<char> {
        match self {
            ScalerError::NoMemory => "vulkanscale: input buffer has no memory"@,
            ScalerError::NotAnImage { memory } => if memory == 0 {
                "vulkanscale: input memory 0 is not a GstVulkanImageMemory"@
            } else {
                "vulkanscale: input memory 1 is not a GstVulkanImageMemory"@
            },
            ScalerError::SlotInUse => "vulkanscale: output slot still referenced after 1s"@,
            ScalerError::NoOutput => "vulkanscale: encode-src output allocation failed"@,
            ScalerError::OutputNotAnImage =>
                "vulkanscale: encode-src output is not a single GstVulkanImageMemory"@,
            ScalerError::Device { .. } => ""@,
        }
    }

    /// The error in words. A failure of the device has words of its own.
    pub fn message(self) -> (text: &'static str)
        ensures
            text@ == (match self {
                ScalerError::NoMemory => "vulkanscale: input buffer has no memory"@,
                ScalerError::NotAnImage { memory } => if memory == 0 {
                    "vulkanscale: input memory 0 is not a GstVulkanImageMemory"@
                } else {
                    "vulkanscale: input memory 1 is not a GstVulkanImageMemory"@
                },
                ScalerError::SlotInUse => "vulkanscale: output slot still referenced after 1s"@,
                ScalerError::NoOutput => "vulkanscale: encode-src output allocation failed"@,
                ScalerError::OutputNotAnImage =>
                    "vulkanscale: encode-src output is not a single GstVulkanImageMemory"@,
                ScalerError::Device { .. } => ""@,
            }),
            text@ == self.words(),
    {
        match self {
            ScalerError::NoMemory => "vulkanscale: input buffer has no memory",
            ScalerError::NotAnImage { memory } => if memory == 0 {
                "vulkanscale: input memory 0 is not a GstVulkanImageMemory"
            } else {
                "vulkanscale: input memory 1 is not a GstVulkanImageMemory"
            },
            ScalerError::SlotInUse => "vulkanscale: output slot still referenced after 1s",
            ScalerError::NoOutput => "vulkanscale: encode-src output allocation failed",
            ScalerError::OutputNotAnImage =>
                "vulkanscale: encode-src output is not a single GstVulkanImageMemory",
            ScalerError::Device { .. } => "",
        }
    }
}

/// How the source is sampled.
#[derive(Debug, Clone, Copy, PartialEq, Eq, Structural)]
pub enum Filter {
    Linear,
    Nearest,
}

/// The part of an image a command speaks of.
#[derive(Debug, Clone, Copy, PartialEq, Eq, Structural)]
pub enum Aspect {
    Color,
    Plane0,
    Plane1,
}

/// The pixel format a view is made with.
#[derive(Debug, Clone, Copy, PartialEq, Eq, Structural)]
pub enum ViewFormat {
    /// The luma plane of a two-plane format.
    Luma(PixFmt),
    /// The chroma plane of a two-plane format.
    Chroma(PixFmt),
    /// The format the image was made with.
    Own(u32),
}

/// A view to make on an image.
#[derive(Debug, Clone, Copy, PartialEq, Eq, Structural)]
pub struct ImageView {
    pub image: u64,
    pub format: ViewFormat,
    pub aspect: Aspect,
}

/// One memory of an input buffer.
#[derive(Debug, Clone, Copy, PartialEq, Eq, Structural)]
pub struct InputMemory {
    /// Its image, if it is a Vulkan image. No image has the number zero.
    pub image: Option<u64>,
    /// The layout its owner keeps it in.
    pub layout: i32,
    /// The pixel format of the image.
    pub format: u32,
}

/// The images of a source. The second is zero for a single image with two planes.
#[derive(Debug, Clone, Copy, PartialEq, Eq, Structural)]
pub struct SourceKey {
    pub first: u64,
    pub second: u64,
}

/// The views on one set of source images.
#[derive(Debug, Clone, Copy, PartialEq, Eq, Structural)]
pub struct SrcViews {
    pub key: SourceKey,
    pub y: u64,
    pub uv: u64,
    /// The layout the images have come in, and go back in.
    pub layout: i32,
    /// One image with two planes, rather than one image for each plane.
    pub multiplanar: bool,
}

/// Views that have still to be made on a set of source images.
#[derive(Debug, Clone, Copy, PartialEq, Eq, Structural)]
pub struct MissingViews {
    pub key: SourceKey,
    pub y: ImageView,
    pub uv: ImageView,
    pub layout: i32,
    pub multiplanar: bool,
}

/// What is known of a source.
#[derive(Debug, Clone, Copy, PartialEq, Eq, Structural)]
pub enum Source {
    Known(SrcViews),
    Missing(MissingViews),
}

/// A change of an image from one layout and use to the next.
#[derive(Debug, Clone, Copy, PartialEq, Eq, Structural)]
pub struct Barrier {
    pub image: u64,
    pub aspect: Aspect,
    pub old_layout: i32,
    pub new_layout: i32,
    pub src_access: u32,
    pub dst_access: u32,
}

/// The copy of one plane from the scratch image to the output image.
#[derive(Debug, Clone, Copy, PartialEq, Eq, Structural)]
pub struct PlaneCopy {
    pub aspect: Aspect,
    pub width: u32,
    pub height: u32,
}

/// The commands that scale a frame, in order.
#[derive(Debug)]
pub struct FramePlan {
    /// Before the shader.
    pub pre: Vec<Barrier>,
    /// The views the shader reads, at its first two bindings.
    pub read_y: u64,
    pub read_uv: u64,
    /// The output size the shader is told, in this order.
    pub push_w: u32,
    pub push_h: u32,
    /// How many groups of the shader run on each axis.
    pub groups_x: u32,
    pub groups_y: u32,
    /// Between the shader and the copy.
    pub post: Vec<Barrier>,
    pub luma: PlaneCopy,
    pub chroma: PlaneCopy,
    /// After the copy.
    pub tail: Vec<Barrier>,
}

/// Whether to go on waiting for an output image.
#[derive(Debug, Clone, Copy, PartialEq, Eq, Structural)]
pub enum SlotWait {
    /// It may be written.
    Ready,
    /// Look again after a pause.
    Pause,
    /// The frame fails, and nothing is written.
    GiveUp(ScalerError),
}

/// What the shader reads beyond the edge of a plane.
#[derive(Debug, Clone, Copy, PartialEq, Eq, Structural)]
pub enum Edge {
    /// The pixels of the edge. A tap at the last row or column mixes in nothing else.
    Clamp,
    /// The pixels of the opposite edge.
    Repeat,
}

/// What the shader finds at one of its bindings.
#[derive(Debug, Clone, Copy, PartialEq, Eq, Structural)]
pub enum Descriptor {
    /// A plane of the source, sampled with the scaler's filter.
    Sampled,
    /// A plane of the scratch image, which the shader writes.
    Storage,
}

/// What a scaler is built from.
#[derive(Debug)]
pub struct ScalerSetup {
    /// The format the shader is written for.
    pub shader: PixFmt,
    pub filter: Filter,
    pub edge: Edge,
    /// The bindings of the shader: luma and chroma to read, luma and chroma to write.
    pub bindings: Vec<Descriptor>,
    /// The bytes that tell the shader the output size: two numbers of four.
    pub push_bytes: u32,
    /// How many output images there are, each with a descriptor set of its own.
    pub sets: u32,
    /// How many descriptors of each kind all the sets take.
    pub sampled: u32,
    pub storage: u32,
}

/// A scaler for one pair of sizes.
#[derive(Debug)]
pub struct VulkanScaler {
    pub dst_w: u32,
    pub dst_h: u32,
    pub fmt: PixFmt,
    pub filter: Filter,
    /// The number of output images.
    pub ring: usize,
    /// The output image of the next frame.
    pub next: usize,
    /// The views there are, oldest first.
    pub src_views: Vec<SrcViews>,
}

/// The bindings of the shader.
pub open spec fn bindings() -> Seq<Descriptor> {
    seq![Descriptor::Sampled, Descriptor::Sampled, Descriptor::Storage, Descriptor::Storage]
}

/// How often `kind` is among `list`.
pub open spec fn count_of(list: Seq<Descriptor>, kind: Descriptor) -> nat {
    list.filter(|d: Descriptor| d == kind).len()
}

proof fn lemma_bindings()
    ensures
        count_of(bindings(), Descriptor::Sampled) == 2,
        count_of(bindings(), Descriptor::Storage) == 2,
{
    reveal_with_fuel(Seq::filter, 5);
    let all = bindings();
    assert(all.drop_last().drop_last().drop_last().drop_last() =~= Seq::empty());
}

/// The images among `key`.
pub open spec fn images(key: SourceKey) -> Seq<u64> {
    if key.first != 0 && key.second != 0 {
        seq![key.first, key.second]
    } else if key.first != 0 {
        seq![key.first]
    } else if key.second != 0 {
        seq![key.second]
    } else {
        Seq::empty()
    }
}

pub open spec fn key_of(views: SrcViews) -> SourceKey {
    views.key
}

/// The keys of `views`, in order.
pub open spec fn keys(views: Seq<SrcViews>) -> Seq<SourceKey> {
    views.map_values(|v: SrcViews| key_of(v))
}

/// What a buffer of `memories` is as a source. One memory is an image with two planes, two or
/// more are an image for each plane.
pub open spec fn missing_views(memories: Seq<InputMemory>, fmt: PixFmt) -> MissingViews {
    let first = memories[0];
    if memories.len() == 1 {
        MissingViews {
            key: SourceKey { first: first.image->0, second: 0 },
            y: ImageView {
                image: first.image->0,
                format: ViewFormat::Luma(fmt),
                aspect: Aspect::Plane0,
            },
            uv: ImageView {
                image: first.image->0,
                format: ViewFormat::Chroma(fmt),
                aspect: Aspect::Plane1,
            },
            layout: first.layout,
            multiplanar: true,
        }
    } else {
        let second = memories[1];
        MissingViews {
            key: SourceKey { first: first.image->0, second: second.image->0 },
            y: ImageView {
                image: first.image->0,
                format: ViewFormat::Own(first.format),
                aspect: Aspect::Color,
            },
            uv: ImageView {
                image: second.image->0,
                format: ViewFormat::Own(second.format),
                aspect: Aspect::Color,
            },
            layout: first.layout,
            multiplanar: false,
        }
    }
}

/// Why a buffer of `memories` cannot be a source, if it cannot.
pub open spec fn source_error(memories: Seq<InputMemory>) -> Option<ScalerError> {
    if memories.len() == 0 {
        Some(ScalerError::NoMemory)
    } else if memories[0].image is None {
        Some(ScalerError::NotAnImage { memory: 0 })
    } else if memories.len() > 1 && memories[1].image is None {
        Some(ScalerError::NotAnImage { memory: 1 })
    } else {
        None
    }
}

/// The second memory does not name its image by zero, which stands for there being none.
pub open spec fn second_is_image(memories: Seq<InputMemory>) -> bool {
    memories.len() > 1 ==> memories[1].image != Some(0u64)
}

/// Whether the flag of a set of views says what its key says: a second image, or none.
pub open spec fn planes_by_key(views: SrcViews) -> bool {
    views.multiplanar == (views.key.second == 0)
}

/// What is known of the source `missing` describes, when `views` are kept. The views are those
/// made on its images before; the layout is the one it comes in now.
pub open spec fn found(views: Seq<SrcViews>, missing: MissingViews) -> Source {
    if keys(views).contains(missing.key) {
        let kept = views[keys(views).index_of(missing.key)];
        Source::Known(SrcViews { layout: missing.layout, ..kept })
    } else {
        Source::Missing(missing)
    }
}

/// The views after one more set of them is kept: the oldest goes when there is no room.
pub open spec fn kept_with(views: Seq<SrcViews>, new: SrcViews) -> Seq<SrcViews> {
    if views.len() >= MAX_SOURCES {
        views.drop_first().push(new)
    } else {
        views.push(new)
    }
}

/// The output image that follows `slot`.
pub open spec fn slot_after(slot: int, ring: int) -> int {
    (slot + 1) % ring
}

/// The output image of the frame that comes `frames` after the one that has `slot`.
pub open spec fn slot_later(slot: int, ring: int, frames: nat) -> int
    decreases frames,
{
    if frames == 0 {
        slot
    } else {
        slot_after(slot_later(slot, ring, (frames - 1) as nat), ring)
    }
}

pub open spec fn barrier(
    image: u64,
    aspect: Aspect,
    layouts: (i32, i32),
    access: (u32, u32),
) -> Barrier {
    Barrier {
        image,
        aspect,
        old_layout: layouts.0,
        new_layout: layouts.1,
        src_access: access.0,
        dst_access: access.1,
    }
}

/// The same change for both planes of an image.
pub open spec fn both_planes(image: u64, layouts: (i32, i32), access: (u32, u32)) -> Seq<Barrier> {
    seq![
        barrier(image, Aspect::Plane0, layouts, access),
        barrier(image, Aspect::Plane1, layouts, access),
    ]
}

/// The same change for each of some whole images.
pub open spec fn whole_images(all: Seq<u64>, layouts: (i32, i32), access: (u32, u32)) -> Seq<
    Barrier,
> {
    all.map_values(|image: u64| barrier(image, Aspect::Color, layouts, access))
}

/// Before the shader: the sources become readable, the scratch image writable.
pub open spec fn before_shader(src: SrcViews, scratch: u64) -> Seq<Barrier> {
    whole_images(
        images(src.key),
        (src.layout, LAYOUT_SHADER_READ_ONLY),
        (ACCESS_NONE, ACCESS_SHADER_READ),
    ) + both_planes(
        scratch,
        (LAYOUT_UNDEFINED, LAYOUT_GENERAL),
        (ACCESS_NONE, ACCESS_SHADER_WRITE),
    )
}

/// Before the copy: from the scratch image to the output image.
pub open spec fn before_copy(scratch: u64, output: u64) -> Seq<Barrier> {
    both_planes(
        scratch,
        (LAYOUT_GENERAL, LAYOUT_TRANSFER_SRC),
        (ACCESS_SHADER_WRITE, ACCESS_TRANSFER_READ),
    ) + both_planes(
        output,
        (LAYOUT_UNDEFINED, LAYOUT_TRANSFER_DST),
        (ACCESS_NONE, ACCESS_TRANSFER_WRITE),
    )
}

/// At the end: the output can be encoded, and the sources are back in their owner's layout.
pub open spec fn after_copy(src: SrcViews, output: u64) -> Seq<Barrier> {
    both_planes(
        output,
        (LAYOUT_TRANSFER_DST, LAYOUT_VIDEO_ENCODE_SRC),
        (ACCESS_TRANSFER_WRITE, ACCESS_NONE),
    ) + if src.layout == LAYOUT_SHADER_READ_ONLY {
        Seq::empty()
    } else {
        whole_images(
            images(src.key),
            (LAYOUT_SHADER_READ_ONLY, src.layout),
            (ACCESS_SHADER_READ, ACCESS_NONE),
        )
    }
}

/// Groups of eight by eight threads, each of which draws two by two pixels.
pub open spec fn groups(pixels: u32) -> int {
    (pixels + 15) / 16
}

fn push_both_planes(
    list: &mut Vec<Barrier>,
    image: u64,
    layouts: (i32, i32),
    access: (u32, u32),
)
    ensures
        final(list)@ == old(list)@ + both_planes(image, layouts, access),
{
    let plane = Barrier {
        image,
        aspect: Aspect::Plane0,
        old_layout: layouts.0,
        new_layout: layouts.1,
        src_access: access.0,
        dst_access: access.1,
    };
    list.push(plane);
    list.push(Barrier { aspect: Aspect::Plane1, ..plane });
    assert(list@ =~= old(list)@ + both_planes(image, layouts, access));
}

fn push_images(
    list: &mut Vec<Barrier>,
    key: SourceKey,
    layouts: (i32, i32),
    access: (u32, u32),
)
    ensures
        final(list)@ == old(list)@ + whole_images(images(key), layouts, access),
{
    let whole = Barrier {
        image: key.first,
        aspect: Aspect::Color,
        old_layout: layouts.0,
        new_layout: layouts.1,
        src_access: access.0,
        dst_access: access.1,
    };
    if key.first != 0 {
        list.push(whole);
    }
    if key.second != 0 {
        list.push(Barrier { image: key.second, ..whole });
    }
    assert(list@ =~= old(list)@ + whole_images(images(key), layouts, access));
}

fn group_count(pixels: u32) -> (n: u32)
    ensures
        n == groups(pixels),
{
    let pairs: u32 = pixels / 2 + pixels % 2;
    if pairs % 8 == 0 {
        pairs / 8
    } else {
        pairs / 8 + 1
    }
}

/// What to do at one look at an output image, which has been found in use `looks` times before.
pub open spec fn look(free: bool, looks: nat) -> SlotWait {
    if free {
        SlotWait::Ready
    } else if looks >= SLOT_LOOKS {
        SlotWait::GiveUp(ScalerError::SlotInUse)
    } else {
        SlotWait::Pause
    }
}

/// Where a wait stands after the looks that found its image free or in use as `found_free`
/// says. Nothing is looked at once the wait is over.
pub open spec fn waited(found_free: Seq<bool>) -> SlotWait
    decreases found_free.len(),
{
    if found_free.len() == 0 {
        SlotWait::Pause
    } else {
        match waited(found_free.drop_last()) {
            SlotWait::Pause => look(found_free.last(), (found_free.len() - 1) as nat),
            over => over,
        }
    }
}

/// Whether an output image may be written: `free` is whether the encoder has let go of it, and
/// `looks` how often it has been found in use.
pub fn slot_wait(free: bool, looks: u32) -> (wait: SlotWait)
    ensures
        wait == look(free, looks as nat),
{
    if free {
        SlotWait::Ready
    } else if looks >= SLOT_LOOKS {
        SlotWait::GiveUp(ScalerError::SlotInUse)
    } else {
        SlotWait::Pause
    }
}

/// What comes of a new output buffer.
pub open spec fn new_output(allocated: bool, image: Option<u64>) -> Result<u64, ScalerError> {
    if !allocated {
        Err(ScalerError::NoOutput)
    } else {
        match image {
            Some(image) => Ok(image),
            None => Err(ScalerError::OutputNotAnImage),
        }
    }
}

/// The image of a new output buffer. `allocated` is whether there is a buffer, and `image` the
/// one image it consists of.
pub fn create_out(allocated: bool, image: Option<u64>) -> (out: Result<u64, ScalerError>)
    ensures
        out == (if !allocated {
            Err::<u64, ScalerError>(ScalerError::NoOutput)
        } else {
            match image {
                Some(image) => Ok::<u64, ScalerError>(image),
                None => Err::<u64, ScalerError>(ScalerError::OutputNotAnImage),
            }
        }),
        out == new_output(allocated, image),
{
    if !allocated {
        return Err(ScalerError::NoOutput);
    }
    match image {
        Some(image) => Ok(image),
        None => Err(ScalerError::OutputNotAnImage),
    }
}

impl VulkanScaler {
    pub open spec fn wf(self) -> bool {
        &&& MIN_RING <= self.ring
        &&& self.next < self.ring
        &&& self.src_views@.len() <= MAX_SOURCES
        &&& keys(self.src_views@).no_duplicates()
        &&& forall|i: int|
            0 <= i < self.src_views@.len() ==> planes_by_key(#[trigger] self.src_views@[i])
    }

    /// This is a scaler to `dst_w` by `dst_h` as it is made, before the first frame.
    pub open spec fn is_fresh(
        self,
        dst_w: u32,
        dst_h: u32,
        fmt: PixFmt,
        nearest: bool,
        ring: usize,
    ) -> bool {
        &&& self.dst_w == dst_w
        &&& self.dst_h == dst_h
        &&& self.fmt == fmt
        &&& self.filter == (if nearest {
            Filter::Nearest
        } else {
            Filter::Linear
        })
        &&& self.ring == (if ring >= MIN_RING {
            ring
        } else {
            MIN_RING
        })
        &&& self.next == 0
        &&& self.src_views@.len() == 0
    }

    /// `setup` is what this scaler is built from.
    pub open spec fn is_built_from(self, setup: ScalerSetup) -> bool {
        &&& setup.shader == self.fmt
        &&& setup.filter == self.filter
        &&& setup.edge == Edge::Clamp
        &&& setup.bindings@ == bindings()
        &&& setup.push_bytes == 8
        &&& setup.sets == self.ring
        &&& setup.sampled == count_of(bindings(), Descriptor::Sampled) * self.ring
        &&& setup.storage == count_of(bindings(), Descriptor::Storage) * self.ring
    }

    /// `plan` scales a frame from `src` over `scratch` into `output`.
    pub open spec fn is_scaled_by(
        self,
        src: SrcViews,
        scratch: u64,
        output: u64,
        plan: FramePlan,
    ) -> bool {
        &&& plan.pre@ == before_shader(src, scratch)
        &&& plan.read_y == src.y
        &&& plan.read_uv == src.uv
        &&& plan.push_w == self.dst_w
        &&& plan.push_h == self.dst_h
        &&& plan.groups_x == groups(self.dst_w)
        &&& plan.groups_y == groups(self.dst_h)
        &&& plan.post@ == before_copy(scratch, output)
        &&& plan.luma == (PlaneCopy {
            aspect: Aspect::Plane0,
            width: self.dst_w,
            height: self.dst_h,
        })
        &&& plan.chroma == (PlaneCopy {
            aspect: Aspect::Plane1,
            width: self.dst_w / 2,
            height: self.dst_h / 2,
        })
        &&& plan.tail@ == after_copy(src, output)
    }

    /// `after` is this scaler once views `y` and `uv` were made on the source `missing`
    /// describes; `kept` is what it keeps of them, and `gone` what it lets go of.
    pub open spec fn has_kept(
        self,
        missing: MissingViews,
        y: u64,
        uv: u64,
        after: VulkanScaler,
        kept: SrcViews,
        gone: Option<SrcViews>,
    ) -> bool {
        &&& kept == (SrcViews {
            key: missing.key,
            y,
            uv,
            layout: missing.layout,
            multiplanar: missing.multiplanar,
        })
        &&& after.src_views@ == kept_with(self.src_views@, kept)
        &&& gone == (if self.src_views@.len() >= MAX_SOURCES {
            Some(self.src_views@[0])
        } else {
            None
        })
        &&& after == (VulkanScaler { src_views: after.src_views, ..self })
    }

    /// A scaler to `dst_w` by `dst_h` that has no source yet.
    pub fn new(dst_w: u32, dst_h: u32, fmt: PixFmt, nearest: bool, ring: usize) -> (scaler:
        VulkanScaler)
        ensures
            scaler.wf(),
            scaler.dst_w == dst_w,
            scaler.dst_h == dst_h,
            scaler.fmt == fmt,
            scaler.filter == (if nearest {
                Filter::Nearest
            } else {
                Filter::Linear
            }),
            scaler.ring == (if ring >= MIN_RING {
                ring
            } else {
                MIN_RING
            }),
            scaler.next == 0,
            scaler.src_views@.len() == 0,
            scaler.is_fresh(dst_w, dst_h, fmt, nearest, ring),
    {
        let filter = if nearest {
            Filter::Nearest
        } else {
            Filter::Linear
        };
        let ring: usize = if ring >= MIN_RING {
            ring
        } else {
            MIN_RING
        };
        VulkanScaler { dst_w, dst_h, fmt, filter, ring, next: 0, src_views: Vec::new() }
    }

    /// What to build the scaler from.
    pub fn setup(&self) -> (setup: ScalerSetup)
        requires
            2 * self.ring <= u32::MAX,
        ensures
            setup.shader == self.fmt,
            setup.filter == self.filter,
            setup.edge == Edge::Clamp,
            setup.bindings@ == bindings(),
            setup.push_bytes == 8,
            setup.sets == self.ring,
            setup.sampled == count_of(bindings(), Descriptor::Sampled) * self.ring,
            setup.storage == count_of(bindings(), Descriptor::Storage) * self.ring,
            self.is_built_from(setup),
    {
        let mut list: Vec<Descriptor> = Vec::new();
        list.push(Descriptor::Sampled);
        list.push(Descriptor::Sampled);
        list.push(Descriptor::Storage);
        list.push(Descriptor::Storage);
        let sets: u32 = self.ring as u32;
        proof {
            assert(list@ =~= bindings());
            lemma_bindings();
        }
        ScalerSetup {
            shader: self.fmt,
            filter: self.filter,
            edge: Edge::Clamp,
            bindings: list,
            push_bytes: 8,
            sets,
            sampled: 2 * sets,
            storage: 2 * sets,
        }
    }

    /// Find the views on a source, or say which are still to be made. Views are kept by image,
    /// but the layout is always the one the memory is in now: that is the one to come from and
    /// to go back to.
    pub fn source(&self, memories: &Vec<InputMemory>) -> (source: Result<Source, ScalerError>)
        requires
            self.wf(),
            second_is_image(memories@),
        ensures
            source == (match source_error(memories@) {
                Some(e) => Err::<Source, ScalerError>(e),
                None => Ok::<Source, ScalerError>(
                    found(self.src_views@, missing_views(memories@, self.fmt)),
                ),
            }),
            source matches Ok(Source::Known(views)) ==> {
                &&& views.key == missing_views(memories@, self.fmt).key
                &&& views.layout == memories@[0].layout
                &&& views.multiplanar == (memories@.len() == 1)
            },
            source matches Ok(Source::Missing(missing)) ==> {
                &&& missing.layout == memories@[0].layout
                &&& missing.multiplanar == (memories@.len() == 1)
                &&& missing.multiplanar == (missing.key.second == 0)
            },
            source matches Ok(Source::Missing(missing)) ==> {
                let first = memories@[0];
                &&& first.image == Some(missing.key.first)
                &&& missing.y.image == missing.key.first
                &&& memories@.len() == 1 ==> {
                    &&& missing.key.second == 0
                    &&& missing.y.format == ViewFormat::Luma(self.fmt)
                    &&& missing.y.aspect == Aspect::Plane0
                    &&& missing.uv.image == missing.key.first
                    &&& missing.uv.format == ViewFormat::Chroma(self.fmt)
                    &&& missing.uv.aspect == Aspect::Plane1
                }
                &&& memories@.len() > 1 ==> {
                    &&& memories@[1].image == Some(missing.key.second)
                    &&& missing.y.format == ViewFormat::Own(first.format)
                    &&& missing.y.aspect == Aspect::Color
                    &&& missing.uv.image == missing.key.second
                    &&& missing.uv.format == ViewFormat::Own(memories@[1].format)
                    &&& missing.uv.aspect == Aspect::Color
                }
            },
            source is Err <==> memories@.len() == 0 || memories@[0].image is None || (
            memories@.len() > 1 && memories@[1].image is None),
            source matches Err(e) ==> {
                &&& e == ScalerError::NoMemory <==> memories@.len() == 0
                &&& e == (ScalerError::NotAnImage { memory: 0 }) <==> memories@.len() > 0
                    && memories@[0].image is None
                &&& e == (ScalerError::NotAnImage { memory: 1 }) <==> memories@.len() > 1
                    && memories@[0].image is Some && memories@[1].image is None
            },
    {
        let n: usize = memories.len();
        if n == 0 {
            return Err(ScalerError::NoMemory);
        }
        let first = memories[0];
        let img0: u64 = match first.image {
            Some(image) => image,
            None => {
                return Err(ScalerError::NotAnImage { memory: 0 });
            },
        };
        let missing = if n == 1 {
            MissingViews {
                key: SourceKey { first: img0, second: 0 },
                y: ImageView {
                    image: img0,
                    format: ViewFormat::Luma(self.fmt),
                    aspect: Aspect::Plane0,
                },
                uv: ImageView {
                    image: img0,
                    format: ViewFormat::Chroma(self.fmt),
                    aspect: Aspect::Plane1,
                },
                layout: first.layout,
                multiplanar: true,
            }
        } else {
            let second = memories[1];
            let img1: u64 = match second.image {
                Some(image) => image,
                None => {
                    return Err(ScalerError::NotAnImage { memory: 1 });
                },
            };
            MissingViews {
                key: SourceKey { first: img0, second: img1 },
                y: ImageView {
                    image: img0,
                    format: ViewFormat::Own(first.format),
                    aspect: Aspect::Color,
                },
                uv: ImageView {
                    image: img1,
                    format: ViewFormat::Own(second.format),
                    aspect: Aspect::Color,
                },
                layout: first.layout,
                multiplanar: false,
            }
        };
        let count: usize = self.src_views.len();
        let mut i: usize = 0;
        while i < count
            invariant
                count == self.src_views@.len(),
                i <= count,
                missing == missing_views(memories@, self.fmt),
                source_error(memories@) is None,
                missing.multiplanar == (memories@.len() == 1),
                missing.multiplanar == (missing.key.second == 0),
                missing.layout == memories@[0].layout,
                self.wf(),
                forall|k: int| 0 <= k < i ==> key_of(#[trigger] self.src_views@[k]) != missing.key,
            decreases count - i,
        {
            let views = self.src_views[i];
            if views.key == missing.key {
                proof {
                    assert(self.src_views@[i as int] == views);
                    let all = keys(self.src_views@);
                    assert(all[i as int] == missing.key);
                    assert(all[all.index_of(missing.key)] == missing.key);
                }
                return Ok(Source::Known(SrcViews { layout: missing.layout, ..views }));
            }
            i += 1;
        }
        proof {
            if keys(self.src_views@).contains(missing.key) {
                let k = keys(self.src_views@).index_of(missing.key);
                assert(key_of(self.src_views@[k]) == missing.key);
            }
        }
        Ok(Source::Missing(missing))
    }

    /// Keep the views that have been made on a source. Returns views that are to be destroyed
    /// in their stead: kept for longer, they would pin images that are gone.
    pub fn keep_views(&mut self, missing: MissingViews, y: u64, uv: u64) -> (kept: (
        SrcViews,
        Option<SrcViews>,
    ))
        requires
            old(self).wf(),
            !keys(old(self).src_views@).contains(missing.key),
            missing.multiplanar == (missing.key.second == 0),
        ensures
            final(self).wf(),
            kept.0 == (SrcViews {
                key: missing.key,
                y,
                uv,
                layout: missing.layout,
                multiplanar: missing.multiplanar,
            }),
            final(self).src_views@ == kept_with(old(self).src_views@, kept.0),
            kept.1 == (if old(self).src_views@.len() >= MAX_SOURCES {
                Some(old(self).src_views@[0])
            } else {
                None
            }),
            *final(self) == (VulkanScaler { src_views: final(self).src_views, ..*old(self) }),
            old(self).has_kept(missing, y, uv, *final(self), kept.0, kept.1),
    {
        let views = SrcViews {
            key: missing.key,
            y,
            uv,
            layout: missing.layout,
            multiplanar: missing.multiplanar,
        };
        let ghost all = keys(self.src_views@);
        let gone = if self.src_views.len() >= MAX_SOURCES {
            Some(self.src_views.remove(0))
        } else {
            None
        };
        let ghost left = keys(self.src_views@);
        self.src_views.push(views);
        proof {
            assert forall|i: int| 0 <= i < self.src_views@.len() implies planes_by_key(
                #[trigger] self.src_views@[i],
            ) by {
                if i < left.len() {
                    if gone is Some {
                        assert(self.src_views@[i] == old(self).src_views@[i + 1]);
                    } else {
                        assert(self.src_views@[i] == old(self).src_views@[i]);
                    }
                }
            }
            if gone is Some {
                assert(self.src_views@ =~= old(self).src_views@.drop_first().push(views));
                assert(left =~= all.drop_first());
            } else {
                assert(left =~= all);
            }
            assert(keys(self.src_views@) =~= left.push(views.key));
            assert forall|i: int, j: int| 0 <= i < j < left.len() implies left[i] != left[j] by {
                if gone is Some {
                    assert(all[i + 1] != all[j + 1]);
                } else {
                    assert(all[i] != all[j]);
                }
            }
            assert forall|i: int| 0 <= i < left.len() implies left[i] != views.key by {
                if gone is Some {
                    assert(all.contains(all[i + 1]));
                } else {
                    assert(all.contains(all[i]));
                }
            }
        }
        (views, gone)
    }

    /// Take the output image of the next frame. The images are taken in turn, also after a
    /// frame that could not be finished.
    pub fn take_slot(&mut self) -> (slot: usize)
        requires
            old(self).wf(),
        ensures
            final(self).wf(),
            slot == old(self).next,
            slot < old(self).ring,
            slot + 1 < old(self).ring ==> final(self).next == slot + 1,
            slot + 1 == old(self).ring ==> final(self).next == 0,
            final(self).next == slot_after(slot as int, old(self).ring as int),
            *final(self) == (VulkanScaler { next: final(self).next, ..*old(self) }),
    {
        let slot: usize = self.next;
        self.next = if slot + 1 == self.ring {
            0
        } else {
            slot + 1
        };
        proof {
            if slot + 1 < self.ring {
                lemma_small_mod((slot + 1) as nat, self.ring as nat);
            } else {
                lemma_mod_self_0(self.ring as int);
            }
        }
        slot
    }

    /// The commands that scale a frame from `src` over `scratch` into `output`.
    pub fn scale(&self, src: SrcViews, scratch: u64, output: u64) -> (plan: FramePlan)
        ensures
            plan.pre@ == before_shader(src, scratch),
            plan.read_y == src.y,
            plan.read_uv == src.uv,
            plan.push_w == self.dst_w,
            plan.push_h == self.dst_h,
            plan.groups_x == groups(self.dst_w),
            plan.groups_y == groups(self.dst_h),
            plan.post@ == before_copy(scratch, output),
            plan.luma == (PlaneCopy {
                aspect: Aspect::Plane0,
                width: self.dst_w,
                height: self.dst_h,
            }),
            plan.chroma == (PlaneCopy {
                aspect: Aspect::Plane1,
                width: self.dst_w / 2,
                height: self.dst_h / 2,
            }),
            plan.tail@ == after_copy(src, output),
            self.is_scaled_by(src, scratch, output, plan),
    {
        let mut pre: Vec<Barrier> = Vec::new();
        push_images(
            &mut pre,
            src.key,
            (src.layout, LAYOUT_SHADER_READ_ONLY),
            (ACCESS_NONE, ACCESS_SHADER_READ),
        );
        push_both_planes(
            &mut pre,
            scratch,
            (LAYOUT_UNDEFINED, LAYOUT_GENERAL),
            (ACCESS_NONE, ACCESS_SHADER_WRITE),
        );
        let mut post: Vec<Barrier> = Vec::new();
        push_both_planes(
            &mut post,
            scratch,
            (LAYOUT_GENERAL, LAYOUT_TRANSFER_SRC),
            (ACCESS_SHADER_WRITE, ACCESS_TRANSFER_READ),
        );
        push_both_planes(
            &mut post,
            output,
            (LAYOUT_UNDEFINED, LAYOUT_TRANSFER_DST),
            (ACCESS_NONE, ACCESS_TRANSFER_WRITE),
        );
        let mut tail: Vec<Barrier> = Vec::new();
        push_both_planes(
            &mut tail,
            output,
            (LAYOUT_TRANSFER_DST, LAYOUT_VIDEO_ENCODE_SRC),
            (ACCESS_TRANSFER_WRITE, ACCESS_NONE),
        );
        if src.layout != LAYOUT_SHADER_READ_ONLY {
            push_images(
                &mut tail,
                src.key,
                (LAYOUT_SHADER_READ_ONLY, src.layout),
                (ACCESS_SHADER_READ, ACCESS_NONE),
            );
        }
        proof {
            assert(pre@ =~= before_shader(src, scratch));
            assert(post@ =~= before_copy(scratch, output));
            assert(tail@ =~= after_copy(src, output));
        }
        FramePlan {
            pre,
            read_y: src.y,
            read_uv: src.uv,
            push_w: self.dst_w,
            push_h: self.dst_h,
            groups_x: group_count(self.dst_w),
            groups_y: group_count(self.dst_h),
            post,
            luma: PlaneCopy { aspect: Aspect::Plane0, width: self.dst_w, height: self.dst_h },
            chroma: PlaneCopy {
                aspect: Aspect::Plane1,
                width: self.dst_w / 2,
                height: self.dst_h / 2,
            },
            tail,
        }
    }
}

/// Each output image comes round after exactly as many frames as the ring has images, so the
/// encoder has that long to let go of it.
pub proof fn law_an_output_image_comes_round_after_the_whole_ring(slot: int, ring: int, frames: nat)
    requires
        0 <= slot < ring,
        0 < frames < ring,
    ensures
        slot_later(slot, ring, frames) != slot,
        slot_later(slot, ring, ring as nat) == slot,
{
    lemma_slot_later(slot, ring, frames);
    lemma_slot_later(slot, ring, ring as nat);
    lemma_small_mod(slot as nat, ring as nat);
    lemma_mod_add_multiples_vanish(slot, ring);
    if slot + frames < ring {
        lemma_small_mod((slot + frames) as nat, ring as nat);
    } else {
        lemma_small_mod((slot + frames - ring) as nat, ring as nat);
        lemma_mod_add_multiples_vanish(slot + frames - ring, ring);
    }
}

proof fn lemma_slot_later(slot: int, ring: int, frames: nat)
    requires
        0 <= slot < ring,
    ensures
        slot_later(slot, ring, frames) == (slot + frames) % ring,
    decreases frames,
{
    if frames == 0 {
        lemma_small_mod(slot as nat, ring as nat);
    } else {
        lemma_slot_later(slot, ring, (frames - 1) as nat);
        let before = slot + frames - 1;
        lemma_add_mod_noop(before, 1, ring);
        lemma_add_mod_noop(before % ring, 1, ring);
        lemma_small_mod((before % ring) as nat, ring as nat);
    }
}

/// The layout each part of each image is in.
pub type Layouts = Map<(u64, Aspect), i32>;

/// A barrier may be recorded when it names the layout its image is in, or gives up the content.
pub open spec fn legal(layouts: Layouts, b: Barrier) -> bool {
    b.old_layout == LAYOUT_UNDEFINED || (layouts.dom().contains((b.image, b.aspect))
        && layouts[(b.image, b.aspect)] == b.old_layout)
}

pub open spec fn all_legal(layouts: Layouts, list: Seq<Barrier>) -> bool
    decreases list.len(),
{
    list.len() == 0 || (all_legal(layouts, list.drop_last()) && legal(
        after_barriers(layouts, list.drop_last()),
        list.last(),
    ))
}

/// The layouts once all of `list` has taken effect.
pub open spec fn after_barriers(layouts: Layouts, list: Seq<Barrier>) -> Layouts
    decreases list.len(),
{
    if list.len() == 0 {
        layouts
    } else {
        let b = list.last();
        after_barriers(layouts, list.drop_last()).insert((b.image, b.aspect), b.new_layout)
    }
}

/// Both planes of `image` are in `layout`.
pub open spec fn planes_in(layouts: Layouts, image: u64, layout: i32) -> bool {
    &&& layouts.dom().contains((image, Aspect::Plane0))
    &&& layouts.dom().contains((image, Aspect::Plane1))
    &&& layouts[(image, Aspect::Plane0)] == layout
    &&& layouts[(image, Aspect::Plane1)] == layout
}

/// All of `all` are in `layout`.
pub open spec fn images_in(layouts: Layouts, all: Seq<u64>, layout: i32) -> bool {
    forall|i: int|
        0 <= i < all.len() ==> layouts.dom().contains((#[trigger] all[i], Aspect::Color))
            && layouts[(all[i], Aspect::Color)] == layout
}

/// `after` differs from `before` only in the whole images `all`.
pub open spec fn same_elsewhere(before: Layouts, after: Layouts, all: Seq<u64>) -> bool {
    forall|at: (u64, Aspect)|
        !(at.1 is Color && all.contains(at.0)) ==> #[trigger] after.dom().contains(at)
            == before.dom().contains(at) && after[at] == before[at]
}

proof fn lemma_both_planes(
    layouts: Layouts,
    image: u64,
    change: (i32, i32),
    access: (u32, u32),
)
    ensures
        ({
            let list = both_planes(image, change, access);
            let end = layouts.insert((image, Aspect::Plane0), change.1).insert(
                (image, Aspect::Plane1),
                change.1,
            );
            &&& after_barriers(layouts, list) == end
            &&& change.0 == LAYOUT_UNDEFINED || planes_in(layouts, image, change.0) ==> all_legal(
                layouts,
                list,
            )
        }),
{
    let list = both_planes(image, change, access);
    let first = list.drop_last();
    assert(first.drop_last() =~= Seq::empty());
    assert(first.last() == barrier(image, Aspect::Plane0, change, access));
    assert(list.last() == barrier(image, Aspect::Plane1, change, access));
    reveal_with_fuel(after_barriers, 3);
    reveal_with_fuel(all_legal, 3);
}

/// The changes of some distinct whole images: which layouts they end in, and that nothing
/// else is touched.
proof fn lemma_whole_images(
    layouts: Layouts,
    all: Seq<u64>,
    change: (i32, i32),
    access: (u32, u32),
)
    requires
        all.no_duplicates(),
        images_in(layouts, all, change.0),
    ensures
        ({
            let list = whole_images(all, change, access);
            let end = after_barriers(layouts, list);
            &&& all_legal(layouts, list)
            &&& images_in(end, all, change.1)
            &&& same_elsewhere(layouts, end, all)
        }),
    decreases all.len(),
{
    let list = whole_images(all, change, access);
    if all.len() > 0 {
        let rest = all.drop_last();
        let last = all.last();
        assert(list.drop_last() =~= whole_images(rest, change, access));
        assert forall|i: int| 0 <= i < rest.len() implies layouts.dom().contains(
            (#[trigger] rest[i], Aspect::Color),
        ) && layouts[(rest[i], Aspect::Color)] == change.0 by {
            assert(rest[i] == all[i]);
        }
        lemma_whole_images(layouts, rest, change, access);
        let middle = after_barriers(layouts, list.drop_last());
        assert(!rest.contains(last)) by {
            if rest.contains(last) {
                let k = rest.index_of(last);
                assert(all[k] == all[all.len() - 1]);
            }
        }
        assert(all[all.len() - 1] == last);
        assert(middle.dom().contains((last, Aspect::Color)));
        assert(list.last() == barrier(last, Aspect::Color, change, access));
        assert(legal(middle, list.last()));
        let end = after_barriers(layouts, list);
        assert forall|i: int| 0 <= i < all.len() implies end.dom().contains(
            (#[trigger] all[i], Aspect::Color),
        ) && end[(all[i], Aspect::Color)] == change.1 by {
            if i < rest.len() {
                assert(rest[i] == all[i]);
            }
        }
        assert(images_in(end, all, change.1));
        assert forall|at: (u64, Aspect)|
            !(at.1 is Color && all.contains(at.0)) implies #[trigger] end.dom().contains(at)
            == layouts.dom().contains(at) && end[at] == layouts[at] by {
            if at.1 is Color {
                assert(!rest.contains(at.0)) by {
                    if rest.contains(at.0) {
                        let k = rest.index_of(at.0);
                        assert(all[k] == at.0);
                    }
                }
                assert(at.0 != last);
            }
            assert(middle.dom().contains(at) == layouts.dom().contains(at));
        }
        assert(same_elsewhere(layouts, end, all));
        assert(all_legal(layouts, list));
    } else {
        assert(after_barriers(layouts, list) == layouts);
        assert(all_legal(layouts, list));
        assert(same_elsewhere(layouts, layouts, all));
    }
}

/// What happens after one list of barriers is what happens after its two parts in turn.
proof fn lemma_in_turn(layouts: Layouts, a: Seq<Barrier>, b: Seq<Barrier>)
    ensures
        after_barriers(layouts, a + b) == after_barriers(after_barriers(layouts, a), b),
        all_legal(layouts, a + b) <==> all_legal(layouts, a) && all_legal(
            after_barriers(layouts, a),
            b,
        ),
    decreases b.len(),
{
    if b.len() == 0 {
        assert(a + b =~= a);
    } else {
        assert((a + b).drop_last() =~= a + b.drop_last());
        lemma_in_turn(layouts, a, b.drop_last());
    }
}

/// From sources in the layout their owner keeps them in, every barrier of a frame names the
/// layout its image is in. The shader reads readable sources and writes a writable scratch
/// image, the copy goes between images laid out for it, and in the end the output can be
/// encoded and the sources are back as they came.
pub proof fn law_layouts_are_followed_and_restored(
    layouts: Layouts,
    src: SrcViews,
    scratch: u64,
    output: u64,
)
    requires
        scratch != output,
        !images(src.key).contains(scratch),
        !images(src.key).contains(output),
        src.key.first != src.key.second,
        images_in(layouts, images(src.key), src.layout),
    ensures
        ({
            let drawing = after_barriers(layouts, before_shader(src, scratch));
            let copying = after_barriers(drawing, before_copy(scratch, output));
            let end = after_barriers(copying, after_copy(src, output));
            &&& all_legal(layouts, before_shader(src, scratch))
            &&& images_in(drawing, images(src.key), LAYOUT_SHADER_READ_ONLY)
            &&& planes_in(drawing, scratch, LAYOUT_GENERAL)
            &&& all_legal(drawing, before_copy(scratch, output))
            &&& planes_in(copying, scratch, LAYOUT_TRANSFER_SRC)
            &&& planes_in(copying, output, LAYOUT_TRANSFER_DST)
            &&& all_legal(copying, after_copy(src, output))
            &&& planes_in(end, output, LAYOUT_VIDEO_ENCODE_SRC)
            &&& images_in(end, images(src.key), src.layout)
        }),
{
    let all = images(src.key);
    assert(all.no_duplicates());
    let read = (src.layout, LAYOUT_SHADER_READ_ONLY);
    let reading = (ACCESS_NONE, ACCESS_SHADER_READ);
    let sources = whole_images(all, read, reading);
    lemma_whole_images(layouts, all, read, reading);
    let readable = after_barriers(layouts, sources);
    let write = (LAYOUT_UNDEFINED, LAYOUT_GENERAL);
    let writing = (ACCESS_NONE, ACCESS_SHADER_WRITE);
    lemma_both_planes(readable, scratch, write, writing);
    lemma_in_turn(layouts, sources, both_planes(scratch, write, writing));
    let drawing = after_barriers(layouts, before_shader(src, scratch));

    let from = (LAYOUT_GENERAL, LAYOUT_TRANSFER_SRC);
    let from_access = (ACCESS_SHADER_WRITE, ACCESS_TRANSFER_READ);
    lemma_both_planes(drawing, scratch, from, from_access);
    let half = after_barriers(drawing, both_planes(scratch, from, from_access));
    let to = (LAYOUT_UNDEFINED, LAYOUT_TRANSFER_DST);
    let to_access = (ACCESS_NONE, ACCESS_TRANSFER_WRITE);
    lemma_both_planes(half, output, to, to_access);
    lemma_in_turn(
        drawing,
        both_planes(scratch, from, from_access),
        both_planes(output, to, to_access),
    );
    let copying = after_barriers(drawing, before_copy(scratch, output));

    let encode = (LAYOUT_TRANSFER_DST, LAYOUT_VIDEO_ENCODE_SRC);
    let encode_access = (ACCESS_TRANSFER_WRITE, ACCESS_NONE);
    lemma_both_planes(copying, output, encode, encode_access);
    let encodable = after_barriers(copying, both_planes(output, encode, encode_access));
    assert(images_in(encodable, all, LAYOUT_SHADER_READ_ONLY));
    if src.layout == LAYOUT_SHADER_READ_ONLY {
        assert(after_copy(src, output) =~= both_planes(output, encode, encode_access));
    } else {
        let back = (LAYOUT_SHADER_READ_ONLY, src.layout);
        let back_access = (ACCESS_SHADER_READ, ACCESS_NONE);
        lemma_whole_images(encodable, all, back, back_access);
        lemma_in_turn(
            copying,
            both_planes(output, encode, encode_access),
            whole_images(all, back, back_access),
        );
        let end = after_barriers(copying, after_copy(src, output));
        assert(end.dom().contains((output, Aspect::Plane0)));
        assert(end.dom().contains((output, Aspect::Plane1)));
    }
}

/// Keeping one more set of views loses at most the oldest, and never what was just kept.
pub proof fn law_only_the_oldest_views_go(views: Seq<SrcViews>, new: SrcViews)
    requires
        keys(views).no_duplicates(),
        !keys(views).contains(new.key),
        views.len() <= MAX_SOURCES,
    ensures
        kept_with(views, new).len() <= MAX_SOURCES,
        forall|v: SrcViews| #[trigger]
            kept_with(views, new).contains(v) <==> v == new || (views.contains(v) && !(views.len()
                == MAX_SOURCES && v == views[0])),
{
    let kept = kept_with(views, new);
    assert(kept[kept.len() - 1] == new);
    assert forall|v: SrcViews| #[trigger] kept.contains(v) <==> v == new || (views.contains(v)
        && !(views.len() == MAX_SOURCES && v == views[0])) by {
        if kept.contains(v) && v != new {
            let i = kept.index_of(v);
            if views.len() == MAX_SOURCES {
                assert(views[i + 1] == v);
                assert(keys(views)[i + 1] != keys(views)[0]);
            } else {
                assert(views[i] == v);
            }
        }
        if views.contains(v) {
            let i = views.index_of(v);
            if views.len() == MAX_SOURCES {
                if i > 0 {
                    assert(kept[i - 1] == v);
                }
            } else {
                assert(kept[i] == v);
            }
        }
    }
}

/// A source whose views were kept is found again with them, in the layout it comes in then,
/// and what is known of every other source stays as it was unless its views had to go.
pub proof fn law_a_kept_source_is_found_again(
    views: Seq<SrcViews>,
    new: SrcViews,
    again: MissingViews,
)
    requires
        keys(views).no_duplicates(),
        !keys(views).contains(new.key),
        views.len() <= MAX_SOURCES,
    ensures
        again.key == new.key ==> found(kept_with(views, new), again) == Source::Known(
            SrcViews { layout: again.layout, ..new },
        ),
        again.key != new.key && !(views.len() == MAX_SOURCES && again.key == views[0].key)
            ==> found(kept_with(views, new), again) == found(views, again),
        again.key != new.key && views.len() == MAX_SOURCES && again.key == views[0].key
            ==> found(kept_with(views, new), again) == Source::Missing(again),
{
    let kept = kept_with(views, new);
    let before = keys(views);
    let after = keys(kept);
    let full = views.len() == MAX_SOURCES;
    assert(after =~= (if full {
        before.drop_first()
    } else {
        before
    }).push(new.key));
    assert(after[after.len() - 1] == new.key);
    if again.key == new.key {
        let k = after.index_of(again.key);
        if k < after.len() - 1 {
            assert(after[k] == before[if full {
                k + 1
            } else {
                k
            }]);
        }
    } else {
        if after.contains(again.key) {
            let k = after.index_of(again.key);
            let at = if full {
                k + 1
            } else {
                k
            };
            assert(before[at] == again.key);
            assert(before[0] == views[0].key);
            assert(before[before.index_of(again.key)] == again.key);
            assert(kept[k] == views[at]);
        }
        if before.contains(again.key) {
            let k = before.index_of(again.key);
            if full && k == 0 {
                assert(again.key == views[0].key);
            } else if full {
                assert(after[k - 1] == again.key);
            } else {
                assert(after[k] == again.key);
            }
        }
    }
}

/// A source that is known by its images goes back in the layout it came in this time, whatever
/// layout it came in before.
pub proof fn law_a_known_source_goes_back_as_it_came(
    layouts: Layouts,
    views: Seq<SrcViews>,
    again: MissingViews,
    scratch: u64,
    output: u64,
)
    requires
        found(views, again) is Known,
        scratch != output,
        !images(again.key).contains(scratch),
        !images(again.key).contains(output),
        again.key.first != again.key.second,
        images_in(layouts, images(again.key), again.layout),
    ensures
        ({
            let src = found(views, again)->Known_0;
            let drawing = after_barriers(layouts, before_shader(src, scratch));
            let copying = after_barriers(drawing, before_copy(scratch, output));
            let end = after_barriers(copying, after_copy(src, output));
            &&& all_legal(layouts, before_shader(src, scratch))
            &&& images_in(drawing, images(again.key), LAYOUT_SHADER_READ_ONLY)
            &&& images_in(end, images(again.key), again.layout)
        }),
{
    let src = found(views, again)->Known_0;
    assert(keys(views)[keys(views).index_of(again.key)] == again.key);
    assert(src.key == again.key);
    law_layouts_are_followed_and_restored(layouts, src, scratch, output);
}

/// A wait for an output image ends well only at a look that found it free, and at the first
/// such look. It is given up once `SLOT_LOOKS` looks and one more have all found it in use.
pub proof fn law_a_wait_ends_at_a_free_image_or_is_given_up(found_free: Seq<bool>)
    ensures
        waited(found_free) is Ready <==> exists|n: int|
            0 <= n < found_free.len() && n <= SLOT_LOOKS && #[trigger] first_free(found_free, n),
        waited(found_free) is GiveUp <==> found_free.len() > SLOT_LOOKS && in_use_until(
            found_free,
            SLOT_LOOKS + 1,
        ),
        waited(found_free) matches SlotWait::GiveUp(error) ==> error == ScalerError::SlotInUse,
        waited(found_free) is Pause <==> found_free.len() <= SLOT_LOOKS && in_use_until(
            found_free,
            found_free.len() as int,
        ),
    decreases found_free.len(),
{
    if found_free.len() > 0 {
        let before = found_free.drop_last();
        let last = found_free.len() - 1;
        law_a_wait_ends_at_a_free_image_or_is_given_up(before);
        assert forall|k: int| 0 <= k < last implies found_free[k] == #[trigger] before[k] by {}
        match waited(before) {
            SlotWait::Pause => {
                assert forall|k: int| 0 <= k < last implies !#[trigger] found_free[k] by {
                    assert(!before[k]);
                }
                assert(in_use_until(found_free, last));
                if found_free[last] {
                    assert(first_free(found_free, last));
                }
            },
            SlotWait::Ready => {
                let n = choose|n: int|
                    0 <= n < before.len() && n <= SLOT_LOOKS && #[trigger] first_free(before, n);
                assert(found_free[n] == before[n]);
                assert forall|k: int| 0 <= k < n implies !#[trigger] found_free[k] by {
                    assert(!before[k]);
                }
                assert(first_free(found_free, n));
            },
            SlotWait::GiveUp(_) => {
                assert forall|k: int| 0 <= k < SLOT_LOOKS + 1 implies !#[trigger] found_free[k] by {
                    assert(!before[k]);
                }
                assert(in_use_until(found_free, SLOT_LOOKS + 1));
            },
        }
    }
}

/// The first `n` looks found the image in use.
pub open spec fn in_use_until(found_free: Seq<bool>, n: int) -> bool {
    forall|k: int| 0 <= k < n ==> !#[trigger] found_free[k]
}

/// Look `n` is the first that found the image free.
pub open spec fn first_free(found_free: Seq<bool>, n: int) -> bool {
    found_free[n] && in_use_until(found_free, n)
}

/// An image that is held on to is never handed out: however often it is looked at, a wait for
/// it does not end well, so an image that was waited for with success is another one. The
/// images of a ring are distinct.
pub proof fn law_a_held_image_is_never_handed_out(
    outputs: Seq<u64>,
    held: int,
    slot: int,
    found_free: Seq<bool>,
)
    requires
        outputs.no_duplicates(),
        0 <= held < outputs.len(),
        0 <= slot < outputs.len(),
        slot == held ==> in_use_until(found_free, found_free.len() as int),
    ensures
        waited(found_free) is Ready ==> outputs[slot] != outputs[held],
        slot == held && found_free.len() > SLOT_LOOKS ==> waited(found_free) is GiveUp,
{
    law_a_wait_ends_at_a_free_image_or_is_given_up(found_free);
}

/// The views to make on a source. On one image with two planes, luma is the first plane and
/// chroma the second, both in the format of the stream that is scaled. On an image for each
/// plane, luma is all of the first image and chroma all of the second, each in the format its
/// own memory has. The layout is that of the first memory.
pub proof fn law_views_have_the_format_of_their_planes(memories: Seq<InputMemory>, fmt: PixFmt)
    requires
        memories.len() > 0,
        memories[0].image is Some,
        memories.len() > 1 ==> memories[1].image is Some,
    ensures
        ({
            let made = missing_views(memories, fmt);
            let first = memories[0].image->0;
            let second = memories[1].image->0;
            &&& made.key.first == first
            &&& made.y.image == first
            &&& made.layout == memories[0].layout
            &&& memories.len() == 1 ==> {
                &&& made.key.second == 0
                &&& made.multiplanar
                &&& made.y.format == ViewFormat::Luma(fmt)
                &&& made.y.aspect == Aspect::Plane0
                &&& made.uv.image == first
                &&& made.uv.format == ViewFormat::Chroma(fmt)
                &&& made.uv.aspect == Aspect::Plane1
            }
            &&& memories.len() > 1 ==> {
                &&& made.key.second == second
                &&& !made.multiplanar
                &&& made.y.format == ViewFormat::Own(memories[0].format)
                &&& made.y.aspect == Aspect::Color
                &&& made.uv.image == second
                &&& made.uv.format == ViewFormat::Own(memories[1].format)
                &&& made.uv.aspect == Aspect::Color
            }
        }),
{
}

/// The stream decides the views on an image with two planes: a stream of another format has
/// other views on the same image, of both planes. Images that hold one plane each have the same
/// views whatever the stream is.
pub proof fn law_the_stream_decides_the_views_on_two_planes(
    memories: Seq<InputMemory>,
    a: PixFmt,
    b: PixFmt,
)
    requires
        memories.len() > 0,
        a != b,
    ensures
        memories.len() == 1 ==> missing_views(memories, a).y != missing_views(memories, b).y
            && missing_views(memories, a).uv != missing_views(memories, b).uv,
        memories.len() > 1 ==> missing_views(memories, a) == missing_views(memories, b),
        missing_views(memories, a).key == missing_views(memories, b).key,
{
}

/// A buffer is no source without memory, or when a memory that is read is no image; the first
/// such memory is named. Memories beyond the second are not read.
pub proof fn law_a_source_needs_its_images(memories: Seq<InputMemory>)
    ensures
        memories.len() == 0 ==> source_error(memories) == Some(ScalerError::NoMemory),
        memories.len() > 0 && memories[0].image is None ==> source_error(memories) == Some(
            ScalerError::NotAnImage { memory: 0 },
        ),
        memories.len() > 1 && memories[0].image is Some && memories[1].image is None
            ==> source_error(memories) == Some(ScalerError::NotAnImage { memory: 1 }),
        memories.len() == 1 && memories[0].image is Some ==> source_error(memories) is None,
        memories.len() > 1 && memories[0].image is Some && memories[1].image is Some
            ==> source_error(memories) is None,
{
}

/// A source is known exactly when there are views on its two images. It then has those views,
/// and the layout it comes in now; otherwise all of its views are to be made.
pub proof fn law_a_source_is_known_by_its_images(
    views: Seq<SrcViews>,
    missing: MissingViews,
    i: int,
)
    requires
        keys(views).no_duplicates(),
    ensures
        (forall|k: int| 0 <= k < views.len() ==> (#[trigger] views[k]).key != missing.key)
            ==> found(views, missing) == Source::Missing(missing),
        0 <= i < views.len() && views[i].key.first == missing.key.first && views[i].key.second
            == missing.key.second ==> {
            &&& found(views, missing) is Known
            &&& found(views, missing)->Known_0.y == views[i].y
            &&& found(views, missing)->Known_0.uv == views[i].uv
            &&& found(views, missing)->Known_0.key == missing.key
            &&& found(views, missing)->Known_0.multiplanar == views[i].multiplanar
            &&& found(views, missing)->Known_0.layout == missing.layout
        },
{
    let all = keys(views);
    if all.contains(missing.key) {
        let k = all.index_of(missing.key);
        assert(all[k] == missing.key);
        assert(views[k].key == missing.key);
    }
    if 0 <= i < views.len() && views[i].key == missing.key {
        assert(all[i] == missing.key);
        assert(all[all.index_of(missing.key)] == missing.key);
    }
}

/// What is kept of a source is what was made of it. It is the newest, and with eight kept
/// already the oldest goes, which is handed back so that it can be destroyed; the rest stays in
/// place.
pub proof fn law_the_newest_eight_sources_are_kept(
    before: VulkanScaler,
    missing: MissingViews,
    y: u64,
    uv: u64,
    after: VulkanScaler,
    kept: SrcViews,
    gone: Option<SrcViews>,
)
    requires
        before.wf(),
        before.has_kept(missing, y, uv, after, kept, gone),
    ensures
        kept.key == missing.key && kept.y == y && kept.uv == uv,
        kept.layout == missing.layout && kept.multiplanar == missing.multiplanar,
        after.src_views@.len() > 0 && after.src_views@.last() == kept,
        before.src_views@.len() < 8 ==> gone is None && after.src_views@.drop_last()
            == before.src_views@,
        before.src_views@.len() == 8 ==> gone == Some(before.src_views@[0])
            && after.src_views@.drop_last() == before.src_views@.subrange(1, 8),
        after.src_views@.len() <= 8,
        after.next == before.next && after.ring == before.ring,
        after.dst_w == before.dst_w && after.dst_h == before.dst_h,
        after.fmt == before.fmt && after.filter == before.filter,
{
    if before.src_views@.len() == 8 {
        assert(after.src_views@.drop_last() =~= before.src_views@.subrange(1, 8));
    } else {
        assert(after.src_views@.drop_last() =~= before.src_views@);
    }
}

/// The images of a source are those of its two numbers that are not zero, the first one first.
pub proof fn law_zero_is_no_image(key: SourceKey)
    ensures
        key.first != 0 && key.second != 0 ==> images(key).len() == 2 && images(key)[0]
            == key.first && images(key)[1] == key.second,
        key.first != 0 && key.second == 0 ==> images(key).len() == 1 && images(key)[0]
            == key.first,
        key.first == 0 && key.second != 0 ==> images(key).len() == 1 && images(key)[0]
            == key.second,
        key.first == 0 && key.second == 0 ==> images(key).len() == 0,
{
}

/// The output images are taken one after the other, and after the last the first again.
pub proof fn law_output_images_are_taken_in_turn(slot: int, ring: int)
    requires
        0 <= slot < ring,
    ensures
        slot + 1 < ring ==> slot_after(slot, ring) == slot + 1,
        slot + 1 == ring ==> slot_after(slot, ring) == 0,
{
    if slot + 1 < ring {
        lemma_small_mod((slot + 1) as nat, ring as nat);
    } else {
        lemma_mod_self_0(ring);
    }
}

/// The commands of a frame. Before the shader each source goes from its layout to one that can
/// be read, and waits for nothing; both planes of the scratch image become writable, whatever
/// they held. Before the copy the scratch image waits for the shader's writes, and the output
/// image is given up to be written. At the end the output image waits for the copy, and each
/// source goes back to its layout unless it came in the one it was read in.
pub proof fn law_barriers_order_the_work_of_a_frame(
    scaler: VulkanScaler,
    src: SrcViews,
    scratch: u64,
    output: u64,
    plan: FramePlan,
    i: int,
)
    requires
        scaler.is_scaled_by(src, scratch, output, plan),
    ensures
        ({
            let n = images(src.key).len() as int;
            let back = if src.layout == LAYOUT_SHADER_READ_ONLY {
                0
            } else {
                n
            };
            let (pre, post, tail) = (plan.pre@, plan.post@, plan.tail@);
            &&& pre.len() == n + 2
            &&& 0 <= i < n ==> pre[i] == (Barrier {
                image: images(src.key)[i],
                aspect: Aspect::Color,
                old_layout: src.layout,
                new_layout: LAYOUT_SHADER_READ_ONLY,
                src_access: ACCESS_NONE,
                dst_access: ACCESS_SHADER_READ,
            })
            &&& 0 <= i < 2 ==> pre[n + i] == (Barrier {
                image: scratch,
                aspect: if i == 0 {
                    Aspect::Plane0
                } else {
                    Aspect::Plane1
                },
                old_layout: LAYOUT_UNDEFINED,
                new_layout: LAYOUT_GENERAL,
                src_access: ACCESS_NONE,
                dst_access: ACCESS_SHADER_WRITE,
            })
            &&& post.len() == 4
            &&& 0 <= i < 2 ==> post[i] == (Barrier {
                image: scratch,
                aspect: if i == 0 {
                    Aspect::Plane0
                } else {
                    Aspect::Plane1
                },
                old_layout: LAYOUT_GENERAL,
                new_layout: LAYOUT_TRANSFER_SRC,
                src_access: ACCESS_SHADER_WRITE,
                dst_access: ACCESS_TRANSFER_READ,
            })
            &&& 0 <= i < 2 ==> post[2 + i] == (Barrier {
                image: output,
                aspect: if i == 0 {
                    Aspect::Plane0
                } else {
                    Aspect::Plane1
                },
                old_layout: LAYOUT_UNDEFINED,
                new_layout: LAYOUT_TRANSFER_DST,
                src_access: ACCESS_NONE,
                dst_access: ACCESS_TRANSFER_WRITE,
            })
            &&& tail.len() == 2 + back
            &&& 0 <= i < 2 ==> tail[i] == (Barrier {
                image: output,
                aspect: if i == 0 {
                    Aspect::Plane0
                } else {
                    Aspect::Plane1
                },
                old_layout: LAYOUT_TRANSFER_DST,
                new_layout: LAYOUT_VIDEO_ENCODE_SRC,
                src_access: ACCESS_TRANSFER_WRITE,
                dst_access: ACCESS_NONE,
            })
            &&& 0 <= i < back ==> tail[2 + i] == (Barrier {
                image: images(src.key)[i],
                aspect: Aspect::Color,
                old_layout: LAYOUT_SHADER_READ_ONLY,
                new_layout: src.layout,
                src_access: ACCESS_SHADER_READ,
                dst_access: ACCESS_NONE,
            })
        }),
{
}

/// The shader reads the views of the source and is told the size of the output, and its groups,
/// of sixteen by sixteen pixels, cover all of it with none to spare. The whole luma plane is
/// copied, and the chroma plane at half the size on both axes.
pub proof fn law_a_frame_is_drawn_and_copied_whole(
    scaler: VulkanScaler,
    src: SrcViews,
    scratch: u64,
    output: u64,
    plan: FramePlan,
)
    requires
        scaler.is_scaled_by(src, scratch, output, plan),
    ensures
        plan.read_y == src.y && plan.read_uv == src.uv,
        plan.push_w == scaler.dst_w && plan.push_h == scaler.dst_h,
        16 * (plan.groups_x - 1) < scaler.dst_w <= 16 * plan.groups_x,
        16 * (plan.groups_y - 1) < scaler.dst_h <= 16 * plan.groups_y,
        plan.luma.aspect == Aspect::Plane0 && plan.chroma.aspect == Aspect::Plane1,
        plan.luma.width == scaler.dst_w && plan.luma.height == scaler.dst_h,
        2 * plan.chroma.width <= scaler.dst_w < 2 * plan.chroma.width + 2,
        2 * plan.chroma.height <= scaler.dst_h < 2 * plan.chroma.height + 2,
{
}

/// A scaler is built for its own format, filter and number of output images. The shader reads
/// two planes, which go on with their edge beyond it, and writes two, in this order; each output
/// image has a set of four descriptors, and the size is told in two numbers of four bytes.
pub proof fn law_a_scaler_is_built_from_what_it_is(scaler: VulkanScaler, setup: ScalerSetup)
    requires
        scaler.is_built_from(setup),
    ensures
        setup.shader == scaler.fmt && setup.filter == scaler.filter,
        setup.edge == Edge::Clamp,
        setup.bindings@.len() == 4,
        setup.bindings@[0] == Descriptor::Sampled && setup.bindings@[1] == Descriptor::Sampled,
        setup.bindings@[2] == Descriptor::Storage && setup.bindings@[3] == Descriptor::Storage,
        setup.push_bytes == 8,
        setup.sets == scaler.ring,
        setup.sampled == 2 * scaler.ring && setup.storage == 2 * scaler.ring,
{
    lemma_bindings();
}

/// A new scaler is what was asked for, over as many output images as were asked for but never
/// fewer than four. It begins with the first of them, and knows no source.
pub proof fn law_a_scaler_starts_with_at_least_four_images(
    scaler: VulkanScaler,
    dst_w: u32,
    dst_h: u32,
    fmt: PixFmt,
    nearest: bool,
    ring: usize,
)
    requires
        scaler.is_fresh(dst_w, dst_h, fmt, nearest, ring),
    ensures
        scaler.dst_w == dst_w && scaler.dst_h == dst_h && scaler.fmt == fmt,
        nearest <==> scaler.filter == Filter::Nearest,
        !nearest <==> scaler.filter == Filter::Linear,
        ring >= 4 ==> scaler.ring == ring,
        ring < 4 ==> scaler.ring == 4,
        scaler.next == 0,
        scaler.src_views@.len() == 0,
{
}

/// An output buffer that was allocated and is a single image is used as that image; otherwise
/// the failure says which of the two was missing.
pub proof fn law_an_output_is_a_single_image(allocated: bool, image: Option<u64>)
    ensures
        allocated && image is Some ==> new_output(allocated, image) == Ok::<u64, ScalerError>(
            image->0,
        ),
        !allocated ==> new_output(allocated, image) == Err::<u64, ScalerError>(
            ScalerError::NoOutput,
        ),
        allocated && image is None ==> new_output(allocated, image) == Err::<u64, ScalerError>(
            ScalerError::OutputNotAnImage,
        ),
{
}

/// A single look: a free image is ready at once; one in use is looked at again, and the frame
/// fails once it has been found in use ten thousand times before.
pub proof fn law_an_image_in_use_is_looked_at_again(free: bool, looks: nat)
    ensures
        free ==> look(free, looks) == SlotWait::Ready,
        !free && looks < 10_000 ==> look(free, looks) == SlotWait::Pause,
        !free && looks >= 10_000 ==> look(free, looks) == SlotWait::GiveUp(
            ScalerError::SlotInUse,
        ),
{
}

/// The numbers Vulkan has for the layouts and for the kinds of access.
pub proof fn law_layouts_and_accesses_have_their_numbers()
    ensures
        LAYOUT_UNDEFINED == 0 && LAYOUT_GENERAL == 1 && LAYOUT_SHADER_READ_ONLY == 5,
        LAYOUT_TRANSFER_SRC == 6 && LAYOUT_TRANSFER_DST == 7,
        LAYOUT_VIDEO_ENCODE_SRC == 1_000_299_001,
        ACCESS_NONE == 0 && ACCESS_SHADER_READ == 0x20 && ACCESS_SHADER_WRITE == 0x40,
        ACCESS_TRANSFER_READ == 0x800 && ACCESS_TRANSFER_WRITE == 0x1000,
        MIN_RING == 4 && MAX_SOURCES == 8 && SLOT_LOOKS == 10_000 && SLOT_PAUSE == 100,
{
}

/// Each failure has its own words, and the one about a memory says which it is.
pub proof fn law_failures_are_told_apart(memory: u32, result: i32)
    ensures
        ScalerError::NoMemory.words() == "vulkanscale: input buffer has no memory"@,
        memory == 0 ==> (ScalerError::NotAnImage { memory }).words()
            == "vulkanscale: input memory 0 is not a GstVulkanImageMemory"@,
        memory != 0 ==> (ScalerError::NotAnImage { memory }).words()
            == "vulkanscale: input memory 1 is not a GstVulkanImageMemory"@,
        ScalerError::SlotInUse.words() == "vulkanscale: output slot still referenced after 1s"@,
        ScalerError::NoOutput.words() == "vulkanscale: encode-src output allocation failed"@,
        ScalerError::OutputNotAnImage.words()
            == "vulkanscale: encode-src output is not a single GstVulkanImageMemory"@,
        (ScalerError::Device { result }).words() == ""@,
{
}

} // verus!
