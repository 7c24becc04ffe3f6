//! Pixel formats of client buffers, and which of them carry HDR.
//!
//! A format is named by its DRM fourcc: four characters, the first in the lowest byte.

use crate::listing::{lemma_filter, lemma_with_items, with_items};
use vstd::prelude::*;

verus! {

/// Half-float RGB with alpha, `AB4H`.
pub const ABGR16161616F: u32 = 0x4834_4241;

/// Half-float RGB, `XB4H`.
pub const XBGR16161616F: u32 = 0x4834_4258;

/// Ten-bit RGB with alpha, `AB30`.
pub const ABGR2101010: u32 = 0x3033_4241;

/// Ten-bit RGB, `XB30`.
pub const XBGR2101010: u32 = 0x3033_4258;

/// Ten-bit RGB with alpha, `AR30`.
pub const ARGB2101010: u32 = 0x3033_5241;

/// Ten-bit RGB, `XR30`.
pub const XRGB2101010: u32 = 0x3033_5258;

/// Eight-bit two-plane 4:2:0, `NV12`.
pub const NV12: u32 = 0x3231_564e;

/// Ten-bit two-plane 4:2:0, `P010`.
pub const P010: u32 = 0x3031_3050;

/// A pixel format together with how its memory is laid out.
#[derive(Debug, Clone, Copy, PartialEq, Eq, Structural)]
pub struct DrmFormat {
    pub code: u32,
    pub modifier: u64,
}

/// The ten-bit packed RGB formats. A frame in one of them is already PQ-encoded.
pub open spec fn ten_bit(code: u32) -> bool {
    code == XBGR2101010 || code == ABGR2101010 || code == XRGB2101010 || code == ARGB2101010
}

/// The formats in which a client can hand over HDR content: half-float and ten-bit RGB.
pub open spec fn carries_hdr(code: u32) -> bool {
    code == ABGR16161616F || code == XBGR16161616F || ten_bit(code)
}

/// The HDR formats among `importable`, in order.
pub open spec fn hdr_formats(importable: Seq<DrmFormat>) -> Seq<DrmFormat> {
    importable.filter(|f: DrmFormat| carries_hdr(f.code))
}

pub fn is_pq_fourcc(code: u32) -> (b: bool)
    ensures
        b == ten_bit(code),
        b <==> code == XBGR2101010 || code == ABGR2101010 || code == XRGB2101010 || code
            == ARGB2101010,
{
    code == XBGR2101010 || code == ABGR2101010 || code == XRGB2101010 || code == ARGB2101010
}

pub fn is_hdr_fourcc(code: u32) -> (b: bool)
    ensures
        b == carries_hdr(code),
        b <==> code == ABGR16161616F || code == XBGR16161616F || code == XBGR2101010 || code
            == ABGR2101010 || code == XRGB2101010 || code == ARGB2101010,
{
    code == ABGR16161616F || code == XBGR16161616F || is_pq_fourcc(code)
}

fn contains_format(formats: &Vec<DrmFormat>, format: DrmFormat) -> (b: bool)
    ensures
        b == formats@.contains(format),
{
    let n: usize = formats.len();
    let mut i: usize = 0;
    while i < n
        invariant
            n == formats@.len(),
            i <= n,
            forall|k: int| 0 <= k < i ==> formats@[k] != format,
        decreases n - i,
    {
        if formats[i] == format {
            assert(formats@[i as int] == format);
            return true;
        }
        i += 1;
    }
    false
}

/// What advertising the HDR formats came to.
#[derive(Debug, Clone, Copy, PartialEq, Eq, Structural)]
pub struct HdrAdvertisement {
    /// How many HDR formats the renderer imports. With none, HDR clients fall back to
    /// eight bits.
    pub importable: usize,
    /// How many of them were not on offer before.
    pub newly: usize,
}

/// Offer clients every HDR format that the renderer can import, on top of `formats`.
pub fn advertise_hdr_dmabuf_formats(
    importable: &Vec<DrmFormat>,
    formats: &mut Vec<DrmFormat>,
) -> (report: HdrAdvertisement)
    ensures
        final(formats)@ == with_items(old(formats)@, hdr_formats(importable@)),
        report.importable == hdr_formats(importable@).len(),
        report.newly == final(formats)@.len() - old(formats)@.len(),
{
    let mut hdr: Vec<DrmFormat> = Vec::new();
    let ghost pick = |f: DrmFormat| carries_hdr(f.code);
    let n: usize = importable.len();
    let mut i: usize = 0;
    while i < n
        invariant
            n == importable@.len(),
            i <= n,
            pick == (|f: DrmFormat| carries_hdr(f.code)),
            hdr@ == importable@.take(i as int).filter(pick),
        decreases n - i,
    {
        let format = importable[i];
        proof {
            assert(importable@.take(i + 1).drop_last() =~= importable@.take(i as int));
            reveal(Seq::filter);
        }
        if is_hdr_fourcc(format.code) {
            hdr.push(format);
        }
        i += 1;
    }
    proof {
        assert(importable@.take(n as int) =~= importable@);
    }
    let count: usize = hdr.len();
    let mut newly: usize = 0;
    let mut k: usize = 0;
    while k < count
        invariant
            count == hdr@.len(),
            k <= count,
            newly <= k,
            formats@ == with_items(old(formats)@, hdr@.take(k as int)),
            newly == formats@.len() - old(formats)@.len(),
        decreases count - k,
    {
        proof {
            assert(hdr@.take(k + 1).drop_last() =~= hdr@.take(k as int));
        }
        let format = hdr[k];
        if !contains_format(formats, format) {
            formats.push(format);
            newly += 1;
        }
        k += 1;
    }
    proof {
        assert(hdr@.take(count as int) =~= hdr@);
    }
    HdrAdvertisement { importable: count, newly }
}

/// Advertising HDR formats adds the importable HDR formats and nothing else: what was on
/// offer stays on offer, in place, and no further SDR format appears.
pub proof fn law_only_importable_hdr_formats_are_added(
    formats: Seq<DrmFormat>,
    importable: Seq<DrmFormat>,
)
    ensures
        ({
            let after = with_items(formats, hdr_formats(importable));
            &&& formats.len() <= after.len()
            &&& after.take(formats.len() as int) == formats
            &&& formats.no_duplicates() ==> after.no_duplicates()
            &&& forall|f: DrmFormat| #[trigger]
                after.contains(f) <==> formats.contains(f) || (importable.contains(f)
                    && carries_hdr(f.code))
        }),
{
    lemma_filter(importable, |f: DrmFormat| carries_hdr(f.code));
    lemma_with_items(formats, hdr_formats(importable));
}

/// A format the renderer can draw to, and whether the device can allocate it for rendering.
#[derive(Debug, Clone, Copy, PartialEq, Eq, Structural)]
pub struct RenderFormat {
    pub format: DrmFormat,
    pub allocatable: bool,
}

/// What the output buffer in use, if there is one, says of its memory.
#[derive(Debug, Clone, Copy, PartialEq, Eq, Structural)]
pub enum BufferMemory {
    /// Nothing has been negotiated yet.
    Unset,
    /// Plain memory, or memory that is described by another handle than a dmabuf.
    Plain,
    /// A dmabuf of this format.
    Dmabuf(DrmFormat),
}

/// The formats of those `candidates` that the device can allocate, in order.
pub open spec fn allocatable(candidates: Seq<RenderFormat>) -> Seq<DrmFormat> {
    candidates.filter(|c: RenderFormat| c.allocatable).map_values(|c: RenderFormat| c.format)
}

/// The dmabuf formats a consumer may ask for, given the buffer in use and whether there is a
/// device.
pub open spec fn dma_formats(
    buffer: BufferMemory,
    render_node: bool,
    candidates: Seq<RenderFormat>,
) -> Seq<DrmFormat> {
    match buffer {
        BufferMemory::Unset => if render_node {
            allocatable(candidates)
        } else {
            Seq::empty()
        },
        BufferMemory::Plain => Seq::empty(),
        BufferMemory::Dmabuf(format) => seq![format],
    }
}

/// The dmabuf formats a consumer may ask for. Before negotiation that is everything the
/// device can allocate; afterwards, the one format in use, if it is a dmabuf at all.
pub fn supported_dma_formats(
    buffer: BufferMemory,
    render_node: bool,
    candidates: &Vec<RenderFormat>,
) -> (formats: Vec<DrmFormat>)
    ensures
        formats@ == (match buffer {
            BufferMemory::Unset => if render_node {
                allocatable(candidates@)
            } else {
                Seq::empty()
            },
            BufferMemory::Plain => Seq::empty(),
            BufferMemory::Dmabuf(format) => seq![format],
        }),
        formats@ == dma_formats(buffer, render_node, candidates@),
{
    let mut formats: Vec<DrmFormat> = Vec::new();
    match buffer {
        BufferMemory::Unset => {
            if render_node {
                let ghost pick = |c: RenderFormat| c.allocatable;
                let ghost format_of = |c: RenderFormat| c.format;
                let n: usize = candidates.len();
                let mut i: usize = 0;
                while i < n
                    invariant
                        n == candidates@.len(),
                        i <= n,
                        pick == (|c: RenderFormat| c.allocatable),
                        format_of == (|c: RenderFormat| c.format),
                        formats@ == candidates@.take(i as int).filter(pick).map_values(format_of),
                    decreases n - i,
                {
                    let candidate = candidates[i];
                    proof {
                        assert(candidates@.take(i + 1).drop_last() =~= candidates@.take(i as int));
                        reveal(Seq::filter);
                    }
                    if candidate.allocatable {
                        let ghost before = candidates@.take(i as int).filter(pick);
                        proof {
                            assert(before.push(candidate).map_values(format_of)
                                =~= before.map_values(format_of).push(candidate.format));
                        }
                        formats.push(candidate.format);
                    }
                    i += 1;
                }
                proof {
                    assert(candidates@.take(n as int) =~= candidates@);
                }
            }
        },
        BufferMemory::Plain => {},
        BufferMemory::Dmabuf(format) => {
            formats.push(format);
            assert(formats@ =~= seq![format]);
        },
    }
    formats
}

/// A code is made of the four characters of its name, the first in the lowest byte.
pub open spec fn spells(code: u32, name: (char, char, char, char)) -> bool {
    code == name.0 as int + 0x100 * (name.1 as int) + 0x1_0000 * (name.2 as int) + 0x100_0000 * (
    name.3 as int)
}

/// Each format has the code that its name spells, so no two of them can be taken for each other.
pub proof fn law_codes_spell_their_names()
    ensures
        spells(ABGR16161616F, ('A', 'B', '4', 'H')),
        spells(XBGR16161616F, ('X', 'B', '4', 'H')),
        spells(ABGR2101010, ('A', 'B', '3', '0')),
        spells(XBGR2101010, ('X', 'B', '3', '0')),
        spells(ARGB2101010, ('A', 'R', '3', '0')),
        spells(XRGB2101010, ('X', 'R', '3', '0')),
        spells(NV12, ('N', 'V', '1', '2')),
        spells(P010, ('P', '0', '1', '0')),
{
}

/// The packed ten-bit RGB formats are PQ-encoded and no other is; the half-float formats carry
/// HDR beside them, and nothing else does.
pub proof fn law_ten_bits_are_pq_and_half_floats_only_hdr(code: u32)
    ensures
        ten_bit(code) <==> code == XBGR2101010 || code == ABGR2101010 || code == XRGB2101010
            || code == ARGB2101010,
        carries_hdr(code) <==> code == ABGR16161616F || code == XBGR16161616F || code
            == XBGR2101010 || code == ABGR2101010 || code == XRGB2101010 || code == ARGB2101010,
{
}

/// With the HDR formats on offer, a format is on offer exactly when it was before, or when it
/// can be imported and has one of the six HDR codes.
pub proof fn law_hdr_formats_are_offered_by_their_codes(
    formats: Seq<DrmFormat>,
    importable: Seq<DrmFormat>,
    f: DrmFormat,
)
    ensures
        ({
            let after = with_items(formats, hdr_formats(importable));
            after.contains(f) <==> formats.contains(f) || (importable.contains(f) && (f.code
                == ABGR16161616F || f.code == XBGR16161616F || f.code == XBGR2101010 || f.code
                == ABGR2101010 || f.code == XRGB2101010 || f.code == ARGB2101010))
        }),
{
    law_only_importable_hdr_formats_are_added(formats, importable);
}

/// One more importable format is one more HDR format if it has one of the six HDR codes, and
/// makes no difference otherwise.
pub proof fn law_importable_formats_count_one_by_one(importable: Seq<DrmFormat>, f: DrmFormat)
    ensures
        hdr_formats(Seq::empty()) == Seq::<DrmFormat>::empty(),
        hdr_formats(importable.push(f)) == (if f.code == ABGR16161616F || f.code == XBGR16161616F
            || f.code == XBGR2101010 || f.code == ABGR2101010 || f.code == XRGB2101010 || f.code
            == ARGB2101010 {
            hdr_formats(importable).push(f)
        } else {
            hdr_formats(importable)
        }),
{
    reveal(Seq::filter);
    assert(importable.push(f).drop_last() =~= importable);
}

/// Before negotiation each candidate adds itself, behind those before it, if the device can
/// allocate it, and nothing otherwise.
pub proof fn law_candidates_are_offered_one_by_one(candidates: Seq<RenderFormat>, c: RenderFormat)
    ensures
        dma_formats(BufferMemory::Unset, true, Seq::empty()) == Seq::<DrmFormat>::empty(),
        dma_formats(BufferMemory::Unset, true, candidates.push(c)) == (if c.allocatable {
            dma_formats(BufferMemory::Unset, true, candidates).push(c.format)
        } else {
            dma_formats(BufferMemory::Unset, true, candidates)
        }),
{
    reveal(Seq::filter);
    let pick = |c: RenderFormat| c.allocatable;
    let format_of = |c: RenderFormat| c.format;
    assert(candidates.push(c).drop_last() =~= candidates);
    let kept = candidates.filter(pick);
    assert(kept.push(c).map_values(format_of) =~= kept.map_values(format_of).push(c.format));
    assert(Seq::<RenderFormat>::empty().filter(pick).map_values(format_of) =~= Seq::empty());
}

/// After negotiation the candidates have no say: the format of a dmabuf in use is all that can
/// be asked for, and with any other buffer, or without a device, there is none.
pub proof fn law_a_buffer_in_use_settles_the_format(
    render_node: bool,
    candidates: Seq<RenderFormat>,
    format: DrmFormat,
)
    ensures
        dma_formats(BufferMemory::Dmabuf(format), render_node, candidates).len() == 1,
        dma_formats(BufferMemory::Dmabuf(format), render_node, candidates)[0] == format,
        dma_formats(BufferMemory::Plain, render_node, candidates).len() == 0,
        dma_formats(BufferMemory::Unset, false, candidates).len() == 0,
{
}

} // verus!
