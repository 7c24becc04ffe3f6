//! Formats are the ones the DRM headers name, and HDR formats are offered where asked for.

use drm_fourcc::DrmFourcc;
use wayland_display_core::formats::{
    advertise_hdr_dmabuf_formats, is_hdr_fourcc, is_pq_fourcc, supported_dma_formats,
    BufferMemory, DrmFormat, HdrAdvertisement, RenderFormat, ABGR16161616F, ABGR2101010,
    ARGB2101010, NV12, P010, XBGR16161616F, XBGR2101010, XRGB2101010,
};
use wayland_display_core::startup::offered_formats;

fn format(code: u32) -> DrmFormat {
    DrmFormat { code, modifier: 0 }
}

#[test]
fn codes_are_those_of_the_headers() {
    assert_eq!(ABGR16161616F, DrmFourcc::Abgr16161616f as u32);
    assert_eq!(XBGR16161616F, DrmFourcc::Xbgr16161616f as u32);
    assert_eq!(ABGR2101010, DrmFourcc::Abgr2101010 as u32);
    assert_eq!(XBGR2101010, DrmFourcc::Xbgr2101010 as u32);
    assert_eq!(ARGB2101010, DrmFourcc::Argb2101010 as u32);
    assert_eq!(XRGB2101010, DrmFourcc::Xrgb2101010 as u32);
    assert_eq!(NV12, DrmFourcc::Nv12 as u32);
    assert_eq!(P010, DrmFourcc::P010 as u32);
}

#[test]
fn ten_bit_rgb_is_pq_and_half_float_is_only_hdr() {
    for code in [XBGR2101010, ABGR2101010, XRGB2101010, ARGB2101010] {
        assert!(is_pq_fourcc(code) && is_hdr_fourcc(code));
    }
    for code in [ABGR16161616F, XBGR16161616F] {
        assert!(!is_pq_fourcc(code) && is_hdr_fourcc(code));
    }
    for code in [NV12, P010, DrmFourcc::Argb8888 as u32, DrmFourcc::Xrgb8888 as u32] {
        assert!(!is_pq_fourcc(code) && !is_hdr_fourcc(code));
    }
}

#[test]
fn only_missing_importable_hdr_formats_are_added() {
    let argb = format(DrmFourcc::Argb8888 as u32);
    let rgba = format(DrmFourcc::Rgba8888 as u32);
    let mut formats = vec![argb, format(ABGR2101010)];
    let importable = vec![rgba, format(ABGR2101010), format(ABGR16161616F), argb];
    let report = advertise_hdr_dmabuf_formats(&importable, &mut formats);
    assert_eq!(report, HdrAdvertisement { importable: 2, newly: 1 });
    assert_eq!(formats, vec![argb, format(ABGR2101010), format(ABGR16161616F)]);

    let report = advertise_hdr_dmabuf_formats(&vec![rgba], &mut formats);
    assert_eq!(report, HdrAdvertisement { importable: 0, newly: 0 });
    assert_eq!(formats.len(), 3);
}

#[test]
fn hdr_formats_are_offered_only_with_colour_management() {
    let argb = format(DrmFourcc::Argb8888 as u32);
    let importable = vec![format(XBGR2101010)];
    assert_eq!(offered_formats(false, vec![argb], &importable), vec![argb]);
    assert_eq!(
        offered_formats(true, vec![argb], &importable),
        vec![argb, format(XBGR2101010)],
    );
}

#[test]
fn a_consumer_may_ask_for_what_can_be_allocated_until_something_is_in_use() {
    let argb = format(DrmFourcc::Argb8888 as u32);
    let xrgb = format(DrmFourcc::Xrgb8888 as u32);
    let candidates = vec![
        RenderFormat { format: argb, allocatable: true },
        RenderFormat { format: xrgb, allocatable: false },
    ];
    assert_eq!(supported_dma_formats(BufferMemory::Unset, true, &candidates), vec![argb]);
    assert_eq!(supported_dma_formats(BufferMemory::Unset, false, &candidates), vec![]);
    assert_eq!(supported_dma_formats(BufferMemory::Plain, true, &candidates), vec![]);
    assert_eq!(
        supported_dma_formats(BufferMemory::Dmabuf(xrgb), true, &candidates),
        vec![xrgb],
    );
}
