//! The scaler: what it negotiates, and the commands it records.

use ash::vk;
use wayland_display_core::caps::{fixate_prefer, free_size, Dim, Structure};
use wayland_display_core::scaler::{
    create_out, slot_wait, Aspect, Barrier, Descriptor, Edge, Filter, ImageView, InputMemory,
    MissingViews, PlaneCopy, ScalerError, SlotWait, Source, SourceKey, SrcViews, ViewFormat,
    VulkanScaler, ACCESS_NONE, ACCESS_SHADER_READ, ACCESS_SHADER_WRITE, ACCESS_TRANSFER_READ,
    ACCESS_TRANSFER_WRITE, LAYOUT_GENERAL, LAYOUT_SHADER_READ_ONLY, LAYOUT_TRANSFER_DST,
    LAYOUT_TRANSFER_SRC, LAYOUT_UNDEFINED, LAYOUT_VIDEO_ENCODE_SRC, SLOT_LOOKS, SLOT_PAUSE,
};
use wayland_display_core::video::PixFmt;
use wayland_display_core::vulkanscale::{
    encode_profile, next_device_source, BuildRequest, CapsError, DeviceSource, DeviceStep,
    Prepare, ScaleError, ScaleMethod, SideInfo, VulkanScale,
};

const NV12_60: u64 = 1;
const VULKAN_IMAGE: u64 = 2;

fn vk_caps(w: i32, h: i32) -> Vec<Structure> {
    vec![Structure {
        width: Dim::Fixed(w),
        height: Dim::Fixed(h),
        pixel_aspect_ratio: None,
        others: NV12_60,
        features: VULKAN_IMAGE,
    }]
}

fn fixed(dim: &Dim) -> Option<i32> {
    match dim {
        Dim::Fixed(n) => Some(*n),
        _ => None,
    }
}

fn is_full_range(dim: &Dim) -> bool {
    matches!(dim, Dim::Range { min: 1, max: i32::MAX })
}

fn memory(image: Option<u64>, layout: i32, format: u32) -> InputMemory {
    InputMemory { image, layout, format }
}

fn views(first: u64, second: u64, layout: i32) -> SrcViews {
    SrcViews {
        key: SourceKey { first, second },
        y: 100 + first,
        uv: 200 + first,
        layout,
        multiplanar: second == 0,
    }
}

#[test]
fn free_size_opens_width_and_height_and_keeps_the_rest() {
    let out = free_size(&vk_caps(1920, 1080));
    assert_eq!(out.len(), 1);
    assert!(is_full_range(&out[0].width));
    assert!(is_full_range(&out[0].height));
    assert_eq!(out[0].others, NV12_60);
    assert_eq!(out[0].features, VULKAN_IMAGE, "the memory feature must survive");
}

#[test]
fn free_size_keeps_a_given_pixel_shape() {
    for shape in [None, Some((1, 1)), Some((4, 3))] {
        let mut caps = vk_caps(1920, 1080);
        caps[0].pixel_aspect_ratio = shape;
        let once = free_size(&caps);
        assert_eq!(once[0].pixel_aspect_ratio, shape);
        let twice = free_size(&once);
        assert_eq!(format!("{twice:?}"), format!("{once:?}"));
        assert_eq!(fixate_prefer(&caps, twice)[0].pixel_aspect_ratio, shape);
        assert_eq!(fixed(&caps[0].width), Some(1920));
    }
    assert!(free_size(&vec![]).is_empty());
}

#[test]
fn fixate_prefers_the_fixed_side() {
    let sink = vk_caps(1920, 1080);
    let other = free_size(&sink);
    let settled = fixate_prefer(&sink, other);
    assert_eq!(fixed(&settled[0].width), Some(1920));
    assert_eq!(fixed(&settled[0].height), Some(1080));
}

#[test]
fn fixate_honours_a_downstream_size_the_range_pins() {
    let sink = vk_caps(1920, 1080);
    // What a consumer that insists on 1280x720 leaves of the free size.
    let mut other = free_size(&sink);
    other[0].width = Dim::Fixed(1280);
    other[0].height = Dim::Fixed(720);
    let settled = fixate_prefer(&sink, other);
    assert_eq!(fixed(&settled[0].width), Some(1280));
    assert_eq!(fixed(&settled[0].height), Some(720));
}

#[test]
fn settling_takes_the_nearest_size_of_the_first_structure() {
    let sink = vk_caps(1920, 1080);
    let mut other = free_size(&sink);
    other[0].width = Dim::Range { min: 64, max: 1280 };
    other[0].height = Dim::Choice(vec![480, 1060, 1100, 2160]);
    other.extend(vk_caps(7, 7));
    let settled = fixate_prefer(&sink, other);
    assert_eq!(settled.len(), 1);
    assert_eq!(fixed(&settled[0].width), Some(1280));
    assert_eq!(fixed(&settled[0].height), Some(1060), "of two equally near, the first");

    let mut small = free_size(&sink);
    small[0].width = Dim::Range { min: 4000, max: 8000 };
    small[0].height = Dim::Absent;
    let settled = fixate_prefer(&sink, small);
    assert_eq!(fixed(&settled[0].width), Some(4000));
    assert!(matches!(settled[0].height, Dim::Absent));

    assert!(fixate_prefer(&sink, vec![]).is_empty());
    let open = free_size(&sink);
    let settled = fixate_prefer(&open, free_size(&sink));
    assert!(is_full_range(&settled[0].width), "nothing to prefer");
}

#[test]
fn defaults_are_bilinear_and_no_negotiated_size() {
    let element = VulkanScale::default();
    assert_eq!(element.method, ScaleMethod::Bilinear);
    assert_eq!(ScaleMethod::default(), ScaleMethod::Bilinear);
    assert_eq!(element.current_width(), 0);
    assert_eq!(element.current_height(), 0);
    // The method goes there and back by its name.
    assert_eq!(ScaleMethod::from_nick("nearest"), Some(ScaleMethod::Nearest));
    assert_eq!(ScaleMethod::from_nick("bilinear"), Some(ScaleMethod::Bilinear));
    assert_eq!(ScaleMethod::from_nick("Nearest"), None);
    assert_eq!(ScaleMethod::Nearest.nick(), "nearest");
    assert_eq!(ScaleMethod::Bilinear.nick(), "bilinear");
}

#[test]
fn equal_size_is_passthrough() {
    let mut element = VulkanScale::default();
    let hd = SideInfo { format: 23, width: 1280, height: 720 };
    assert_eq!(element.set_caps(Some(hd), Some(hd)), Ok(()));
    assert_eq!(element.prepare_output_buffer(), Prepare::PassThrough);
    assert_eq!((element.current_width(), element.current_height()), (1280, 720));

    let small = SideInfo { width: 1280, height: 540, ..hd };
    assert_eq!(element.set_caps(Some(hd), Some(small)), Ok(()));
    assert_eq!(element.prepare_output_buffer(), Prepare::Scale);
    assert_eq!((element.current_width(), element.current_height()), (1280, 540));
    element.stop();
    assert_eq!((element.current_width(), element.current_height()), (0, 0));
}

#[test]
fn caps_are_refused_in_order() {
    let mut element = VulkanScale::default();
    let nv12 = SideInfo { format: 23, width: 1920, height: 1080 };
    let p010 = SideInfo { format: 62, ..nv12 };
    assert_eq!(element.set_caps(None, None), Err(CapsError::InvalidSink));
    assert_eq!(element.set_caps(Some(nv12), None), Err(CapsError::InvalidSrc));
    assert_eq!(
        element.set_caps(Some(nv12), Some(p010)),
        Err(CapsError::FormatConversion { from: 23, to: 62 }),
    );
    assert_eq!(element, VulkanScale::default(), "what is refused changes nothing");
}

#[test]
fn a_scaler_is_built_for_the_first_frame_and_again_after_a_resize() {
    let mut element = VulkanScale::default();
    assert_eq!(element.scaler_to_build(true, true), Err(ScaleError::NoCaps));
    let hd = SideInfo { format: 23, width: 1920, height: 1080 };
    let small = SideInfo { width: 1280, height: 720, ..hd };
    element.set_caps(Some(hd), Some(small)).unwrap();
    assert_eq!(element.scaler_to_build(false, true), Err(ScaleError::NoDevice));
    assert_eq!(element.scaler_to_build(true, false), Err(ScaleError::NoQueue));
    assert_eq!(
        element.scaler_to_build(true, true),
        Ok(Some(BuildRequest { out: small, nearest: false, ring: 4 })),
    );
    assert_eq!(
        element.scaler_built(Err(ScalerError::NoOutput)),
        Err(ScaleError::Init(ScalerError::NoOutput)),
    );
    assert!(!element.has_scaler);
    assert_eq!(element.scaler_built(Ok(())), Ok(()));
    assert_eq!(element.scaler_to_build(false, false), Ok(None));

    element.method = ScaleMethod::Nearest;
    element.set_caps(Some(hd), Some(SideInfo { width: 640, height: 360, ..hd })).unwrap();
    let request = element.scaler_to_build(true, true).unwrap().unwrap();
    assert_eq!((request.out.width, request.out.height), (640, 360));
    assert!(request.nearest);
}

#[test]
fn the_device_is_sought_nearest_first() {
    assert_eq!(next_device_source(DeviceSource::Shared, true), DeviceStep::Use);
    let mut order = vec![];
    let mut at = DeviceSource::Shared;
    loop {
        order.push(at);
        match next_device_source(at, false) {
            DeviceStep::Ask(next) => at = next,
            DeviceStep::GiveUp => break,
            DeviceStep::Use => unreachable!(),
        }
    }
    assert_eq!(
        order,
        vec![
            DeviceSource::Shared,
            DeviceSource::Downstream,
            DeviceSource::Upstream,
            DeviceSource::Context,
        ],
    );
}

#[test]
fn errors_have_words() {
    assert_eq!(ScalerError::NoMemory.message(), "vulkanscale: input buffer has no memory");
    assert_eq!(
        ScalerError::NotAnImage { memory: 0 }.message(),
        "vulkanscale: input memory 0 is not a GstVulkanImageMemory",
    );
    assert_eq!(
        ScalerError::NotAnImage { memory: 1 }.message(),
        "vulkanscale: input memory 1 is not a GstVulkanImageMemory",
    );
    assert_eq!(
        ScalerError::SlotInUse.message(),
        "vulkanscale: output slot still referenced after 1s",
    );
    assert_eq!(
        ScalerError::NoOutput.message(),
        "vulkanscale: encode-src output allocation failed",
    );
    assert_eq!(
        ScalerError::OutputNotAnImage.message(),
        "vulkanscale: encode-src output is not a single GstVulkanImageMemory",
    );
    assert_eq!(ScalerError::Device { result: -4 }.message(), "");
    assert_eq!(ScaleError::NoCaps.message(), "no negotiated output caps");
    assert_eq!(
        ScaleError::NoDevice.message(),
        "no shared GstVulkanDevice: vulkanscale must sit on a Vulkan path",
    );
    assert_eq!(
        ScaleError::NoQueue.message(),
        "shared GstVulkanDevice exposes no graphics+compute queue",
    );
    assert_eq!(ScaleError::Init(ScalerError::NoOutput).message(), "scaler init failed: ");
    assert_eq!(ScaleError::Scale(ScalerError::SlotInUse).message(), "scale failed: ");
}

#[test]
fn numbers_are_those_of_vulkan() {
    assert_eq!(LAYOUT_UNDEFINED, vk::ImageLayout::UNDEFINED.as_raw());
    assert_eq!(LAYOUT_GENERAL, vk::ImageLayout::GENERAL.as_raw());
    assert_eq!(LAYOUT_SHADER_READ_ONLY, vk::ImageLayout::SHADER_READ_ONLY_OPTIMAL.as_raw());
    assert_eq!(LAYOUT_TRANSFER_SRC, vk::ImageLayout::TRANSFER_SRC_OPTIMAL.as_raw());
    assert_eq!(LAYOUT_TRANSFER_DST, vk::ImageLayout::TRANSFER_DST_OPTIMAL.as_raw());
    assert_eq!(LAYOUT_VIDEO_ENCODE_SRC, vk::ImageLayout::VIDEO_ENCODE_SRC_KHR.as_raw());
    assert_eq!(ACCESS_NONE, vk::AccessFlags::empty().as_raw());
    assert_eq!(ACCESS_SHADER_READ, vk::AccessFlags::SHADER_READ.as_raw());
    assert_eq!(ACCESS_SHADER_WRITE, vk::AccessFlags::SHADER_WRITE.as_raw());
    assert_eq!(ACCESS_TRANSFER_READ, vk::AccessFlags::TRANSFER_READ.as_raw());
    assert_eq!(ACCESS_TRANSFER_WRITE, vk::AccessFlags::TRANSFER_WRITE.as_raw());
}

#[test]
fn a_scaler_is_built_from_its_size_format_and_ring() {
    let scaler = VulkanScaler::new(1280, 720, PixFmt::P010, true, 6);
    let setup = scaler.setup();
    assert_eq!(setup.shader, PixFmt::P010);
    assert_eq!(setup.filter, Filter::Nearest);
    assert_eq!(setup.edge, Edge::Clamp);
    assert_eq!(
        setup.bindings,
        vec![
            Descriptor::Sampled,
            Descriptor::Sampled,
            Descriptor::Storage,
            Descriptor::Storage,
        ],
    );
    assert_eq!((setup.push_bytes, setup.sets, setup.sampled, setup.storage), (8, 6, 12, 12));
    assert_eq!(encode_profile(), "high");
    let scaler = VulkanScaler::new(1280, 720, PixFmt::Nv12, false, 1);
    assert_eq!((scaler.ring, scaler.filter), (4, Filter::Linear), "never fewer than four");
}

#[test]
fn output_images_are_taken_in_turn() {
    let mut scaler = VulkanScaler::new(1280, 720, PixFmt::Nv12, false, 4);
    let taken: Vec<usize> = (0..9).map(|_| scaler.take_slot()).collect();
    assert_eq!(taken, vec![0, 1, 2, 3, 0, 1, 2, 3, 0]);
}

#[test]
fn an_image_in_use_is_waited_for_up_to_a_second() {
    assert_eq!(SLOT_LOOKS as u64 * SLOT_PAUSE as u64, 1_000_000);
    assert_eq!(slot_wait(true, 0), SlotWait::Ready);
    assert_eq!(slot_wait(true, SLOT_LOOKS), SlotWait::Ready);
    assert_eq!(slot_wait(false, 0), SlotWait::Pause);
    assert_eq!(slot_wait(false, SLOT_LOOKS - 1), SlotWait::Pause);
    assert_eq!(slot_wait(false, SLOT_LOOKS), SlotWait::GiveUp(ScalerError::SlotInUse));

    // An image that is let go of in time is handed out at that look, one that is held never.
    let wait = |freed_at: u32| {
        let mut looks = 0;
        loop {
            match slot_wait(looks >= freed_at, looks) {
                SlotWait::Pause => looks += 1,
                over => return (over, looks),
            }
        }
    };
    assert_eq!(wait(0), (SlotWait::Ready, 0));
    assert_eq!(wait(1_234), (SlotWait::Ready, 1_234));
    assert_eq!(wait(SLOT_LOOKS), (SlotWait::Ready, SLOT_LOOKS));
    assert_eq!(wait(SLOT_LOOKS + 1), (SlotWait::GiveUp(ScalerError::SlotInUse), SLOT_LOOKS));
    assert_eq!(wait(u32::MAX), (SlotWait::GiveUp(ScalerError::SlotInUse), SLOT_LOOKS));
}

#[test]
fn an_output_must_be_one_image() {
    assert_eq!(create_out(false, None), Err(ScalerError::NoOutput));
    assert_eq!(create_out(true, None), Err(ScalerError::OutputNotAnImage));
    assert_eq!(create_out(true, Some(5)), Ok(5));
}

#[test]
fn a_source_is_one_image_or_two() {
    let scaler = VulkanScaler::new(1280, 720, PixFmt::Nv12, false, 4);
    assert_eq!(scaler.source(&vec![]), Err(ScalerError::NoMemory));
    assert_eq!(
        scaler.source(&vec![memory(None, 5, 0)]),
        Err(ScalerError::NotAnImage { memory: 0 }),
    );
    assert_eq!(
        scaler.source(&vec![memory(Some(1), 5, 9), memory(None, 5, 16)]),
        Err(ScalerError::NotAnImage { memory: 1 }),
    );
    assert_eq!(
        scaler.source(&vec![memory(Some(1), 7, 0)]),
        Ok(Source::Missing(MissingViews {
            key: SourceKey { first: 1, second: 0 },
            y: ImageView {
                image: 1,
                format: ViewFormat::Luma(PixFmt::Nv12),
                aspect: Aspect::Plane0,
            },
            uv: ImageView {
                image: 1,
                format: ViewFormat::Chroma(PixFmt::Nv12),
                aspect: Aspect::Plane1,
            },
            layout: 7,
            multiplanar: true,
        })),
    );
    assert_eq!(
        scaler.source(&vec![memory(Some(1), 7, 9), memory(Some(2), 8, 16)]),
        Ok(Source::Missing(MissingViews {
            key: SourceKey { first: 1, second: 2 },
            y: ImageView { image: 1, format: ViewFormat::Own(9), aspect: Aspect::Color },
            uv: ImageView { image: 2, format: ViewFormat::Own(16), aspect: Aspect::Color },
            layout: 7,
            multiplanar: false,
        })),
    );
}

#[test]
fn views_are_kept_for_the_latest_sources() {
    let mut scaler = VulkanScaler::new(1280, 720, PixFmt::Nv12, false, 4);
    for image in 1..=9u64 {
        let input = vec![memory(Some(image), 5, 0)];
        let missing = match scaler.source(&input) {
            Ok(Source::Missing(missing)) => missing,
            other => panic!("expected no views yet, got {other:?}"),
        };
        let (kept, gone) = scaler.keep_views(missing, 100 + image, 200 + image);
        assert_eq!(kept, views(image, 0, 5));
        assert_eq!(gone, if image == 9 { Some(views(1, 0, 5)) } else { None });
    }
    assert_eq!(scaler.src_views.len(), 8);
    // The views are those made before, the layout is the one the source comes in now.
    for layout in [5, 1, 7] {
        assert_eq!(
            scaler.source(&vec![memory(Some(9), layout, 0)]),
            Ok(Source::Known(views(9, 0, layout))),
        );
    }
    assert_eq!(scaler.src_views.len(), 8);
    assert!(matches!(
        scaler.source(&vec![memory(Some(1), 5, 0)]),
        Ok(Source::Missing(_)),
    ));
}

#[test]
fn a_frame_is_drawn_copied_and_its_source_put_back() {
    let scaler = VulkanScaler::new(1281, 720, PixFmt::Nv12, false, 4);
    let (scratch, output) = (50, 60);
    let plan = scaler.scale(views(1, 2, LAYOUT_GENERAL), scratch, output);
    let change = |image, aspect, old_layout, new_layout, src_access, dst_access| Barrier {
        image,
        aspect,
        old_layout,
        new_layout,
        src_access,
        dst_access,
    };
    let read = |image| {
        change(
            image,
            Aspect::Color,
            LAYOUT_GENERAL,
            LAYOUT_SHADER_READ_ONLY,
            ACCESS_NONE,
            ACCESS_SHADER_READ,
        )
    };
    let write = |aspect| {
        change(
            scratch,
            aspect,
            LAYOUT_UNDEFINED,
            LAYOUT_GENERAL,
            ACCESS_NONE,
            ACCESS_SHADER_WRITE,
        )
    };
    assert_eq!(
        plan.pre,
        vec![read(1), read(2), write(Aspect::Plane0), write(Aspect::Plane1)],
    );
    assert_eq!((plan.read_y, plan.read_uv), (101, 201));
    assert_eq!((plan.push_w, plan.push_h), (1281, 720));
    assert_eq!((plan.groups_x, plan.groups_y), (81, 45));
    let from = |aspect| {
        change(
            scratch,
            aspect,
            LAYOUT_GENERAL,
            LAYOUT_TRANSFER_SRC,
            ACCESS_SHADER_WRITE,
            ACCESS_TRANSFER_READ,
        )
    };
    let to = |aspect| {
        change(
            output,
            aspect,
            LAYOUT_UNDEFINED,
            LAYOUT_TRANSFER_DST,
            ACCESS_NONE,
            ACCESS_TRANSFER_WRITE,
        )
    };
    assert_eq!(
        plan.post,
        vec![from(Aspect::Plane0), from(Aspect::Plane1), to(Aspect::Plane0), to(Aspect::Plane1)],
    );
    assert_eq!(plan.luma, PlaneCopy { aspect: Aspect::Plane0, width: 1281, height: 720 });
    assert_eq!(plan.chroma, PlaneCopy { aspect: Aspect::Plane1, width: 640, height: 360 });
    let encode = |aspect| {
        change(
            output,
            aspect,
            LAYOUT_TRANSFER_DST,
            LAYOUT_VIDEO_ENCODE_SRC,
            ACCESS_TRANSFER_WRITE,
            ACCESS_NONE,
        )
    };
    let back = |image| {
        change(
            image,
            Aspect::Color,
            LAYOUT_SHADER_READ_ONLY,
            LAYOUT_GENERAL,
            ACCESS_SHADER_READ,
            ACCESS_NONE,
        )
    };
    assert_eq!(
        plan.tail,
        vec![encode(Aspect::Plane0), encode(Aspect::Plane1), back(1), back(2)],
    );
}

#[test]
fn a_readable_source_is_not_put_back_and_a_single_image_is_changed_once() {
    let scaler = VulkanScaler::new(16, 17, PixFmt::Nv12, false, 4);
    let plan = scaler.scale(views(1, 0, LAYOUT_SHADER_READ_ONLY), 50, 60);
    assert_eq!(plan.pre.len(), 3);
    assert_eq!(plan.tail.len(), 2);
    assert_eq!((plan.groups_x, plan.groups_y), (1, 2));
}
