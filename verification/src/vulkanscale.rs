//! The scaler as a pipeline element: what it negotiates, when it scales, and when it only
//! passes frames on.

use crate::scaler::{ScalerError, MIN_RING};
use vstd::prelude::*;

verus! {

/// The depth of the output ring.
pub const RING: usize = MIN_RING;

/// The profile the encoder behind the element is driven with; the output images are made for it.
pub fn encode_profile() -> (profile: &'static str)
    ensures
        profile@ == "high"@,
{
    "high"
}

/// How frames are sampled.
#[derive(Debug, Clone, Copy, PartialEq, Eq, Structural)]
pub enum ScaleMethod {
    Bilinear,
    Nearest,
}

impl Default for ScaleMethod {
    fn default() -> (method: ScaleMethod)
        ensures
            method is Bilinear,
    {
        ScaleMethod::Bilinear
    }
}

impl ScaleMethod {
    /// The name of the method in a pipeline description.
    pub open spec fn name(self) -> Seq<char> {
        match self {
            ScaleMethod::Bilinear => "bilinear"@,
            ScaleMethod::Nearest => "nearest"@,
        }
    }

    pub fn nick(self) -> (nick: &'static str)
        ensures
            nick@ == self.name(),
            self is Bilinear ==> nick@ == "bilinear"@,
            self is Nearest ==> nick@ == "nearest"@,
    {
        match self {
            ScaleMethod::Bilinear => "bilinear",
            ScaleMethod::Nearest => "nearest",
        }
    }

    /// The method of that name, if there is one.
    pub fn from_nick(nick: &str) -> (method: Option<ScaleMethod>)
        ensures
            method matches Some(m) ==> nick@ == m.name(),
            method is None ==> forall|m: ScaleMethod| nick@ != #[trigger] m.name(),
            method == Some(ScaleMethod::Bilinear) <==> nick@ == "bilinear"@,
            method == Some(ScaleMethod::Nearest) <==> nick@ == "nearest"@,
    {
        proof {
            reveal_strlit("bilinear");
            reveal_strlit("nearest");
            assert("bilinear"@.len() == 8);
            assert("nearest"@.len() == 7);
        }
        let given = nick.to_owned();
        if given == "bilinear".to_owned() {
            Some(ScaleMethod::Bilinear)
        } else if given == "nearest".to_owned() {
            Some(ScaleMethod::Nearest)
        } else {
            None
        }
    }
}

/// What one side of the element negotiated.
#[derive(Debug, Clone, Copy, PartialEq, Eq, Structural)]
pub struct SideInfo {
    /// The pixel format, by its number in the media framework.
    pub format: u32,
    pub width: u32,
    pub height: u32,
}

/// Why negotiated formats were refused.
#[derive(Debug, Clone, Copy, PartialEq, Eq, Structural)]
pub enum CapsError {
    /// The format of the sink side makes no sense.
    InvalidSink,
    /// The format of the source side makes no sense.
    InvalidSrc,
    /// The two sides differ in their pixel format.
    FormatConversion { from: u32, to: u32 },
}

/// Why a frame was not scaled.
#[derive(Debug, Clone, Copy, PartialEq, Eq, Structural)]
pub enum ScaleError {
    /// Nothing has been negotiated.
    NoCaps,
    /// Neither side shares a Vulkan device.
    NoDevice,
    /// The device has no queue that can draw and compute.
    NoQueue,
    /// The scaler could not be built.
    Init(ScalerError),
    /// The frame could not be scaled.
    Scale(ScalerError),
}

impl ScaleError {
    /// What is said of the error, ahead of what the scaler says.
    pub open spec fn words(self) -> Seq<char> {
        match self {
            ScaleError::NoCaps => "no negotiated output caps"@,
            ScaleError::NoDevice =>
                "no shared GstVulkanDevice: vulkanscale must sit on a Vulkan path"@,
            ScaleError::NoQueue => "shared GstVulkanDevice exposes no graphics+compute queue"@,
            ScaleError::Init(_) => "scaler init failed: "@,
            ScaleError::Scale(_) => "scale failed: "@,
        }
    }

    /// The error in words; those of the scaler follow.
    pub fn message(self) -> (text: &'static str)
        ensures
            text@ == (match self {
                ScaleError::NoCaps => "no negotiated output caps"@,
                ScaleError::NoDevice =>
                    "no shared GstVulkanDevice: vulkanscale must sit on a Vulkan path"@,
                ScaleError::NoQueue =>
                    "shared GstVulkanDevice exposes no graphics+compute queue"@,
                ScaleError::Init(_) => "scaler init failed: "@,
                ScaleError::Scale(_) => "scale failed: "@,
            }),
            text@ == self.words(),
    {
        match self {
            ScaleError::NoCaps => "no negotiated output caps",
            ScaleError::NoDevice =>
                "no shared GstVulkanDevice: vulkanscale must sit on a Vulkan path",
            ScaleError::NoQueue => "shared GstVulkanDevice exposes no graphics+compute queue",
            ScaleError::Init(_) => "scaler init failed: ",
            ScaleError::Scale(_) => "scale failed: ",
        }
    }
}

/// What to do with a frame.
#[derive(Debug, Clone, Copy, PartialEq, Eq, Structural)]
pub enum Prepare {
    /// Hand it on as it is.
    PassThrough,
    Scale,
}

/// The scaler to build.
#[derive(Debug, Clone, Copy, PartialEq, Eq, Structural)]
pub struct BuildRequest {
    pub out: SideInfo,
    pub nearest: bool,
    pub ring: usize,
}

/// Where the shared Vulkan device may be found.
#[derive(Debug, Clone, Copy, PartialEq, Eq, Structural)]
pub enum DeviceSource {
    /// It was handed to the element already.
    Shared,
    /// The side the frames go to: the encoder.
    Downstream,
    /// The side the frames come from: the producer.
    Upstream,
    /// The pipeline.
    Context,
}

/// What to do after asking for the device.
#[derive(Debug, Clone, Copy, PartialEq, Eq, Structural)]
pub enum DeviceStep {
    Use,
    Ask(DeviceSource),
    GiveUp,
}

/// The element.
#[derive(Debug, Clone, Copy, PartialEq, Eq, Structural)]
pub struct VulkanScale {
    pub method: ScaleMethod,
    pub in_info: Option<SideInfo>,
    pub out_info: Option<SideInfo>,
    /// There is a scaler for the negotiated sizes.
    pub has_scaler: bool,
    /// Frames are handed on as they are.
    pub passthrough: bool,
}

impl Default for VulkanScale {
    fn default() -> (element: VulkanScale)
        ensures
            element == (VulkanScale {
                method: ScaleMethod::Bilinear,
                in_info: None,
                out_info: None,
                has_scaler: false,
                passthrough: false,
            }),
    {
        VulkanScale {
            method: ScaleMethod::Bilinear,
            in_info: None,
            out_info: None,
            has_scaler: false,
            passthrough: false,
        }
    }
}

/// Why the two sides are refused, if they are. The sink side is looked at first.
pub open spec fn caps_error(sink: Option<SideInfo>, src: Option<SideInfo>) -> Option<CapsError> {
    match (sink, src) {
        (None, _) => Some(CapsError::InvalidSink),
        (Some(_), None) => Some(CapsError::InvalidSrc),
        (Some(i), Some(o)) => if i.format != o.format {
            Some(CapsError::FormatConversion { from: i.format, to: o.format })
        } else {
            None
        },
    }
}

/// Why a scaler cannot be built, if it cannot.
pub open spec fn build_error(out: Option<SideInfo>, device: bool, queue: bool) -> Option<
    ScaleError,
> {
    if out is None {
        Some(ScaleError::NoCaps)
    } else if !device {
        Some(ScaleError::NoDevice)
    } else if !queue {
        Some(ScaleError::NoQueue)
    } else {
        None
    }
}

impl VulkanScale {
    /// A scaler is there only for negotiated sizes, and frames pass through exactly when the
    /// two sizes are the same.
    pub open spec fn wf(self) -> bool {
        &&& self.in_info is Some <==> self.out_info is Some
        &&& self.has_scaler ==> self.out_info is Some
        &&& self.in_info is Some ==> {
            &&& self.in_info->0.format == self.out_info->0.format
            &&& self.passthrough == (self.in_info->0 == self.out_info->0)
        }
    }

    /// The element once its sides have been negotiated as `sink` and `src`.
    pub open spec fn negotiated(self, sink: SideInfo, src: SideInfo) -> VulkanScale {
        VulkanScale {
            in_info: Some(sink),
            out_info: Some(src),
            has_scaler: false,
            passthrough: sink.width == src.width && sink.height == src.height,
            ..self
        }
    }

    /// The element once it stopped.
    pub open spec fn stopped(self) -> VulkanScale {
        VulkanScale { in_info: None, out_info: None, has_scaler: false, ..self }
    }

    /// The element once the scaler it asked for was built, or was not, and what comes of that.
    pub open spec fn with_scaler(self, built: Result<(), ScalerError>) -> (
        VulkanScale,
        Result<(), ScaleError>,
    ) {
        match built {
            Ok(_) => (VulkanScale { has_scaler: true, ..self }, Ok(())),
            Err(e) => (self, Err(ScaleError::Init(e))),
        }
    }

    /// The size of the frames that go out; zero before there is one.
    pub open spec fn out_size(self) -> (u32, u32) {
        match self.out_info {
            Some(info) => (info.width, info.height),
            None => (0, 0),
        }
    }

    /// What is done with a frame.
    pub open spec fn prepared(self) -> Prepare {
        if self.passthrough {
            Prepare::PassThrough
        } else {
            Prepare::Scale
        }
    }

    /// Both sides negotiated; a side is `None` if its format makes no sense. A scaler for
    /// other sizes is dropped, and the next frame that needs one builds it anew.
    pub fn set_caps(&mut self, sink: Option<SideInfo>, src: Option<SideInfo>) -> (accepted: Result<
        (),
        CapsError,
    >)
        ensures
            accepted is Ok <==> caps_error(sink, src) is None,
            accepted matches Err(e) ==> caps_error(sink, src) == Some(e) && *final(self)
                == *old(self),
            accepted is Ok ==> final(self).wf() && *final(self) == old(self).negotiated(
                sink->0,
                src->0,
            ),
    {
        let sink = match sink {
            Some(info) => info,
            None => {
                return Err(CapsError::InvalidSink);
            },
        };
        let src = match src {
            Some(info) => info,
            None => {
                return Err(CapsError::InvalidSrc);
            },
        };
        if sink.format != src.format {
            return Err(CapsError::FormatConversion { from: sink.format, to: src.format });
        }
        self.has_scaler = false;
        self.in_info = Some(sink);
        self.out_info = Some(src);
        self.passthrough = sink.width == src.width && sink.height == src.height;
        Ok(())
    }

    /// The element stops: what was negotiated is forgotten.
    pub fn stop(&mut self)
        ensures
            *final(self) == (VulkanScale {
                in_info: None,
                out_info: None,
                has_scaler: false,
                ..*old(self)
            }),
            *final(self) == old(self).stopped(),
            final(self).wf(),
    {
        self.has_scaler = false;
        self.in_info = None;
        self.out_info = None;
    }

    /// The negotiated width of the frames that go out; zero before there is one.
    pub fn current_width(&self) -> (width: u32)
        ensures
            width == (match self.out_info {
                Some(info) => info.width,
                None => 0,
            }),
            width == self.out_size().0,
    {
        match self.out_info {
            Some(info) => info.width,
            None => 0,
        }
    }

    /// The negotiated height of the frames that go out; zero before there is one.
    pub fn current_height(&self) -> (height: u32)
        ensures
            height == (match self.out_info {
                Some(info) => info.height,
                None => 0,
            }),
            height == self.out_size().1,
    {
        match self.out_info {
            Some(info) => info.height,
            None => 0,
        }
    }

    pub fn prepare_output_buffer(&self) -> (prepare: Prepare)
        ensures
            prepare is PassThrough <==> self.passthrough,
            prepare == self.prepared(),
    {
        if self.passthrough {
            Prepare::PassThrough
        } else {
            Prepare::Scale
        }
    }

    /// What is to be built before a frame can be scaled.
    pub open spec fn to_build(self, device: bool, queue: bool) -> Result<
        Option<BuildRequest>,
        ScaleError,
    > {
        if self.has_scaler {
            Ok(None)
        } else {
            match build_error(self.out_info, device, queue) {
                Some(e) => Err(e),
                None => Ok(
                    Some(
                        BuildRequest {
                            out: self.out_info->0,
                            nearest: self.method is Nearest,
                            ring: RING,
                        },
                    ),
                ),
            }
        }
    }

    /// The scaler to build before a frame can be scaled, if there is none. `device` and `queue`
    /// are whether a shared device, and a queue on it, were found; they are asked for only once
    /// the size is known.
    pub fn scaler_to_build(&self, device: bool, queue: bool) -> (request: Result<
        Option<BuildRequest>,
        ScaleError,
    >)
        ensures
            self.has_scaler ==> request == Ok::<Option<BuildRequest>, ScaleError>(None),
            !self.has_scaler ==> {
                &&& request is Err <==> build_error(self.out_info, device, queue) is Some
                &&& request matches Err(e) ==> build_error(self.out_info, device, queue) == Some(e)
                &&& request matches Ok(r) ==> r == Some(
                    BuildRequest {
                        out: self.out_info->0,
                        nearest: self.method is Nearest,
                        ring: RING,
                    },
                )
            },
            request == self.to_build(device, queue),
    {
        if self.has_scaler {
            return Ok(None);
        }
        let out = match self.out_info {
            Some(out) => out,
            None => {
                return Err(ScaleError::NoCaps);
            },
        };
        if !device {
            return Err(ScaleError::NoDevice);
        }
        if !queue {
            return Err(ScaleError::NoQueue);
        }
        let nearest = match self.method {
            ScaleMethod::Nearest => true,
            ScaleMethod::Bilinear => false,
        };
        Ok(Some(BuildRequest { out, nearest, ring: RING }))
    }

    /// The scaler asked for was built, or was not.
    pub fn scaler_built(&mut self, built: Result<(), ScalerError>) -> (ready: Result<
        (),
        ScaleError,
    >)
        requires
            old(self).out_info is Some,
        ensures
            built is Ok ==> ready is Ok && *final(self) == (VulkanScale {
                has_scaler: true,
                ..*old(self)
            }),
            built matches Err(e) ==> ready == Err::<(), ScaleError>(ScaleError::Init(e))
                && *final(self) == *old(self),
            old(self).with_scaler(built) == (*final(self), ready),
            old(self).wf() ==> final(self).wf(),
    {
        match built {
            Ok(()) => {
                self.has_scaler = true;
                Ok(())
            },
            Err(e) => Err(ScaleError::Init(e)),
        }
    }
}

/// What follows when `source` was asked for the device.
pub open spec fn after_asking(source: DeviceSource, found: bool) -> DeviceStep {
    if found {
        DeviceStep::Use
    } else {
        match source {
            DeviceSource::Shared => DeviceStep::Ask(DeviceSource::Downstream),
            DeviceSource::Downstream => DeviceStep::Ask(DeviceSource::Upstream),
            DeviceSource::Upstream => DeviceStep::Ask(DeviceSource::Context),
            DeviceSource::Context => DeviceStep::GiveUp,
        }
    }
}

/// Where to look for the device after `source` was asked: first what the element has, then
/// the encoder, the producer, and last the pipeline.
pub fn next_device_source(source: DeviceSource, found: bool) -> (step: DeviceStep)
    ensures
        step == (if found {
            DeviceStep::Use
        } else {
            match source {
                DeviceSource::Shared => DeviceStep::Ask(DeviceSource::Downstream),
                DeviceSource::Downstream => DeviceStep::Ask(DeviceSource::Upstream),
                DeviceSource::Upstream => DeviceStep::Ask(DeviceSource::Context),
                DeviceSource::Context => DeviceStep::GiveUp,
            }
        }),
        step == after_asking(source, found),
{
    if found {
        return DeviceStep::Use;
    }
    match source {
        DeviceSource::Shared => DeviceStep::Ask(DeviceSource::Downstream),
        DeviceSource::Downstream => DeviceStep::Ask(DeviceSource::Upstream),
        DeviceSource::Upstream => DeviceStep::Ask(DeviceSource::Context),
        DeviceSource::Context => DeviceStep::GiveUp,
    }
}

/// No two methods have the same name, so a method is found again by its name.
pub proof fn law_names_tell_methods_apart(a: ScaleMethod, b: ScaleMethod)
    requires
        a.name() == b.name(),
    ensures
        a == b,
{
    reveal_strlit("bilinear");
    reveal_strlit("nearest");
    assert("bilinear"@.len() == 8);
    assert("nearest"@.len() == 7);
}

/// After sizes were negotiated, the first frame that is scaled builds a scaler for the new
/// size, whatever scaler there was before; sides that are the same need none.
pub proof fn law_a_resize_builds_a_new_scaler(before: VulkanScale, sink: SideInfo, src: SideInfo)
    requires
        caps_error(Some(sink), Some(src)) is None,
    ensures
        ({
            let after = before.negotiated(sink, src);
            &&& after.wf()
            &&& !after.has_scaler
            &&& after.out_info == Some(src)
            &&& build_error(after.out_info, true, true) is None
            &&& after.passthrough <==> sink == src
        }),
{
}

/// The two sides are refused for a side that makes no sense, the sink side before the other, and
/// for different pixel formats; different sizes are what the element is for.
pub proof fn law_only_a_change_of_format_is_refused(
    sink: Option<SideInfo>,
    src: Option<SideInfo>,
)
    ensures
        sink is None ==> caps_error(sink, src) == Some(CapsError::InvalidSink),
        sink is Some && src is None ==> caps_error(sink, src) == Some(CapsError::InvalidSrc),
        sink is Some && src is Some && sink->0.format != src->0.format ==> caps_error(sink, src)
            == Some(CapsError::FormatConversion { from: sink->0.format, to: src->0.format }),
        sink is Some && src is Some && sink->0.format == src->0.format ==> caps_error(
            sink,
            src,
        ) is None,
{
}

/// Negotiated sides are remembered as they were given, and a scaler for what was before is gone.
/// Frames pass through when both dimensions stay the same. The method is not negotiated.
pub proof fn law_a_negotiation_is_remembered(before: VulkanScale, sink: SideInfo, src: SideInfo)
    ensures
        ({
            let after = before.negotiated(sink, src);
            &&& after.in_info == Some(sink)
            &&& after.out_info == Some(src)
            &&& !after.has_scaler
            &&& after.passthrough <==> sink.width == src.width && sink.height == src.height
            &&& after.method == before.method
        }),
{
}

/// A scaler is built once for a negotiation: for the size that goes out, with the filter that
/// was chosen, over a ring of four. What is missing for it is named in the order in which it is
/// needed.
pub proof fn law_a_scaler_is_built_for_the_size_that_goes_out(
    element: VulkanScale,
    device: bool,
    queue: bool,
)
    ensures
        ({
            let request = element.to_build(device, queue);
            let none = element.out_info is None;
            &&& element.has_scaler ==> request == Ok::<Option<BuildRequest>, ScaleError>(None)
            &&& !element.has_scaler ==> {
                &&& none ==> request == Err::<Option<BuildRequest>, ScaleError>(ScaleError::NoCaps)
                &&& !none && !device ==> request == Err::<Option<BuildRequest>, ScaleError>(
                    ScaleError::NoDevice,
                )
                &&& !none && device && !queue ==> request == Err::<
                    Option<BuildRequest>,
                    ScaleError,
                >(ScaleError::NoQueue)
                &&& !none && device && queue ==> {
                    &&& request is Ok && request->Ok_0 is Some
                    &&& request->Ok_0->0.out == element.out_info->0
                    &&& request->Ok_0->0.nearest <==> element.method == ScaleMethod::Nearest
                    &&& request->Ok_0->0.ring == 4
                }
            }
        }),
{
}

/// The device is taken from the first place that has it: what was handed over already, the
/// encoder, the producer, the pipeline, each asked once and in this order.
pub proof fn law_the_device_is_asked_for_from_the_encoder_on(source: DeviceSource)
    ensures
        after_asking(source, true) == DeviceStep::Use,
        after_asking(DeviceSource::Shared, false) == DeviceStep::Ask(DeviceSource::Downstream),
        after_asking(DeviceSource::Downstream, false) == DeviceStep::Ask(DeviceSource::Upstream),
        after_asking(DeviceSource::Upstream, false) == DeviceStep::Ask(DeviceSource::Context),
        after_asking(DeviceSource::Context, false) == DeviceStep::GiveUp,
{
}

/// The methods go by the names that a pipeline description has for them.
pub proof fn law_methods_have_their_names(method: ScaleMethod)
    ensures
        method == ScaleMethod::Bilinear ==> method.name() == "bilinear"@,
        method == ScaleMethod::Nearest ==> method.name() == "nearest"@,
{
}

/// Each failure has its own words, and those of the scaler say whether it was being built or
/// used.
pub proof fn law_failures_of_the_element_are_told_apart(e: ScalerError)
    ensures
        ScaleError::NoCaps.words() == "no negotiated output caps"@,
        ScaleError::NoDevice.words()
            == "no shared GstVulkanDevice: vulkanscale must sit on a Vulkan path"@,
        ScaleError::NoQueue.words()
            == "shared GstVulkanDevice exposes no graphics+compute queue"@,
        ScaleError::Init(e).words() == "scaler init failed: "@,
        ScaleError::Scale(e).words() == "scale failed: "@,
{
}

/// An element that stopped has no sizes and no scaler, and is not ready to build one; its method
/// stays.
pub proof fn law_a_stopped_element_has_forgotten_its_sizes(
    element: VulkanScale,
    device: bool,
    queue: bool,
)
    ensures
        element.stopped().in_info is None && element.stopped().out_info is None,
        element.stopped().out_size() == (0u32, 0u32),
        element.stopped().to_build(device, queue) == Err::<Option<BuildRequest>, ScaleError>(
            ScaleError::NoCaps,
        ),
        element.stopped().method == element.method,
        element.stopped().passthrough == element.passthrough,
{
}

/// After a negotiation the frames that go out have the size of the source side, and a frame is
/// handed on as it is exactly when it has that size already.
pub proof fn law_frames_of_the_right_size_are_handed_on(
    before: VulkanScale,
    sink: SideInfo,
    src: SideInfo,
)
    ensures
        before.negotiated(sink, src).out_size() == (src.width, src.height),
        before.negotiated(sink, src).prepared() == Prepare::PassThrough <==> sink.width
            == src.width && sink.height == src.height,
        before.negotiated(sink, src).prepared() == Prepare::Scale <==> sink.width != src.width
            || sink.height != src.height,
{
}

/// A scaler that was built is there, and is not asked for again until the next negotiation; one
/// that was not leaves the element to try again, and says why.
pub proof fn law_a_scaler_is_asked_for_until_it_is_built(
    element: VulkanScale,
    e: ScalerError,
    device: bool,
    queue: bool,
)
    ensures
        ({
            let (after, ready) = element.with_scaler(Ok(()));
            &&& after.has_scaler
            &&& ready is Ok
            &&& after.to_build(device, queue) == Ok::<Option<BuildRequest>, ScaleError>(None)
            &&& after == (VulkanScale { has_scaler: true, ..element })
        }),
        element.with_scaler(Err(e)).0 == element,
        element.with_scaler(Err(e)).1 == Err::<(), ScaleError>(ScaleError::Init(e)),
{
}

} // verus!
