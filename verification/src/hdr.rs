//! HDR metadata as the display reports it, and what an output can present.

use vstd::prelude::*;

verus! {

/// What a source says about the light it was mastered for.
#[derive(Debug, Clone)]
pub struct HdrMetadata {
    pub eotf: Eotf,
    pub mastering_display_info: Option<MasteringDisplayInfo>,
    pub content_light_level: Option<ContentLightLevel>,
}

/// The electro-optical transfer function of a source or an output.
#[derive(Debug, Clone)]
pub enum Eotf {
    Traditional,
    Srgb,
    /// HDR10 / PQ.
    St2084,
    Hlg,
}

/// The display a source was mastered on.
#[derive(Debug, Clone)]
pub struct MasteringDisplayInfo {
    pub display_primaries: [DisplayPrimary; 3],
    pub white_point: ChromaticityCoordinate,
    pub max_display_mastering_luminance: u32,
    pub min_display_mastering_luminance: u32,
}

#[derive(Debug, Clone)]
pub struct DisplayPrimary {
    pub x: u16,
    pub y: u16,
}

#[derive(Debug, Clone)]
pub struct ChromaticityCoordinate {
    pub x: u16,
    pub y: u16,
}

#[derive(Debug, Clone)]
pub struct ContentLightLevel {
    pub max_content_light_level: u16,
    pub max_frame_average_light_level: u16,
}

/// What an output supports, and the metadata it is showing.
pub struct HdrState {
    pub metadata: Option<HdrMetadata>,
    pub supported_eotfs: Vec<Eotf>,
    pub max_luminance: u32,
    pub min_luminance: u32,
}

impl Eotf {
    /// The transfer functions of HDR: PQ and HLG.
    pub open spec fn is_hdr(self) -> bool {
        self is St2084 || self is Hlg
    }
}

impl HdrState {
    /// An output can present HDR when one of its transfer functions is an HDR one.
    pub open spec fn hdr_capable(self) -> bool {
        exists|i: int|
            0 <= i < self.supported_eotfs@.len() && (#[trigger] self.supported_eotfs@[i]).is_hdr()
    }

    /// The state of an output nobody has configured: SDR only, at SDR luminance.
    pub open spec fn is_default(self) -> bool {
        &&& self.metadata is None
        &&& self.supported_eotfs@ == seq![Eotf::Traditional, Eotf::Srgb]
        &&& self.max_luminance == 100
        &&& self.min_luminance == 0
    }
}

impl Default for HdrState {
    fn default() -> (s: Self)
        ensures
            s.is_default(),
    {
        let mut supported_eotfs: Vec<Eotf> = Vec::new();
        supported_eotfs.push(Eotf::Traditional);
        supported_eotfs.push(Eotf::Srgb);
        assert(supported_eotfs@ =~= seq![Eotf::Traditional, Eotf::Srgb]);
        HdrState { metadata: None, supported_eotfs, max_luminance: 100, min_luminance: 0 }
    }
}

impl HdrState {
    pub fn new() -> (s: Self)
        ensures
            s.is_default(),
            !s.hdr_capable(),
    {
        Self::default()
    }

    /// Replace the metadata; what the output supports is left alone.
    pub fn set_metadata(&mut self, metadata: HdrMetadata)
        ensures
            final(self).metadata == Some(metadata),
            final(self).supported_eotfs == old(self).supported_eotfs,
            final(self).max_luminance == old(self).max_luminance,
            final(self).min_luminance == old(self).min_luminance,
    {
        self.metadata = Some(metadata);
    }

    pub fn supports_hdr(&self) -> (b: bool)
        ensures
            b == self.hdr_capable(),
    {
        let n: usize = self.supported_eotfs.len();
        let mut i: usize = 0;
        while i < n
            invariant
                n == self.supported_eotfs@.len(),
                i <= n,
                forall|k: int| 0 <= k < i ==> !(#[trigger] self.supported_eotfs@[k]).is_hdr(),
            decreases n - i,
        {
            match self.supported_eotfs[i] {
                Eotf::St2084 | Eotf::Hlg => {
                    assert(self.supported_eotfs@[i as int].is_hdr());
                    return true;
                },
                Eotf::Traditional | Eotf::Srgb => {},
            }
            i += 1;
        }
        false
    }
}

/// Metadata never changes what an output can present.
pub proof fn law_metadata_does_not_change_capability(before: HdrState, after: HdrState)
    requires
        after.supported_eotfs == before.supported_eotfs,
    ensures
        after.hdr_capable() == before.hdr_capable(),
{
}

/// An output presents HDR exactly when it supports PQ or HLG; the other transfer functions make
/// no difference.
pub proof fn law_pq_or_hlg_makes_an_output_hdr(state: HdrState)
    ensures
        state.hdr_capable() <==> exists|i: int|
            0 <= i < state.supported_eotfs@.len() && (#[trigger] state.supported_eotfs@[i]
                == Eotf::St2084 || state.supported_eotfs@[i] == Eotf::Hlg),
{
    if state.hdr_capable() {
        let i = choose|i: int|
            0 <= i < state.supported_eotfs@.len() && (
            #[trigger] state.supported_eotfs@[i]).is_hdr();
        assert(state.supported_eotfs@[i] == Eotf::St2084 || state.supported_eotfs@[i]
            == Eotf::Hlg);
    }
    if exists|i: int|
        0 <= i < state.supported_eotfs@.len() && (#[trigger] state.supported_eotfs@[i]
            == Eotf::St2084 || state.supported_eotfs@[i] == Eotf::Hlg) {
        let i = choose|i: int|
            0 <= i < state.supported_eotfs@.len() && (#[trigger] state.supported_eotfs@[i]
                == Eotf::St2084 || state.supported_eotfs@[i] == Eotf::Hlg);
        assert(state.supported_eotfs@[i].is_hdr());
    }
}

/// An output nobody has configured shows nothing, supports the two SDR transfer functions, and
/// has the luminance of an SDR display.
pub proof fn law_an_output_starts_as_sdr(state: HdrState)
    requires
        state.is_default(),
    ensures
        state.metadata is None,
        state.supported_eotfs@.len() == 2,
        state.supported_eotfs@[0] == Eotf::Traditional,
        state.supported_eotfs@[1] == Eotf::Srgb,
        state.max_luminance == 100,
        state.min_luminance == 0,
        !state.hdr_capable(),
{
}

} // verus!
