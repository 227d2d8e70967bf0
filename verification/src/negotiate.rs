//! What a leg was negotiated to.
use vstd::prelude::*;

use crate::voice::VoiceCodec;

verus! {

/// A codec and how packets of it are marked.
#[derive(Debug, Clone, Copy, PartialEq, Eq, Structural)]
pub struct NegotiatedCodec {
    pub codec: VoiceCodec,
    pub payload_type: u8,
    pub clock_rate: u32,
    pub channels: u16,
}

/// The audio and telephone-event codecs of a leg.
#[derive(Debug, Clone, Copy, PartialEq, Eq, Structural)]
pub struct NegotiatedLegProfile {
    pub audio: Option<NegotiatedCodec>,
    pub dtmf: Option<NegotiatedCodec>,
}

impl Default for NegotiatedLegProfile {
    fn default() -> (r: Self)
        ensures
            r.audio is None,
            r.dtmf is None,
    {
        NegotiatedLegProfile { audio: None, dtmf: None }
    }
}

/// The codec of a leg that was negotiated to none: mu-law.
pub open spec fn fallback_codec() -> NegotiatedCodec {
    NegotiatedCodec { codec: VoiceCodec::Pcmu, payload_type: 0, clock_rate: 8000, channels: 1 }
}

/// The codec of a leg that was negotiated to none.
pub fn default_audio_codec() -> (r: NegotiatedCodec)
    ensures
        r == fallback_codec(),
{
    let codec = VoiceCodec::Pcmu;
    NegotiatedCodec {
        codec,
        payload_type: codec.payload_type(),
        clock_rate: codec.clock_rate(),
        channels: codec.channels(),
    }
}

/// The audio codec of a leg.
pub open spec fn audio_codec_of(profile: NegotiatedLegProfile) -> NegotiatedCodec {
    match profile.audio {
        Some(c) => c,
        None => fallback_codec(),
    }
}

/// The audio codec of a leg.
pub fn selected_audio_codec(profile: &NegotiatedLegProfile) -> (r: NegotiatedCodec)
    ensures
        r == audio_codec_of(*profile),
{
    match profile.audio {
        Some(c) => c,
        None => default_audio_codec(),
    }
}

/// Audio of one payload type and clock rate becomes that of another.
#[derive(Debug, Clone, Copy, PartialEq, Eq, Structural)]
pub struct AudioMapping {
    pub source_pt: u8,
    pub target_pt: u8,
    pub source_clock_rate: u32,
    pub target_clock_rate: u32,
}

/// Telephone events of one payload type and clock rate become those of another, if the other side
/// takes any.
#[derive(Debug, Clone, Copy, PartialEq, Eq, Structural)]
pub struct DtmfMapping {
    pub source_pt: u8,
    pub target_pt: Option<u8>,
    pub source_clock_rate: u32,
    pub target_clock_rate: Option<u32>,
}

/// How audio passes between two legs, if both have any.
pub open spec fn audio_mapping_of(
    ingress: NegotiatedLegProfile,
    egress: NegotiatedLegProfile,
) -> Option<AudioMapping> {
    match (ingress.audio, egress.audio) {
        (Some(s), Some(t)) => Some(
            AudioMapping {
                source_pt: s.payload_type,
                target_pt: t.payload_type,
                source_clock_rate: s.clock_rate,
                target_clock_rate: t.clock_rate,
            },
        ),
        _ => None,
    }
}

pub fn map_audio(ingress: &NegotiatedLegProfile, egress: &NegotiatedLegProfile) -> (r: Option<
    AudioMapping,
>)
    ensures
        r == audio_mapping_of(*ingress, *egress),
{
    match (ingress.audio, egress.audio) {
        (Some(s), Some(t)) => Some(
            AudioMapping {
                source_pt: s.payload_type,
                target_pt: t.payload_type,
                source_clock_rate: s.clock_rate,
                target_clock_rate: t.clock_rate,
            },
        ),
        _ => None,
    }
}

/// How telephone events pass between two legs, if the first has any.
pub open spec fn dtmf_mapping_of(
    ingress: NegotiatedLegProfile,
    egress: NegotiatedLegProfile,
) -> Option<DtmfMapping> {
    match ingress.dtmf {
        Some(s) => Some(
            DtmfMapping {
                source_pt: s.payload_type,
                target_pt: match egress.dtmf {
                    Some(t) => Some(t.payload_type),
                    None => None,
                },
                source_clock_rate: s.clock_rate,
                target_clock_rate: match egress.dtmf {
                    Some(t) => Some(t.clock_rate),
                    None => None,
                },
            },
        ),
        None => None,
    }
}

pub fn map_dtmf(ingress: &NegotiatedLegProfile, egress: &NegotiatedLegProfile) -> (r: Option<
    DtmfMapping,
>)
    ensures
        r == dtmf_mapping_of(*ingress, *egress),
{
    let s: NegotiatedCodec = match ingress.dtmf {
        Some(s) => s,
        None => return None,
    };
    let (target_pt, target_clock_rate): (Option<u8>, Option<u32>) = match egress.dtmf {
        Some(t) => (Some(t.payload_type), Some(t.clock_rate)),
        None => (None, None),
    };
    Some(
        DtmfMapping {
            source_pt: s.payload_type,
            target_pt,
            source_clock_rate: s.clock_rate,
            target_clock_rate,
        },
    )
}

/// Whether a packet of a payload type is audio that is mapped.
pub open spec fn matches_audio(mapping: Option<AudioMapping>, payload_type: Option<u8>) -> bool {
    match mapping {
        Some(m) => payload_type == Some(m.source_pt),
        None => false,
    }
}

/// Whether a packet of a payload type is a telephone event that is mapped.
pub open spec fn matches_dtmf(mapping: Option<DtmfMapping>, payload_type: Option<u8>) -> bool {
    match mapping {
        Some(m) => payload_type == Some(m.source_pt),
        None => false,
    }
}

pub fn is_mapped_audio(mapping: &Option<AudioMapping>, payload_type: Option<u8>) -> (r: bool)
    ensures
        r == matches_audio(*mapping, payload_type),
{
    match (mapping, payload_type) {
        (Some(m), Some(pt)) => pt == m.source_pt,
        _ => false,
    }
}

pub fn is_mapped_dtmf(mapping: &Option<DtmfMapping>, payload_type: Option<u8>) -> (r: bool)
    ensures
        r == matches_dtmf(*mapping, payload_type),
{
    match (mapping, payload_type) {
        (Some(m), Some(pt)) => pt == m.source_pt,
        _ => false,
    }
}

/// Whether a packet is dropped: mappings exist and none is for it.
pub open spec fn is_foreign(
    audio: Option<AudioMapping>,
    dtmf: Option<DtmfMapping>,
    payload_type: Option<u8>,
) -> bool {
    (audio is Some || dtmf is Some) && !matches_audio(audio, payload_type) && !matches_dtmf(
        dtmf,
        payload_type,
    )
}

/// Audio is mapped exactly if both legs have any, from the format of the first to that of the
/// second; the way back is the same mapping turned round.
pub proof fn law_audio_is_mapped_between_both_formats(
    ingress: NegotiatedLegProfile,
    egress: NegotiatedLegProfile,
)
    ensures
        audio_mapping_of(ingress, egress) is Some <==> ingress.audio is Some && egress.audio is Some,
        audio_mapping_of(ingress, egress) matches Some(m) ==> {
            let back = audio_mapping_of(egress, ingress)->0;
            &&& m.source_pt == ingress.audio->0.payload_type
            &&& m.source_clock_rate == ingress.audio->0.clock_rate
            &&& m.target_pt == egress.audio->0.payload_type
            &&& m.target_clock_rate == egress.audio->0.clock_rate
            &&& back.source_pt == m.target_pt
            &&& back.target_pt == m.source_pt
            &&& back.source_clock_rate == m.target_clock_rate
            &&& back.target_clock_rate == m.source_clock_rate
        },
{
}

/// Telephone events are mapped exactly if the first leg has any; where the second has none they
/// have no target.
pub proof fn law_events_are_mapped_from_the_first_leg(
    ingress: NegotiatedLegProfile,
    egress: NegotiatedLegProfile,
)
    ensures
        dtmf_mapping_of(ingress, egress) is Some <==> ingress.dtmf is Some,
        dtmf_mapping_of(ingress, egress) matches Some(m) ==> {
            &&& m.source_pt == ingress.dtmf->0.payload_type
            &&& m.source_clock_rate == ingress.dtmf->0.clock_rate
            &&& m.target_pt is Some <==> egress.dtmf is Some
            &&& m.target_clock_rate is Some <==> egress.dtmf is Some
            &&& egress.dtmf matches Some(t) ==> m.target_pt == Some(t.payload_type)
                && m.target_clock_rate == Some(t.clock_rate)
        },
{
}

/// A leg that was negotiated to a codec has it; one that was not has mu-law at 8000 Hz in one
/// channel under payload type 0.
pub proof fn law_negotiated_codec_is_selected(profile: NegotiatedLegProfile)
    ensures
        profile.audio matches Some(c) ==> audio_codec_of(profile) == c,
        profile.audio is None ==> {
            let c = audio_codec_of(profile);
            &&& c.codec == VoiceCodec::Pcmu
            &&& c.payload_type == 0
            &&& c.clock_rate == 8000
            &&& c.channels == 1
        },
{
}

/// Nothing is dropped without a mapping. With one, a packet is dropped exactly if its payload type
/// is neither that of the audio nor that of the telephone events which are mapped.
pub proof fn law_only_foreign_packets_are_dropped(
    audio: Option<AudioMapping>,
    dtmf: Option<DtmfMapping>,
    payload_type: Option<u8>,
)
    ensures
        audio is None && dtmf is None ==> !is_foreign(audio, dtmf, payload_type),
        audio matches Some(m) ==> !is_foreign(audio, dtmf, Some(m.source_pt)),
        dtmf matches Some(m) ==> !is_foreign(audio, dtmf, Some(m.source_pt)),
        (audio is Some || dtmf is Some) && payload_type is None ==> is_foreign(
            audio,
            dtmf,
            payload_type,
        ),
        payload_type matches Some(pt) ==> {
            is_foreign(audio, dtmf, payload_type) <==> {
                &&& audio is Some || dtmf is Some
                &&& audio matches Some(m) ==> m.source_pt != pt
                &&& dtmf matches Some(m) ==> m.source_pt != pt
            }
        },
{
}

} // verus!
