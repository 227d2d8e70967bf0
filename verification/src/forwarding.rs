//! A track that stands between a receiver and a sender and readies packets for the other leg.
use vstd::prelude::*;

use crate::frame::{audio_view, AudioModel, AudioPacket, Leg, MediaModel, MediaPacket};
use crate::negotiate::{
    audio_mapping_of, dtmf_mapping_of, is_foreign, is_mapped_audio, is_mapped_dtmf, map_audio, map_dtmf,
    matches_audio, matches_dtmf, AudioMapping, DtmfMapping, NegotiatedLegProfile,
};
use crate::telephone_event::{law_events_keep_their_length, rescaled_payload, rewrite_dtmf_duration};
use crate::transcoder::{
    is_scalable, law_all_audio_is_converted, law_first_packet_keeps_its_place,
    law_ordinary_payloads_are_taken, law_packets_keep_their_distance, next_mark, placed, scalable,
    transcodable, transcoded, RtpTiming, TimingMark, Transcoder,
};

verus! {

/// A forwarding track. Profiles that are staged take effect before the next packet.
pub struct ForwardingTrack {
    pub update_ingress_profile: Option<NegotiatedLegProfile>,
    pub update_egress_profile: Option<NegotiatedLegProfile>,
    pub current_ingress_profile: Option<NegotiatedLegProfile>,
    pub current_egress_profile: Option<NegotiatedLegProfile>,
    pub transcoder: Option<Transcoder>,
    pub audio_mapping: Option<AudioMapping>,
    pub audio_timing: Option<RtpTiming>,
    pub dtmf_mapping: Option<DtmfMapping>,
    pub dtmf_timing: Option<RtpTiming>,
    /// Whether packets are recorded as they arrive.
    pub has_recorder: bool,
    /// Whether packets are captured as they arrive.
    pub has_capture: bool,
    /// The leg under which packets are captured as they leave.
    pub egress_leg: Option<Leg>,
    pub recorder_leg: Leg,
}

/// What is done with a packet.
pub struct ForwardedPacket {
    /// Record the packet as it arrived, under a leg.
    pub record: Option<Leg>,
    /// Capture the packet as it arrived, under a leg.
    pub capture: Option<Leg>,
    /// The packet for the other leg; without one the next packet is waited for.
    pub send: Option<MediaPacket>,
    /// Capture that packet, under a leg.
    pub capture_sent: Option<Leg>,
}

/// The audio timing that a mapping needs: where payload types or clock rates differ.
pub open spec fn needs_audio_timing(m: Option<AudioMapping>) -> bool {
    match m {
        Some(m) => m.source_clock_rate != m.target_clock_rate || m.source_pt != m.target_pt,
        None => false,
    }
}

/// The event timing that a mapping needs: where the clock rates differ.
pub open spec fn needs_dtmf_timing(m: Option<DtmfMapping>) -> bool {
    match m {
        Some(m) => match m.target_clock_rate {
            Some(rate) => m.source_clock_rate != rate,
            None => false,
        },
        None => false,
    }
}

/// Whether the codecs of two legs differ.
pub open spec fn needs_transcoder(ingress: NegotiatedLegProfile, egress: NegotiatedLegProfile) -> bool {
    match (ingress.audio, egress.audio) {
        (Some(s), Some(t)) => s.codec != t.codec,
        _ => false,
    }
}

fn fresh_timing(needed: bool) -> (r: Option<RtpTiming>)
    ensures
        r == (if needed {
            Some(RtpTiming { last: None })
        } else {
            None
        }),
{
    if needed {
        Some(RtpTiming { last: None })
    } else {
        None
    }
}

/// A fresh transcoder between the codecs of two legs, where they differ.
pub fn transcoder_between(ingress: &NegotiatedLegProfile, egress: &NegotiatedLegProfile) -> (r: Option<
    Transcoder,
>)
    ensures
        r is Some == needs_transcoder(*ingress, *egress),
        r matches Some(tx) ==> is_fresh(tx, *ingress, *egress),
{
    match (ingress.audio, egress.audio) {
        (Some(s), Some(t)) => if s.codec != t.codec {
            Some(Transcoder::new(s.codec, t.codec, t.payload_type))
        } else {
            None
        },
        _ => None,
    }
}

/// Whether a transcoder is a fresh one between the codecs of two legs.
pub open spec fn is_fresh(
    tx: Transcoder,
    ingress: NegotiatedLegProfile,
    egress: NegotiatedLegProfile,
) -> bool {
    &&& tx.wf()
    &&& tx.source() == ingress.audio->0.codec
    &&& tx.target() == egress.audio->0.codec
    &&& tx.spec_target_pt() == egress.audio->0.payload_type
    &&& tx.is_fresh()
}

pub open spec fn newer<T>(update: Option<T>, current: Option<T>) -> Option<T> {
    match update {
        Some(p) => Some(p),
        None => current,
    }
}

/// A telephone event for the other leg. Its payload type alone changes, unless the clock rates
/// differ.
pub open spec fn event_for(
    frame: AudioModel,
    m: DtmfMapping,
    timing: Option<RtpTiming>,
) -> (AudioModel, Option<RtpTiming>) {
    let pt = m.target_pt->0;
    let marked = AudioModel { payload_type: Some(pt), ..frame };
    match m.target_clock_rate {
        Some(rate) => if m.source_clock_rate != rate {
            let scaled = AudioModel {
                data: rescaled_payload(frame.data, m.source_clock_rate, rate),
                ..marked
            };
            match timing {
                Some(t) => {
                    let mark = next_mark(t.last, scaled, m.source_clock_rate, rate);
                    (placed(scaled, mark, rate, pt), Some(RtpTiming { last: Some(mark) }))
                },
                None => (scaled, None),
            }
        } else {
            (marked, timing)
        },
        None => (marked, timing),
    }
}

/// Audio in its place for the other leg.
pub open spec fn timed_for(
    frame: AudioModel,
    m: AudioMapping,
    timing: Option<RtpTiming>,
) -> (AudioModel, Option<RtpTiming>) {
    match timing {
        Some(t) => {
            let mark = next_mark(t.last, frame, m.source_clock_rate, m.target_clock_rate);
            (
                placed(frame, mark, m.target_clock_rate, m.target_pt),
                Some(RtpTiming { last: Some(mark) }),
            )
        },
        None => (frame, None),
    }
}

impl ForwardingTrack {
    /// The transcoder is in order.
    pub open spec fn wf(&self) -> bool {
        self.transcoder matches Some(tx) ==> tx.wf()
    }

    /// Whether a packet can be put in its place at the clock rate of the other leg.
    pub open spec fn can_place(&self, packet: MediaModel) -> bool {
        packet matches MediaModel::Audio(a) ==> {
            &&& self.events_scale(a)
            &&& self.audio_converts(a)
        }
    }

    /// Whether a frame that is a telephone event for the other leg can be put at its clock rate.
    pub open spec fn events_scale(&self, a: AudioModel) -> bool {
        let m = self.dtmf_mapping->0;
        matches_dtmf(self.dtmf_mapping, a.payload_type) && m.target_pt is Some
            && m.target_clock_rate is Some && self.dtmf_timing is Some ==> scalable(
            m.source_clock_rate,
            m.target_clock_rate->0,
        )
    }

    /// Whether a frame that is audio for the other leg can be put at its clock rate and in its codec.
    pub open spec fn audio_converts(&self, a: AudioModel) -> bool {
        let m = self.audio_mapping->0;
        matches_audio(self.audio_mapping, a.payload_type) ==> {
            &&& self.audio_timing is Some ==> scalable(m.source_clock_rate, m.target_clock_rate)
            &&& self.transcoder matches Some(tx) ==> transcodable(tx.source(), a.data)
        }
    }

    /// A track between two legs whose profiles take effect before the first packet.
    pub fn with_egress(
        has_recorder: bool,
        has_capture: bool,
        egress_leg: Option<Leg>,
        recorder_leg: Leg,
        ingress_profile: NegotiatedLegProfile,
        egress_profile: NegotiatedLegProfile,
    ) -> (r: Self)
        ensures
            r.update_ingress_profile == Some(ingress_profile),
            r.update_egress_profile == Some(egress_profile),
            r.current_ingress_profile is None,
            r.current_egress_profile is None,
            r.transcoder is None,
            r.audio_mapping is None,
            r.audio_timing is None,
            r.dtmf_mapping is None,
            r.dtmf_timing is None,
            r.has_recorder == has_recorder,
            r.has_capture == has_capture,
            r.egress_leg == egress_leg,
            r.recorder_leg == recorder_leg,
    {
        ForwardingTrack {
            update_ingress_profile: Some(ingress_profile),
            update_egress_profile: Some(egress_profile),
            current_ingress_profile: None,
            current_egress_profile: None,
            transcoder: None,
            audio_mapping: None,
            audio_timing: None,
            dtmf_mapping: None,
            dtmf_timing: None,
            has_recorder,
            has_capture,
            egress_leg,
            recorder_leg,
        }
    }

    /// A track that captures no packets as they leave.
    pub fn new(
        has_recorder: bool,
        has_capture: bool,
        recorder_leg: Leg,
        ingress_profile: NegotiatedLegProfile,
        egress_profile: NegotiatedLegProfile,
    ) -> (r: Self)
        ensures
            r == (ForwardingTrack {
                update_ingress_profile: Some(ingress_profile),
                update_egress_profile: Some(egress_profile),
                current_ingress_profile: None,
                current_egress_profile: None,
                transcoder: None,
                audio_mapping: None,
                audio_timing: None,
                dtmf_mapping: None,
                dtmf_timing: None,
                has_recorder,
                has_capture,
                egress_leg: None,
                recorder_leg,
            }),
    {
        Self::with_egress(
            has_recorder,
            has_capture,
            None,
            recorder_leg,
            ingress_profile,
            egress_profile,
        )
    }

    pub fn stage_ingress_profile(&mut self, profile: NegotiatedLegProfile)
        ensures
            *final(self) == (ForwardingTrack {
                update_ingress_profile: Some(profile),
                ..*old(self)
            }),
    {
        self.update_ingress_profile = Some(profile);
    }

    pub fn stage_egress_profile(&mut self, profile: NegotiatedLegProfile)
        ensures
            *final(self) == (ForwardingTrack {
                update_egress_profile: Some(profile),
                ..*old(self)
            }),
    {
        self.update_egress_profile = Some(profile);
    }

    /// The profile of arriving packets, with what is staged.
    pub fn ingress_profile(&self) -> (r: Option<NegotiatedLegProfile>)
        ensures
            r == newer(self.update_ingress_profile, self.current_ingress_profile),
    {
        match self.update_ingress_profile {
            Some(p) => Some(p),
            None => self.current_ingress_profile,
        }
    }

    /// Whether `after` is the track once what was staged has taken effect. Once both legs are
    /// known everything is made anew.
    pub open spec fn rebuilt(&self, after: &Self) -> bool {
        let ingress = newer(self.update_ingress_profile, self.current_ingress_profile);
        let egress = newer(self.update_egress_profile, self.current_egress_profile);
        if self.update_ingress_profile is None && self.update_egress_profile is None {
            *after == *self
        } else {
            let settled = ForwardingTrack {
                update_ingress_profile: None,
                update_egress_profile: None,
                current_ingress_profile: ingress,
                current_egress_profile: egress,
                ..*self
            };
            if ingress is None || egress is None {
                *after == settled
            } else {
                let audio = audio_mapping_of(ingress->0, egress->0);
                let dtmf = dtmf_mapping_of(ingress->0, egress->0);
                &&& *after == (ForwardingTrack {
                    transcoder: after.transcoder,
                    audio_mapping: audio,
                    audio_timing: (if needs_audio_timing(audio) {
                        Some(RtpTiming { last: None })
                    } else {
                        None
                    }),
                    dtmf_mapping: dtmf,
                    dtmf_timing: (if needs_dtmf_timing(dtmf) {
                        Some(RtpTiming { last: None })
                    } else {
                        None
                    }),
                    ..settled
                })
                &&& after.transcoder is Some == needs_transcoder(ingress->0, egress->0)
                &&& after.transcoder matches Some(tx) ==> is_fresh(tx, ingress->0, egress->0)
            }
        }
    }

    /// Lets what was staged take effect.
    pub fn rebuild_runtime_if_needed(&mut self)
        ensures
            old(self).rebuilt(final(self)),
            old(self).wf() ==> final(self).wf(),
    {
        if self.update_ingress_profile.is_none() && self.update_egress_profile.is_none() {
            return ;
        }
        if let Some(p) = self.update_ingress_profile {
            self.current_ingress_profile = Some(p);
        }
        if let Some(p) = self.update_egress_profile {
            self.current_egress_profile = Some(p);
        }
        self.update_ingress_profile = None;
        self.update_egress_profile = None;
        match (self.current_ingress_profile, self.current_egress_profile) {
            (Some(ingress), Some(egress)) => {
                let audio = map_audio(&ingress, &egress);
                let dtmf = map_dtmf(&ingress, &egress);
                let audio_differs = match &audio {
                    Some(m) => m.source_clock_rate != m.target_clock_rate || m.source_pt
                        != m.target_pt,
                    None => false,
                };
                let dtmf_differs = match &dtmf {
                    Some(m) => match m.target_clock_rate {
                        Some(rate) => m.source_clock_rate != rate,
                        None => false,
                    },
                    None => false,
                };
                self.transcoder = transcoder_between(&ingress, &egress);
                self.audio_mapping = audio;
                self.audio_timing = fresh_timing(audio_differs);
                self.dtmf_mapping = dtmf;
                self.dtmf_timing = fresh_timing(dtmf_differs);
            },
            _ => {},
        }
    }

    /// A telephone event for the other leg, if that takes any.
    fn try_map_dtmf(&mut self, frame: &AudioPacket) -> (r: Option<AudioPacket>)
        requires
            old(self).wf(),
            old(self).events_scale(frame@),
        ensures
            final(self).wf(),
            *final(self) == (ForwardingTrack { dtmf_timing: final(self).dtmf_timing, ..*old(self) }),
            ({
                let m = old(self).dtmf_mapping;
                if matches_dtmf(m, frame@.payload_type) && m->0.target_pt is Some {
                    &&& r is Some
                    &&& (r->0@, final(self).dtmf_timing) == event_for(
                        frame@,
                        m->0,
                        old(self).dtmf_timing,
                    )
                } else {
                    r is None && *final(self) == *old(self)
                }
            }),
    {
        if !is_mapped_dtmf(&self.dtmf_mapping, frame.payload_type) {
            return None;
        }
        let m: DtmfMapping = match self.dtmf_mapping {
            Some(m) => m,
            None => return None,
        };
        let pt: u8 = match m.target_pt {
            Some(pt) => pt,
            None => return None,
        };
        let mut out = frame.duplicate();
        out.payload_type = Some(pt);
        if let Some(rate) = m.target_clock_rate {
            if m.source_clock_rate != rate {
                out.data = rewrite_dtmf_duration(&out.data, m.source_clock_rate, rate);
                if let Some(mut t) = self.dtmf_timing.take() {
                    t.rewrite(&mut out, m.source_clock_rate, rate, pt);
                    self.dtmf_timing = Some(t);
                }
            }
        }
        Some(out)
    }

    /// Whether `out` can be what audio becomes, and `after` the track after it.
    pub open spec fn converts_audio(&self, frame: AudioModel, out: Option<AudioModel>, after: &Self) -> bool {
        let m = self.audio_mapping;
        if !matches_audio(m, frame.payload_type) {
            out is None && *after == *self
        } else if self.transcoder is Some {
            let tx = self.transcoder->0;
            exists|data: Seq<u8>|
                {
                    let base = #[trigger] transcoded(
                        frame,
                        data,
                        tx.target().spec_clock_rate(),
                        tx.spec_target_pt(),
                    );
                    &&& after.transcoder is Some
                    &&& tx.converts(frame.data, data, &after.transcoder->0)
                    &&& out is Some
                    &&& (out->0, after.audio_timing) == timed_for(base, m->0, self.audio_timing)
                    &&& *after == (ForwardingTrack {
                        transcoder: after.transcoder,
                        audio_timing: after.audio_timing,
                        ..*self
                    })
                }
        } else if frame.payload_type != Some(m->0.target_pt) || m->0.source_clock_rate
            != m->0.target_clock_rate {
            &&& out is Some
            &&& match self.audio_timing {
                Some(t) => {
                    &&& (out->0, after.audio_timing) == timed_for(frame, m->0, Some(t))
                    &&& *after == (ForwardingTrack { audio_timing: after.audio_timing, ..*self })
                },
                None => {
                    &&& out->0 == (AudioModel {
                        payload_type: Some(m->0.target_pt),
                        clock_rate: m->0.target_clock_rate,
                        ..frame
                    })
                    &&& *after == *self
                },
            }
        } else {
            out is None && *after == *self
        }
    }

    /// Audio for the other leg, if it changes on the way.
    fn try_transcode_audio(&mut self, frame: &AudioPacket) -> (r: Option<AudioPacket>)
        requires
            old(self).wf(),
            old(self).audio_converts(frame@),
        ensures
            final(self).wf(),
            old(self).converts_audio(frame@, audio_view(r), final(self)),
    {
        if !is_mapped_audio(&self.audio_mapping, frame.payload_type) {
            return None;
        }
        let m: AudioMapping = match self.audio_mapping {
            Some(m) => m,
            None => return None,
        };
        if let Some(mut tx) = self.transcoder.take() {
            let ghost before = tx;
            let mut out = tx.transcode(frame);
            let ghost data = out@.data;
            let ghost base = out@;
            if let Some(mut t) = self.audio_timing.take() {
                t.rewrite(&mut out, m.source_clock_rate, m.target_clock_rate, m.target_pt);
                self.audio_timing = Some(t);
            }
            self.transcoder = Some(tx);
            proof {
                assert(base == transcoded(
                    frame@,
                    data,
                    before.target().spec_clock_rate(),
                    before.spec_target_pt(),
                ));
            }
            return Some(out);
        }
        let same = match frame.payload_type {
            Some(pt) => pt == m.target_pt,
            None => false,
        };
        if same && m.source_clock_rate == m.target_clock_rate {
            return None;
        }
        let mut out = frame.duplicate();
        match self.audio_timing.take() {
            Some(mut t) => {
                t.rewrite(&mut out, m.source_clock_rate, m.target_clock_rate, m.target_pt);
                self.audio_timing = Some(t);
            },
            None => {
                out.payload_type = Some(m.target_pt);
                out.clock_rate = m.target_clock_rate;
            },
        }
        Some(out)
    }

    /// Whether a packet can be put in its place for the other leg. Only audio that is too long for
    /// its decoder, or a packet whose clock does not run, cannot.
    pub fn accepts(&self, packet: &MediaPacket) -> (r: bool)
        ensures
            r == self.can_place(packet@),
    {
        let pt: Option<u8> = match packet {
            MediaPacket::Audio(a) => a.payload_type,
            MediaPacket::Video(_) => return true,
        };
        if let Some(m) = self.dtmf_mapping {
            if is_mapped_dtmf(&self.dtmf_mapping, pt) && m.target_pt.is_some()
                && self.dtmf_timing.is_some() {
                if let Some(rate) = m.target_clock_rate {
                    if !is_scalable(m.source_clock_rate, rate) {
                        return false;
                    }
                }
            }
        }
        if let Some(m) = self.audio_mapping {
            if is_mapped_audio(&self.audio_mapping, pt) {
                if self.audio_timing.is_some() && !is_scalable(
                    m.source_clock_rate,
                    m.target_clock_rate,
                ) {
                    return false;
                }
                if let Some(tx) = &self.transcoder {
                    return tx.accepts(packet);
                }
            }
        }
        true
    }

    /// What becomes of a packet that arrived, and the track after it. Call after what was staged
    /// has taken effect.
    pub fn forward(&mut self, packet: MediaPacket) -> (r: ForwardedPacket)
        requires
            old(self).wf(),
            old(self).can_place(packet@),
        ensures
            final(self).wf(),
            match packet@ {
                MediaModel::Video(v) => {
                    &&& *final(self) == *old(self)
                    &&& r.record is None
                    &&& r.capture is None
                    &&& r.send is Some
                    &&& r.send->0@ == packet@
                    &&& r.capture_sent is None
                },
                MediaModel::Audio(a) => {
                    &&& r.record == (if old(self).has_recorder {
                        Some(old(self).recorder_leg)
                    } else {
                        None
                    })
                    &&& r.capture == (if old(self).has_capture {
                        Some(old(self).recorder_leg)
                    } else {
                        None
                    })
                    &&& old(self).forwards(a, r, final(self))
                },
            },
    {
        let frame = match packet {
            MediaPacket::Video(v) => {
                return ForwardedPacket {
                    record: None,
                    capture: None,
                    send: Some(MediaPacket::Video(v)),
                    capture_sent: None,
                };
            },
            MediaPacket::Audio(a) => a,
        };
        let record: Option<Leg> = if self.has_recorder {
            Some(self.recorder_leg)
        } else {
            None
        };
        let capture: Option<Leg> = if self.has_capture {
            Some(self.recorder_leg)
        } else {
            None
        };
        let is_event = is_mapped_dtmf(&self.dtmf_mapping, frame.payload_type);
        let is_audio = is_mapped_audio(&self.audio_mapping, frame.payload_type);
        if (self.audio_mapping.is_some() || self.dtmf_mapping.is_some()) && !is_event && !is_audio {
            return ForwardedPacket { record, capture, send: None, capture_sent: None };
        }
        let out: AudioPacket = match self.try_map_dtmf(&frame) {
            Some(p) => p,
            None => match self.try_transcode_audio(&frame) {
                Some(p) => p,
                None => frame,
            },
        };
        ForwardedPacket {
            record,
            capture,
            send: Some(MediaPacket::Audio(out)),
            capture_sent: self.egress_leg,
        }
    }

    /// Whether `r` can be what becomes of an audio packet, and `after` the track after it: packets
    /// that no mapping is for are dropped; telephone events are mapped; audio is converted; and
    /// anything else passes as it is.
    pub open spec fn forwards(&self, a: AudioModel, r: ForwardedPacket, after: &Self) -> bool {
        if is_foreign(self.audio_mapping, self.dtmf_mapping, a.payload_type) {
            &&& r.send is None
            &&& r.capture_sent is None
            &&& *after == *self
        } else {
            &&& r.send matches Some(MediaPacket::Audio(p))
            &&& r.capture_sent == self.egress_leg
            &&& if matches_dtmf(self.dtmf_mapping, a.payload_type)
                && self.dtmf_mapping->0.target_pt is Some {
                &&& *after == (ForwardingTrack { dtmf_timing: after.dtmf_timing, ..*self })
                &&& (p@, after.dtmf_timing) == event_for(a, self.dtmf_mapping->0, self.dtmf_timing)
            } else {
                ||| self.converts_audio(a, Some(p@), after)
                ||| self.converts_audio(a, None, after) && p@ == a
            }
        }
    }
}

/// A telephone event never goes through the transcoder: the transcoder and the audio timing stay
/// as they were.
pub proof fn law_events_are_not_transcoded(
    t: &ForwardingTrack,
    a: AudioModel,
    r: ForwardedPacket,
    after: &ForwardingTrack,
)
    requires
        t.forwards(a, r, after),
        matches_dtmf(t.dtmf_mapping, a.payload_type),
        t.dtmf_mapping->0.target_pt is Some,
    ensures
        after.transcoder == t.transcoder,
        after.audio_timing == t.audio_timing,
        r.send is Some,
{
}

/// Legs of one codec, payload type and clock rate pass audio as it is.
pub proof fn law_equal_legs_pass_audio_unchanged(
    t: &ForwardingTrack,
    a: AudioModel,
    r: ForwardedPacket,
    after: &ForwardingTrack,
)
    requires
        t.forwards(a, r, after),
        t.transcoder is None,
        t.audio_mapping is Some,
        t.audio_mapping->0.source_pt == t.audio_mapping->0.target_pt,
        t.audio_mapping->0.source_clock_rate == t.audio_mapping->0.target_clock_rate,
        !matches_dtmf(t.dtmf_mapping, a.payload_type),
        matches_audio(t.audio_mapping, a.payload_type),
    ensures
        r.send matches Some(MediaPacket::Audio(p)) && p@ == a,
        *after == *t,
{
}

/// Without a transcoder, audio of the mapped payload type reaches the other leg with its payload,
/// under that leg's payload type; where the formats differ it has that leg's clock rate. Without a
/// timing it keeps its place.
pub proof fn law_mapped_audio_keeps_its_payload(
    t: &ForwardingTrack,
    a: AudioModel,
    r: ForwardedPacket,
    after: &ForwardingTrack,
    m: AudioMapping,
)
    requires
        t.forwards(a, r, after),
        t.transcoder is None,
        t.audio_mapping == Some(m),
        a.payload_type == Some(m.source_pt),
        t.dtmf_mapping matches Some(d) ==> d.source_pt != m.source_pt || d.target_pt is None,
    ensures
        r.send is Some && r.send->0 is Audio,
        ({
            let p = r.send->0->Audio_0@;
            let changes = m.source_pt != m.target_pt || m.source_clock_rate != m.target_clock_rate;
            &&& p.data == a.data
            &&& p.payload_type == Some(m.target_pt)
            &&& p.marker == a.marker
            &&& p.source_addr == a.source_addr
            &&& p.header_extension == a.header_extension
            &&& p.raw_packet == a.raw_packet
            &&& changes ==> p.clock_rate == m.target_clock_rate
            &&& !changes ==> p == a
            &&& t.audio_timing is None ==> p.rtp_timestamp == a.rtp_timestamp && p.sequence_number
                == a.sequence_number
            &&& changes && m.source_clock_rate > 0 ==> (t.audio_timing matches Some(timing) ==> (
            timing.last matches Some(last) ==> {
                let before = (a.rtp_timestamp - last.source_timestamp) % 0x1_0000_0000;
                let behind = (p.rtp_timestamp - last.timestamp) % 0x1_0000_0000;
                &&& p.sequence_number == Some(((last.sequence + 1) % 65536) as u16)
                &&& before * m.target_clock_rate < 0x1_0000_0000 * m.source_clock_rate ==> behind
                    * m.source_clock_rate <= before * m.target_clock_rate < (behind + 1)
                    * m.source_clock_rate
            }))
        }),
        r.capture_sent == t.egress_leg,
        after.transcoder is None,
{
    if m.source_clock_rate > 0 {
        if let Some(timing) = t.audio_timing {
            if let Some(last) = timing.last {
                law_packets_keep_their_distance(last, a, m.source_clock_rate, m.target_clock_rate);
            }
        }
    }
}

/// With a transcoder, what is decoded is the payload that arrived, and what is sent is what was
/// encoded of it. Without a timing it keeps its place.
pub proof fn law_mapped_audio_is_transcoded(
    t: &ForwardingTrack,
    a: AudioModel,
    r: ForwardedPacket,
    after: &ForwardingTrack,
    m: AudioMapping,
    tx: Transcoder,
)
    requires
        t.forwards(a, r, after),
        t.transcoder == Some(tx),
        t.audio_mapping == Some(m),
        a.payload_type == Some(m.source_pt),
        t.dtmf_mapping matches Some(d) ==> d.source_pt != m.source_pt || d.target_pt is None,
    ensures
        r.send is Some && r.send->0 is Audio,
        after.transcoder is Some,
        ({
            let p = r.send->0->Audio_0@;
            let next = after.transcoder->0;
            &&& next.decoded_log() == tx.decoded_log().push((a.data, next.decoded_log().last().1))
            &&& next.encoded_log() == tx.encoded_log().push((next.encoded_log().last().0, p.data))
            &&& p.marker == a.marker
            &&& p.source_addr == a.source_addr
            &&& t.audio_timing is None ==> {
                &&& p.rtp_timestamp == a.rtp_timestamp
                &&& p.sequence_number == a.sequence_number
                &&& p.payload_type == Some(tx.spec_target_pt())
                &&& p.clock_rate == tx.target().spec_clock_rate()
            }
            &&& t.audio_timing is Some ==> {
                &&& p.payload_type == Some(m.target_pt)
                &&& p.clock_rate == m.target_clock_rate
            }
        }),
{
    let p = r.send->0->Audio_0@;
    let next = after.transcoder->0;
    let data = choose|data: Seq<u8>|
        {
            let base = #[trigger] transcoded(
                a,
                data,
                tx.target().spec_clock_rate(),
                tx.spec_target_pt(),
            );
            &&& after.transcoder is Some
            &&& tx.converts(a.data, data, &next)
            &&& (p, after.audio_timing) == timed_for(base, m, t.audio_timing)
            &&& *after == (ForwardingTrack {
                transcoder: after.transcoder,
                audio_timing: after.audio_timing,
                ..*t
            })
        };
    law_all_audio_is_converted(&tx, a.data, data, &next);
}

/// A telephone event reaches the other leg as the same event of the same length in time, under
/// that leg's payload type.
pub proof fn law_forwarded_events_stay_what_they_are(
    t: &ForwardingTrack,
    a: AudioModel,
    r: ForwardedPacket,
    after: &ForwardingTrack,
    m: DtmfMapping,
    target_pt: u8,
    target_rate: u32,
)
    requires
        t.forwards(a, r, after),
        t.dtmf_mapping == Some(m),
        a.payload_type == Some(m.source_pt),
        m.target_pt == Some(target_pt),
        m.target_clock_rate == Some(target_rate),
        m.source_clock_rate > 0,
        target_rate > 0,
        a.data.len() >= 4,
    ensures
        r.send is Some && r.send->0 is Audio,
        ({
            let p = r.send->0->Audio_0@;
            let d = 256 * a.data[2] + a.data[3];
            let e = 256 * p.data[2] + p.data[3];
            &&& p.payload_type == Some(target_pt)
            &&& p.data.len() == a.data.len()
            &&& forall|i: int|
                0 <= i < a.data.len() && i != 2 && i != 3 ==> #[trigger] p.data[i] == a.data[i]
            &&& d * target_rate < 65536 * m.source_clock_rate ==> e * m.source_clock_rate <= d
                * target_rate < (e + 1) * m.source_clock_rate
            &&& d * target_rate >= 65536 * m.source_clock_rate ==> e == 65535
            &&& m.source_clock_rate == target_rate ==> p.data == a.data && p.rtp_timestamp
                == a.rtp_timestamp && p.sequence_number == a.sequence_number
            &&& p.marker == a.marker
            &&& p.source_addr == a.source_addr
        }),
{
    law_events_keep_their_length(a.data, m.source_clock_rate, target_rate);
    let s = m.source_clock_rate as int;
    let d = 256 * a.data[2] + a.data[3];
    if m.source_clock_rate == target_rate {
        assert(d * s < 65536 * s) by (nonlinear_arith)
            requires
                0 <= d < 65536,
                s > 0,
        ;
    }
}

/// Packets of a payload type that no mapping is for are dropped once there is one, and without any
/// mapping everything passes as it is.
pub proof fn law_unmapped_packets(
    t: &ForwardingTrack,
    a: AudioModel,
    r: ForwardedPacket,
    after: &ForwardingTrack,
)
    requires
        t.forwards(a, r, after),
        t.audio_mapping matches Some(m) ==> a.payload_type != Some(m.source_pt),
        t.dtmf_mapping matches Some(m) ==> a.payload_type != Some(m.source_pt),
    ensures
        *after == *t,
        t.audio_mapping is Some || t.dtmf_mapping is Some ==> r.send is None && r.capture_sent is None,
        t.audio_mapping is None && t.dtmf_mapping is None ==> r.send is Some && r.send->0@
            == MediaModel::Audio(a) && r.capture_sent == t.egress_leg,
{
}

/// What was staged last counts. Once both legs are known, packets are mapped from the one's format
/// to the other's, and audio is transcoded exactly if their codecs differ.
pub proof fn law_staged_profiles_take_effect(
    t: &ForwardingTrack,
    after: &ForwardingTrack,
    ingress: NegotiatedLegProfile,
    egress: NegotiatedLegProfile,
)
    requires
        t.rebuilt(after),
        t.update_ingress_profile == Some(ingress) || t.update_egress_profile == Some(egress),
        t.update_ingress_profile == Some(ingress) || (t.update_ingress_profile is None
            && t.current_ingress_profile == Some(ingress)),
        t.update_egress_profile == Some(egress) || (t.update_egress_profile is None
            && t.current_egress_profile == Some(egress)),
    ensures
        after.update_ingress_profile is None,
        after.update_egress_profile is None,
        after.current_ingress_profile == Some(ingress),
        after.current_egress_profile == Some(egress),
        after.audio_mapping is Some <==> ingress.audio is Some && egress.audio is Some,
        after.audio_mapping matches Some(m) ==> {
            &&& m.source_pt == ingress.audio->0.payload_type
            &&& m.target_pt == egress.audio->0.payload_type
            &&& m.source_clock_rate == ingress.audio->0.clock_rate
            &&& m.target_clock_rate == egress.audio->0.clock_rate
            &&& after.audio_timing is Some <==> m.source_pt != m.target_pt || m.source_clock_rate
                != m.target_clock_rate
        },
        after.dtmf_mapping is Some <==> ingress.dtmf is Some,
        after.transcoder is Some <==> ingress.audio is Some && egress.audio is Some
            && ingress.audio->0.codec != egress.audio->0.codec,
        after.transcoder matches Some(tx) ==> {
            &&& tx.source() == ingress.audio->0.codec
            &&& tx.target() == egress.audio->0.codec
            &&& tx.spec_target_pt() == egress.audio->0.payload_type
            &&& tx.is_fresh()
        },
        after.has_recorder == t.has_recorder,
        after.has_capture == t.has_capture,
        after.egress_leg == t.egress_leg,
        after.recorder_leg == t.recorder_leg,
{
}

/// Whatever comes can be forwarded where the clocks run and a payload is no longer than a decoder
/// takes.
pub proof fn law_ordinary_packets_can_be_placed(t: &ForwardingTrack, packet: MediaModel)
    requires
        t.audio_mapping matches Some(m) ==> m.source_clock_rate > 0,
        t.dtmf_mapping matches Some(m) ==> m.source_clock_rate > 0,
        packet.data().len() <= 2049,
    ensures
        t.can_place(packet),
{
    if let Some(tx) = t.transcoder {
        law_ordinary_payloads_are_taken(tx.source(), packet.data());
    }
}

/// With a timing, transcoded audio follows what went before by one sequence number and by as much
/// time as it did on the other leg.
pub proof fn law_forwarded_audio_keeps_its_distance(
    t: &ForwardingTrack,
    a: AudioModel,
    r: ForwardedPacket,
    after: &ForwardingTrack,
    m: AudioMapping,
    last: TimingMark,
)
    requires
        t.forwards(a, r, after),
        t.transcoder is Some,
        t.audio_mapping == Some(m),
        t.audio_timing == Some(RtpTiming { last: Some(last) }),
        a.payload_type == Some(m.source_pt),
        t.dtmf_mapping matches Some(d) ==> d.source_pt != m.source_pt || d.target_pt is None,
        m.source_clock_rate > 0,
    ensures
        r.send is Some && r.send->0 is Audio,
        ({
            let p = r.send->0->Audio_0@;
            let before = (a.rtp_timestamp - last.source_timestamp) % 0x1_0000_0000;
            let behind = (p.rtp_timestamp - last.timestamp) % 0x1_0000_0000;
            &&& p.sequence_number == Some(((last.sequence + 1) % 65536) as u16)
            &&& before * m.target_clock_rate < 0x1_0000_0000 * m.source_clock_rate ==> behind
                * m.source_clock_rate <= before * m.target_clock_rate < (behind + 1)
                * m.source_clock_rate
            &&& after.audio_timing == Some(
                RtpTiming {
                    last: Some(
                        TimingMark {
                            source_timestamp: a.rtp_timestamp,
                            timestamp: p.rtp_timestamp,
                            sequence: p.sequence_number->0,
                        },
                    ),
                },
            )
        }),
        after.dtmf_timing == t.dtmf_timing,
{
    let tx = t.transcoder->0;
    let p = r.send->0->Audio_0@;
    let data = choose|data: Seq<u8>|
        {
            let base = #[trigger] transcoded(
                a,
                data,
                tx.target().spec_clock_rate(),
                tx.spec_target_pt(),
            );
            &&& after.transcoder is Some
            &&& tx.converts(a.data, data, &after.transcoder->0)
            &&& (p, after.audio_timing) == timed_for(base, m, t.audio_timing)
            &&& *after == (ForwardingTrack {
                transcoder: after.transcoder,
                audio_timing: after.audio_timing,
                ..*t
            })
        };
    let base = transcoded(a, data, tx.target().spec_clock_rate(), tx.spec_target_pt());
    law_packets_keep_their_distance(last, base, m.source_clock_rate, m.target_clock_rate);
}

/// A telephone event for a leg whose events run at another clock rate is placed by that clock,
/// behind the event before it, and leaves its place for the next; at the same clock rate it keeps
/// its place. Audio is not placed by it.
pub proof fn law_forwarded_events_are_placed(
    t: &ForwardingTrack,
    a: AudioModel,
    r: ForwardedPacket,
    after: &ForwardingTrack,
    m: DtmfMapping,
    target_pt: u8,
)
    requires
        t.forwards(a, r, after),
        t.dtmf_mapping == Some(m),
        a.payload_type == Some(m.source_pt),
        m.target_pt == Some(target_pt),
        m.source_clock_rate > 0,
    ensures
        r.send is Some && r.send->0 is Audio,
        r.capture_sent == t.egress_leg,
        after.audio_timing == t.audio_timing,
        ({
            let p = r.send->0->Audio_0@;
            &&& m.target_clock_rate is None || m.target_clock_rate == Some(m.source_clock_rate)
                || t.dtmf_timing is None ==> {
                &&& p.rtp_timestamp == a.rtp_timestamp
                &&& p.sequence_number == a.sequence_number
                &&& p.clock_rate == a.clock_rate
                &&& after.dtmf_timing == t.dtmf_timing
            }
            &&& m.target_clock_rate is None || m.target_clock_rate == Some(m.source_clock_rate)
                ==> p.data == a.data
            &&& p.payload_type == Some(target_pt)
            &&& p.marker == a.marker
            &&& p.header_extension == a.header_extension
            &&& p.raw_packet == a.raw_packet
            &&& m.target_clock_rate matches Some(rate) ==> (rate != m.source_clock_rate
                && t.dtmf_timing is Some ==> {
                let last = t.dtmf_timing->0.last;
                let before = (a.rtp_timestamp - last->0.source_timestamp) % 0x1_0000_0000;
                let behind = (p.rtp_timestamp - last->0.timestamp) % 0x1_0000_0000;
                &&& p.clock_rate == rate
                &&& p.sequence_number is Some
                &&& after.dtmf_timing == Some(
                    RtpTiming {
                        last: Some(
                            TimingMark {
                                source_timestamp: a.rtp_timestamp,
                                timestamp: p.rtp_timestamp,
                                sequence: p.sequence_number->0,
                            },
                        ),
                    },
                )
                &&& last is Some ==> p.sequence_number == Some(
                    ((last->0.sequence + 1) % 65536) as u16,
                )
                &&& last is Some && before * rate < 0x1_0000_0000 * m.source_clock_rate ==> behind
                    * m.source_clock_rate <= before * rate < (behind + 1) * m.source_clock_rate
                &&& last is None && a.sequence_number is Some ==> p.sequence_number
                    == a.sequence_number
                &&& last is None && a.rtp_timestamp * rate < 0x1_0000_0000 * m.source_clock_rate
                    ==> p.rtp_timestamp * m.source_clock_rate <= a.rtp_timestamp * rate < (
                p.rtp_timestamp + 1) * m.source_clock_rate
            })
        }),
{
    if let Some(rate) = m.target_clock_rate {
        let marked = AudioModel { payload_type: Some(target_pt), ..a };
        let scaled = AudioModel {
            data: rescaled_payload(a.data, m.source_clock_rate, rate),
            ..marked
        };
        law_first_packet_keeps_its_place(scaled, m.source_clock_rate, rate);
        if let Some(timing) = t.dtmf_timing {
            if let Some(last) = timing.last {
                law_packets_keep_their_distance(last, scaled, m.source_clock_rate, rate);
            }
        }
    }
}

/// Telephone events are mapped from the one leg's format to the other's, where the other has one,
/// and are timed exactly if their clocks differ. With nothing staged, or with one leg unknown,
/// nothing of this changes.
pub proof fn law_staged_profiles_map_events(
    t: &ForwardingTrack,
    after: &ForwardingTrack,
    ingress: NegotiatedLegProfile,
    egress: NegotiatedLegProfile,
)
    requires
        t.rebuilt(after),
    ensures
        t.update_ingress_profile is None && t.update_egress_profile is None ==> *after == *t,
        (t.update_ingress_profile is None && t.current_ingress_profile is None) || (
        t.update_egress_profile is None && t.current_egress_profile is None) ==> {
            &&& after.transcoder == t.transcoder
            &&& after.audio_mapping == t.audio_mapping
            &&& after.audio_timing == t.audio_timing
            &&& after.dtmf_mapping == t.dtmf_mapping
            &&& after.dtmf_timing == t.dtmf_timing
            &&& t.update_ingress_profile is Some ==> after.current_ingress_profile
                == t.update_ingress_profile
            &&& t.update_egress_profile is Some ==> after.current_egress_profile
                == t.update_egress_profile
        },
        t.update_ingress_profile == Some(ingress) && t.update_egress_profile == Some(egress) ==> {
            &&& after.dtmf_mapping is Some <==> ingress.dtmf is Some
            &&& after.dtmf_mapping matches Some(m) ==> {
                &&& m.source_pt == ingress.dtmf->0.payload_type
                &&& m.source_clock_rate == ingress.dtmf->0.clock_rate
                &&& egress.dtmf is None ==> m.target_pt is None && m.target_clock_rate is None
                &&& egress.dtmf matches Some(e) ==> m.target_pt == Some(e.payload_type)
                    && m.target_clock_rate == Some(e.clock_rate)
                &&& after.dtmf_timing is Some <==> egress.dtmf is Some && egress.dtmf->0.clock_rate
                    != ingress.dtmf->0.clock_rate
            }
            &&& after.dtmf_timing matches Some(timing) ==> timing.last is None
            &&& after.audio_timing matches Some(timing) ==> timing.last is None
        },
{
}

} // verus!
