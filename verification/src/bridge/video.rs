//! Video passes through untouched but for its payload types, which each leg numbers on its own.
use std::collections::HashMap;
use vstd::prelude::*;

use crate::frame::{MediaModel, MediaPacket, VideoModel, VideoPacket};
use crate::text::{eq_ignore_ascii_case, same_folded};

verus! {

broadcast use vstd::std_specs::hash::group_hash_axioms;

/// A video codec that a leg can take.
#[derive(Debug)]
pub struct VideoCapability {
    pub payload_type: u8,
    pub codec_name: String,
    pub clock_rate: u32,
    pub fmtp: Option<String>,
    pub rtcp_fbs: Vec<String>,
}

/// Whether two capabilities are of one codec.
pub open spec fn same_codec(a: VideoCapability, b: VideoCapability) -> bool {
    same_folded(a.codec_name@, b.codec_name@) && a.clock_rate == b.clock_rate
}

/// The payload type under which the first of `targets` of the same codec is known.
pub open spec fn counterpart(source: VideoCapability, targets: Seq<VideoCapability>) -> Option<u8>
    decreases targets.len(),
{
    if targets.len() == 0 {
        None
    } else if same_codec(source, targets[0]) {
        Some(targets[0].payload_type)
    } else {
        counterpart(source, targets.skip(1))
    }
}

/// Payload types of `sources` to those of `targets` by codec; of several capabilities with one
/// payload type the first that has a counterpart counts.
pub open spec fn payload_map(sources: Seq<VideoCapability>, targets: Seq<VideoCapability>) -> Map<u8, u8>
    decreases sources.len(),
{
    if sources.len() == 0 {
        Map::empty()
    } else {
        let before = payload_map(sources.drop_last(), targets);
        match counterpart(sources.last(), targets) {
            Some(pt) => if before.contains_key(sources.last().payload_type) {
                before
            } else {
                before.insert(sources.last().payload_type, pt)
            },
            None => before,
        }
    }
}

fn find_counterpart(source: &VideoCapability, targets: &Vec<VideoCapability>) -> (r: Option<u8>)
    ensures
        r == counterpart(*source, targets@),
{
    let mut i: usize = 0;
    assert(targets@.skip(0) =~= targets@);
    while i < targets.len()
        invariant
            i <= targets.len(),
            counterpart(*source, targets@) == counterpart(*source, targets@.skip(i as int)),
        decreases targets.len() - i,
    {
        assert(targets@.skip(i as int).skip(1) =~= targets@.skip(i + 1));
        if eq_ignore_ascii_case(source.codec_name.as_str(), targets[i].codec_name.as_str())
            && source.clock_rate == targets[i].clock_rate {
            return Some(targets[i].payload_type);
        }
        i = i + 1;
    }
    None
}

/// Maps the payload types of one leg to those of the other by codec.
pub fn video_payload_map_by_codec(
    sources: &Vec<VideoCapability>,
    targets: &Vec<VideoCapability>,
) -> (r: HashMap<u8, u8>)
    ensures
        r@ == payload_map(sources@, targets@),
{
    let mut map: HashMap<u8, u8> = HashMap::new();
    let mut i: usize = 0;
    assert(sources@.take(0) =~= Seq::empty());
    while i < sources.len()
        invariant
            i <= sources.len(),
            map@ == payload_map(sources@.take(i as int), targets@),
        decreases sources.len() - i,
    {
        assert(sources@.take(i + 1).drop_last() =~= sources@.take(i as int));
        if let Some(pt) = find_counterpart(&sources[i], targets) {
            if !map.contains_key(&sources[i].payload_type) {
                map.insert(sources[i].payload_type, pt);
            }
        }
        i = i + 1;
    }
    assert(sources@.take(sources.len() as int) =~= sources@);
    map
}

/// The mapped payload type of the first capability that has one.
pub open spec fn first_mapped(caps: Seq<VideoCapability>, map: Map<u8, u8>) -> Option<u8>
    decreases caps.len(),
{
    if caps.len() == 0 {
        None
    } else if map.contains_key(caps[0].payload_type) {
        Some(map[caps[0].payload_type])
    } else {
        first_mapped(caps.skip(1), map)
    }
}

/// The mapped payload type of the first capability that has one.
pub fn fallback_payload_type(caps: &Vec<VideoCapability>, map: &HashMap<u8, u8>) -> (r: Option<u8>)
    ensures
        r == first_mapped(caps@, map@),
{
    let mut i: usize = 0;
    assert(caps@.skip(0) =~= caps@);
    while i < caps.len()
        invariant
            i <= caps.len(),
            first_mapped(caps@, map@) == first_mapped(caps@.skip(i as int), map@),
        decreases caps.len() - i,
    {
        assert(caps@.skip(i as int).skip(1) =~= caps@.skip(i + 1));
        if let Some(pt) = map.get(&caps[i].payload_type) {
            return Some(*pt);
        }
        i = i + 1;
    }
    None
}

/// Every mapped payload type leads to one of the same codec: of the capabilities on the two legs.
pub proof fn law_map_joins_equal_codecs(
    sources: Seq<VideoCapability>,
    targets: Seq<VideoCapability>,
    pt: u8,
)
    requires
        payload_map(sources, targets).contains_key(pt),
    ensures
        exists|i: int, j: int|
            0 <= i < sources.len() && 0 <= j < targets.len() && #[trigger] same_codec(
                sources[i],
                targets[j],
            ) && sources[i].payload_type == pt && targets[j].payload_type == payload_map(
                sources,
                targets,
            )[pt],
    decreases sources.len(),
{
    if sources.len() > 0 {
        let front = sources.drop_last();
        let before = payload_map(front, targets);
        if before.contains_key(pt) {
            law_map_joins_equal_codecs(front, targets, pt);
            let (i, j) = choose|i: int, j: int|
                0 <= i < front.len() && 0 <= j < targets.len() && #[trigger] same_codec(
                    front[i],
                    targets[j],
                ) && front[i].payload_type == pt && targets[j].payload_type == before[pt];
            assert(same_codec(sources[i], targets[j]));
        } else {
            let j = lemma_counterpart(sources.last(), targets);
            assert(same_codec(sources[sources.len() - 1], targets[j]));
        }
    }
}

proof fn lemma_counterpart(source: VideoCapability, targets: Seq<VideoCapability>) -> (j: int)
    requires
        counterpart(source, targets) is Some,
    ensures
        0 <= j < targets.len(),
        same_codec(source, targets[j]),
        counterpart(source, targets) == Some(targets[j].payload_type),
    decreases targets.len(),
{
    if same_codec(source, targets[0]) {
        0
    } else {
        let k = lemma_counterpart(source, targets.skip(1));
        k + 1
    }
}

/// Every payload type whose codec the other leg knows is mapped.
pub proof fn law_known_codecs_are_mapped(
    sources: Seq<VideoCapability>,
    targets: Seq<VideoCapability>,
    i: int,
)
    requires
        0 <= i < sources.len(),
        counterpart(sources[i], targets) is Some,
    ensures
        payload_map(sources, targets).contains_key(sources[i].payload_type),
    decreases sources.len(),
{
    if i < sources.len() - 1 {
        law_known_codecs_are_mapped(sources.drop_last(), targets, i);
    }
}

/// A video packet for the other leg: nothing but video of a dynamic payload type passes, with its
/// payload type mapped, or the leg's own for want of a mapping.
pub open spec fn forwarded_video(packet: MediaModel, map: Map<u8, u8>, own: u8) -> Option<VideoModel> {
    match packet {
        MediaModel::Audio(_) => None,
        MediaModel::Video(v) => if v.payload_type matches Some(pt) && pt < 96 {
            None
        } else {
            let target = match v.payload_type {
                Some(pt) => if map.contains_key(pt) {
                    map[pt]
                } else {
                    own
                },
                None => own,
            };
            Some(
                VideoModel {
                    payload_type: Some(target),
                    header_extension: None,
                    raw_packet: None,
                    csrcs: Seq::empty(),
                    ..v
                },
            )
        },
    }
}

/// Readies a packet of a video track for the other leg; `None` if it does not pass.
pub fn forward_video(packet: MediaPacket, map: &HashMap<u8, u8>, own: u8) -> (r: Option<VideoPacket>)
    ensures
        r is Some == forwarded_video(packet@, map@, own) is Some,
        r is Some ==> r->0@ == forwarded_video(packet@, map@, own)->0,
{
    let mut v = match packet {
        MediaPacket::Audio(_) => return None,
        MediaPacket::Video(v) => v,
    };
    let target: u8 = match v.payload_type {
        Some(pt) => {
            if pt < 96 {
                return None;
            }
            match map.get(&pt) {
                Some(t) => *t,
                None => own,
            }
        },
        None => own,
    };
    v.payload_type = Some(target);
    v.header_extension = None;
    v.raw_packet = None;
    v.csrcs = Vec::new();
    Some(v)
}

/// Video that passes keeps its payload, timestamp, end of frame and sequence number. It gets the
/// payload type that its own is mapped to, the leg's own without a mapping.
pub proof fn law_forwarded_video_keeps_its_content(v: VideoModel, map: Map<u8, u8>, own: u8)
    ensures
        ({
            let r = forwarded_video(MediaModel::Video(v), map, own);
            &&& r is None <==> v.payload_type is Some && v.payload_type->0 < 96
            &&& r matches Some(out) ==> {
                &&& out.data == v.data
                &&& out.rtp_timestamp == v.rtp_timestamp
                &&& out.is_last_packet == v.is_last_packet
                &&& out.sequence_number == v.sequence_number
                &&& out.source_addr == v.source_addr
                &&& out.csrcs.len() == 0
                &&& out.header_extension is None
                &&& out.raw_packet is None
                &&& v.payload_type matches Some(pt) ==> (map.contains_key(pt) ==> out.payload_type
                    == Some(map[pt]))
                &&& v.payload_type is None || !map.contains_key(v.payload_type->0) ==> out.payload_type
                    == Some(own)
            }
        }),
{
}

/// Audio never passes for video.
pub proof fn law_audio_is_no_video(packet: MediaModel, map: Map<u8, u8>, own: u8)
    requires
        packet is Audio,
    ensures
        forwarded_video(packet, map, own) is None,
{
}

/// The counterpart of a capability is the first on the other leg with its name, in any case, and
/// its clock rate.
pub proof fn law_first_counterpart_counts(
    source: VideoCapability,
    targets: Seq<VideoCapability>,
    j: int,
)
    requires
        0 <= j <= targets.len(),
        forall|k: int|
            0 <= k < j ==> !(same_folded(source.codec_name@, (#[trigger] targets[k]).codec_name@)
                && source.clock_rate == targets[k].clock_rate),
    ensures
        j == targets.len() ==> counterpart(source, targets) is None,
        j < targets.len() && same_folded(source.codec_name@, targets[j].codec_name@)
            && source.clock_rate == targets[j].clock_rate ==> counterpart(source, targets) == Some(
            targets[j].payload_type,
        ),
    decreases targets.len(),
{
    if j > 0 {
        let rest = targets.skip(1);
        assert(targets[0].codec_name@ == targets[0].codec_name@);
        assert forall|k: int| 0 <= k < j - 1 implies !(same_folded(
            source.codec_name@,
            (#[trigger] rest[k]).codec_name@,
        ) && source.clock_rate == rest[k].clock_rate) by {
            assert(rest[k] == targets[k + 1]);
        }
        law_first_counterpart_counts(source, rest, j - 1);
        assert(!same_codec(source, targets[0]));
        if j < targets.len() {
            assert(rest[j - 1] == targets[j]);
        }
    }
}

/// A payload type leads to the counterpart of the first capability of it that has one.
pub proof fn law_first_capability_counts(
    sources: Seq<VideoCapability>,
    targets: Seq<VideoCapability>,
    i: int,
)
    requires
        0 <= i < sources.len(),
        counterpart(sources[i], targets) is Some,
        forall|k: int|
            0 <= k < i && (#[trigger] sources[k]).payload_type == sources[i].payload_type
                ==> counterpart(sources[k], targets) is None,
    ensures
        payload_map(sources, targets).contains_key(sources[i].payload_type),
        Some(payload_map(sources, targets)[sources[i].payload_type]) == counterpart(
            sources[i],
            targets,
        ),
    decreases sources.len(),
{
    let front = sources.drop_last();
    if i < sources.len() - 1 {
        assert(front[i] == sources[i]);
        law_first_capability_counts(front, targets, i);
    } else {
        let pt = sources[i].payload_type;
        if payload_map(front, targets).contains_key(pt) {
            lemma_mapped_has_counterpart(front, targets, pt);
            let k = choose|k: int|
                0 <= k < front.len() && (#[trigger] front[k]).payload_type == pt && counterpart(
                    front[k],
                    targets,
                ) is Some;
            assert(front[k] == sources[k]);
        }
    }
}

proof fn lemma_mapped_has_counterpart(
    sources: Seq<VideoCapability>,
    targets: Seq<VideoCapability>,
    pt: u8,
)
    requires
        payload_map(sources, targets).contains_key(pt),
    ensures
        exists|k: int|
            0 <= k < sources.len() && (#[trigger] sources[k]).payload_type == pt && counterpart(
                sources[k],
                targets,
            ) is Some,
    decreases sources.len(),
{
    let front = sources.drop_last();
    if payload_map(front, targets).contains_key(pt) {
        lemma_mapped_has_counterpart(front, targets, pt);
        let k = choose|k: int|
            0 <= k < front.len() && (#[trigger] front[k]).payload_type == pt && counterpart(
                front[k],
                targets,
            ) is Some;
        assert(sources[k] == front[k]);
    } else {
        assert(sources[sources.len() - 1].payload_type == pt);
    }
}

/// The payload type for want of a mapping is that of the first capability which has one.
pub proof fn law_first_mapped_capability_counts(
    caps: Seq<VideoCapability>,
    map: Map<u8, u8>,
    i: int,
)
    requires
        0 <= i <= caps.len(),
        forall|k: int| 0 <= k < i ==> !map.contains_key((#[trigger] caps[k]).payload_type),
    ensures
        i == caps.len() ==> first_mapped(caps, map) is None,
        i < caps.len() && map.contains_key(caps[i].payload_type) ==> first_mapped(caps, map) == Some(
            map[caps[i].payload_type],
        ),
    decreases caps.len(),
{
    if i > 0 {
        let rest = caps.skip(1);
        assert(!map.contains_key(caps[0].payload_type));
        assert forall|k: int| 0 <= k < i - 1 implies !map.contains_key(
            (#[trigger] rest[k]).payload_type,
        ) by {
            assert(rest[k] == caps[k + 1]);
        }
        law_first_mapped_capability_counts(rest, map, i - 1);
        if i < caps.len() {
            assert(rest[i - 1] == caps[i]);
        }
    }
}

} // verus!
