//! Conferences: each participant hears all others.
use vstd::prelude::*;

use crate::leg_id::LegId;
use crate::mixer::{
    clamped, frame_views, lemma_clamped, lemma_weighted_prefix, unity, weighted, AudioMixer, Gain,
};
use crate::text::same_text;
use crate::voice::VoiceCodec;

verus! {

/// A frame of PCM audio.
#[derive(Debug)]
pub struct AudioFrame {
    pub samples: Vec<i16>,
    pub sample_rate: u32,
    pub timestamp: u64,
}

/// A participant's audio before mixing, for a recorder.
#[derive(Debug)]
pub struct RecorderFrame {
    pub leg_id: LegId,
    pub samples: Vec<i16>,
    pub sample_rate: u32,
    pub timestamp: u64,
}

fn copy_samples(v: &Vec<i16>) -> (r: Vec<i16>)
    ensures
        r@ == v@,
{
    let r = v.clone();
    assert(r@ =~= v@);
    r
}

impl AudioFrame {
    pub fn new(samples: Vec<i16>, sample_rate: u32) -> (r: Self)
        ensures
            r == (AudioFrame { samples, sample_rate, timestamp: 0 }),
    {
        AudioFrame { samples, sample_rate, timestamp: 0 }
    }

    pub fn silence(sample_count: usize) -> (r: Self)
        ensures
            r.samples@ == Seq::new(sample_count as nat, |i: int| 0i16),
            r.sample_rate == 8000,
            r.timestamp == 0,
    {
        let none: Vec<i16> = Vec::new();
        let samples = fitted(&none, sample_count);
        assert(samples@ =~= Seq::new(sample_count as nat, |i: int| 0i16));
        AudioFrame { samples, sample_rate: 8000, timestamp: 0 }
    }
}

/// Samples cut to a length, or lengthened to it with silence.
pub open spec fn fit(samples: Seq<i16>, len: nat) -> Seq<i16> {
    Seq::new(
        len,
        |i: int|
            if i < samples.len() {
                samples[i]
            } else {
                0i16
            },
    )
}

fn fitted(samples: &Vec<i16>, len: usize) -> (r: Vec<i16>)
    ensures
        r@ == fit(samples@, len as nat),
{
    let mut r: Vec<i16> = Vec::new();
    let mut i: usize = 0;
    while i < len
        invariant
            i <= len,
            r@.len() == i,
            forall|k: int|
                0 <= k < i ==> r@[k] == if k < samples@.len() {
                    samples@[k]
                } else {
                    0i16
                },
        decreases len - i,
    {
        if i < samples.len() {
            r.push(samples[i]);
        } else {
            r.push(0);
        }
        i = i + 1;
    }
    assert(r@ =~= fit(samples@, len as nat));
    r
}

/// A participant.
#[derive(Debug)]
pub struct ConferenceParticipantAudio {
    pub leg_id: LegId,
    pub codec: VoiceCodec,
    pub muted: bool,
}

/// How loud one participant is for another.
#[derive(Debug)]
pub struct RouteGain {
    pub src: LegId,
    pub dst: LegId,
    pub gain: Gain,
}

/// How loud `src` is for `dst`: as set last, and as it is where nothing was set.
pub open spec fn gain_in(routes: Seq<RouteGain>, src: Seq<char>, dst: Seq<char>) -> Gain
    decreases routes.len(),
{
    if routes.len() == 0 {
        unity()
    } else if routes.last().src.0@ == src && routes.last().dst.0@ == dst {
        routes.last().gain
    } else {
        gain_in(routes.drop_last(), src, dst)
    }
}

/// The participant is in the conference already.
#[derive(Debug, Clone, Copy, PartialEq, Eq, Structural)]
pub struct AlreadyPresent {}

/// A conference.
#[derive(Debug)]
pub struct ConferenceAudioMixer {
    pub conf_id: String,
    pub participants: Vec<ConferenceParticipantAudio>,
    pub sample_rate: u32,
    pub frame_size: usize,
    pub route_gains: Vec<RouteGain>,
    /// Whether the participants' audio is recorded.
    pub recording: bool,
}

/// What a tick of 20 ms gives, for each participant in turn.
pub struct MixTick {
    /// What is recorded of the participant.
    pub recorded: Vec<Option<RecorderFrame>>,
    /// What the participant is sent.
    pub outputs: Vec<Option<AudioFrame>>,
}

fn same_leg(a: &LegId, b: &LegId) -> (r: bool)
    ensures
        r == (a.0@ == b.0@),
{
    same_text(a.as_str(), b.as_str())
}

/// The whole milliseconds of a frame, at least one.
pub open spec fn tick_length(frame_size: nat, sample_rate: nat) -> nat {
    if sample_rate == 0 || frame_size * 1000 < sample_rate {
        1
    } else {
        frame_size * 1000 / sample_rate
    }
}

impl ConferenceAudioMixer {
    /// No two participants have one name.
    pub open spec fn wf(&self) -> bool {
        &&& forall|i: int, j: int|
            0 <= i < j < self.participants@.len() ==> (#[trigger] self.participants@[i]).leg_id.0@
                != (#[trigger] self.participants@[j]).leg_id.0@
        &&& self.frame_size == self.sample_rate * 20 / 1000
    }

    /// Whether a leg takes part.
    pub open spec fn has(&self, leg: Seq<char>) -> bool {
        exists|i: int|
            0 <= i < self.participants@.len() && (#[trigger] self.participants@[i]).leg_id.0@ == leg
    }

    pub fn new(conf_id: String, sample_rate: u32) -> (r: Self)
        ensures
            r.wf(),
            r.conf_id == conf_id,
            r.sample_rate == sample_rate,
            r.participants@ == Seq::<ConferenceParticipantAudio>::empty(),
            r.route_gains@ == Seq::<RouteGain>::empty(),
            !r.recording,
    {
        let frame_size: usize = (sample_rate as u64 * 20 / 1000) as usize;
        ConferenceAudioMixer {
            conf_id,
            participants: Vec::new(),
            sample_rate,
            frame_size,
            route_gains: Vec::new(),
            recording: false,
        }
    }

    /// The milliseconds from one tick to the next: as long as a frame is, at least one.
    pub fn tick_ms(&self) -> (r: u64)
        requires
            self.wf(),
        ensures
            r == tick_length(self.frame_size as nat, self.sample_rate as nat),
    {
        let scaled: u64 = self.frame_size as u64 * 1000;
        let rate: u64 = self.sample_rate as u64;
        if rate == 0 || scaled < rate {
            1
        } else {
            scaled / rate
        }
    }

    pub fn set_recorder_sink(&mut self, recording: bool)
        ensures
            *final(self) == (ConferenceAudioMixer { recording, ..*old(self) }),
    {
        self.recording = recording;
    }

    fn find(&self, leg_id: &LegId) -> (r: Option<usize>)
        ensures
            r is Some == self.has(leg_id.0@),
            r matches Some(i) ==> i < self.participants@.len()
                && self.participants@[i as int].leg_id.0@ == leg_id.0@,
    {
        let n: usize = self.participants.len();
        let mut i: usize = 0;
        while i < n
            invariant
                i <= n,
                n == self.participants@.len(),
                forall|k: int|
                    0 <= k < i ==> (#[trigger] self.participants@[k]).leg_id.0@ != leg_id.0@,
            decreases n - i,
        {
            if same_leg(&self.participants[i].leg_id, leg_id) {
                return Some(i);
            }
            i = i + 1;
        }
        None
    }

    /// Adds a participant, heard by all and hearing all, unless there is one of that name.
    pub fn add_participant(&mut self, leg_id: LegId, codec: VoiceCodec) -> (r: Result<
        (),
        AlreadyPresent,
    >)
        requires
            old(self).wf(),
        ensures
            final(self).wf(),
            r is Err == old(self).has(leg_id.0@),
            r is Err ==> *final(self) == *old(self),
            r is Ok ==> final(self).participants@ == old(self).participants@.push(
                ConferenceParticipantAudio { leg_id, codec, muted: false },
            ),
            *final(self) == (ConferenceAudioMixer {
                participants: final(self).participants,
                ..*old(self)
            }),
    {
        if self.find(&leg_id).is_some() {
            return Err(AlreadyPresent {  });
        }
        self.participants.push(ConferenceParticipantAudio { leg_id, codec, muted: false });
        Ok(())
    }

    /// Removes a participant, if there is one of that name.
    pub fn remove_participant(&mut self, leg_id: &LegId)
        requires
            old(self).wf(),
        ensures
            final(self).wf(),
            !final(self).has(leg_id.0@),
            !old(self).has(leg_id.0@) ==> *final(self) == *old(self),
            old(self).has(leg_id.0@) ==> exists|i: int|
                {
                    &&& 0 <= i < old(self).participants@.len()
                    &&& (#[trigger] old(self).participants@[i]).leg_id.0@ == leg_id.0@
                    &&& final(self).participants@ == old(self).participants@.remove(i)
                },
            *final(self) == (ConferenceAudioMixer {
                participants: final(self).participants,
                ..*old(self)
            }),
    {
        if let Some(i) = self.find(leg_id) {
            let ghost before = self.participants@;
            let _ = self.participants.remove(i);
            proof {
                let after = self.participants@;
                assert(forall|k: int|
                    0 <= k < after.len() ==> after[k] == if k < i {
                        before[k]
                    } else {
                        before[k + 1]
                    });
                assert(before[i as int].leg_id.0@ == leg_id.0@);
            }
        }
    }

    /// Mutes or unmutes a participant, if there is one of that name.
    pub fn set_muted(&mut self, leg_id: &LegId, muted: bool)
        requires
            old(self).wf(),
        ensures
            final(self).wf(),
            final(self).participants@.len() == old(self).participants@.len(),
            forall|i: int|
                0 <= i < old(self).participants@.len() ==> {
                    let p = #[trigger] old(self).participants@[i];
                    final(self).participants@[i] == if p.leg_id.0@ == leg_id.0@ {
                        ConferenceParticipantAudio { muted, ..p }
                    } else {
                        p
                    }
                },
            *final(self) == (ConferenceAudioMixer {
                participants: final(self).participants,
                ..*old(self)
            }),
    {
        if let Some(i) = self.find(leg_id) {
            let p = &self.participants[i];
            let changed = ConferenceParticipantAudio {
                leg_id: p.leg_id.clone(),
                codec: p.codec,
                muted,
            };
            self.participants.set(i, changed);
        }
    }

    /// Sets how loud `src` is for `dst`; without volume it is not heard there at all.
    pub fn set_route_gain(&mut self, src: &LegId, dst: &LegId, gain: Gain)
        requires
            old(self).wf(),
        ensures
            final(self).wf(),
            forall|s: Seq<char>, d: Seq<char>| #[trigger]
                gain_in(final(self).route_gains@, s, d) == if s == src.0@ && d == dst.0@ {
                    gain
                } else {
                    gain_in(old(self).route_gains@, s, d)
                },
            *final(self) == (ConferenceAudioMixer {
                route_gains: final(self).route_gains,
                ..*old(self)
            }),
    {
        let mut kept: Vec<RouteGain> = Vec::new();
        let n: usize = self.route_gains.len();
        let mut i: usize = 0;
        while i < n
            invariant
                i <= n,
                n == self.route_gains@.len(),
                forall|s: Seq<char>, d: Seq<char>| #[trigger]
                    gain_in(kept@, s, d) == if s == src.0@ && d == dst.0@ {
                        unity()
                    } else {
                        gain_in(self.route_gains@.take(i as int), s, d)
                    },
            decreases n - i,
        {
            let r = &self.route_gains[i];
            let ghost before = kept@;
            let ghost seen = self.route_gains@.take(i as int);
            let ghost next = self.route_gains@.take(i + 1);
            assert(next.drop_last() =~= seen);
            if !(same_leg(&r.src, src) && same_leg(&r.dst, dst)) {
                kept.push(RouteGain { src: r.src.clone(), dst: r.dst.clone(), gain: r.gain });
                assert(kept@.drop_last() =~= before);
            }
            assert forall|s: Seq<char>, d: Seq<char>| #[trigger]
                gain_in(kept@, s, d) == if s == src.0@ && d == dst.0@ {
                    unity()
                } else {
                    gain_in(next, s, d)
                } by {
                assert(gain_in(before, s, d) == if s == src.0@ && d == dst.0@ {
                    unity()
                } else {
                    gain_in(seen, s, d)
                });
            }
            i = i + 1;
        }
        assert(self.route_gains@.take(n as int) =~= self.route_gains@);
        let ghost before = kept@;
        if gain.units != 65536 {
            kept.push(RouteGain { src: src.clone(), dst: dst.clone(), gain });
            assert(kept@.drop_last() =~= before);
        }
        assert forall|s: Seq<char>, d: Seq<char>| #[trigger]
            gain_in(kept@, s, d) == if s == src.0@ && d == dst.0@ {
                gain
            } else {
                gain_in(self.route_gains@, s, d)
            } by {
            assert(gain_in(before, s, d) == if s == src.0@ && d == dst.0@ {
                unity()
            } else {
                gain_in(self.route_gains@, s, d)
            });
        }
        self.route_gains = kept;
    }

    /// Lets everybody be as loud for everybody as they are.
    pub fn clear_route_gains(&mut self)
        requires
            old(self).wf(),
        ensures
            final(self).wf(),
            forall|s: Seq<char>, d: Seq<char>| #[trigger]
                gain_in(final(self).route_gains@, s, d) == unity(),
            *final(self) == (ConferenceAudioMixer {
                route_gains: final(self).route_gains,
                ..*old(self)
            }),
    {
        self.route_gains = Vec::new();
    }

    pub fn participant_count(&self) -> (r: usize)
        ensures
            r == self.participants@.len(),
    {
        self.participants.len()
    }

    fn route_gain(&self, src: &LegId, dst: &LegId) -> (r: Gain)
        ensures
            r == gain_in(self.route_gains@, src.0@, dst.0@),
    {
        let mut n: usize = self.route_gains.len();
        assert(self.route_gains@.take(n as int) =~= self.route_gains@);
        while n > 0
            invariant
                n <= self.route_gains@.len(),
                gain_in(self.route_gains@, src.0@, dst.0@) == gain_in(
                    self.route_gains@.take(n as int),
                    src.0@,
                    dst.0@,
                ),
            decreases n,
        {
            let ghost seen = self.route_gains@.take(n as int);
            let r = &self.route_gains[n - 1];
            assert(seen.last() == r);
            if same_leg(&r.src, src) && same_leg(&r.dst, dst) {
                return r.gain;
            }
            assert(seen.drop_last() =~= self.route_gains@.take(n - 1));
            n = n - 1;
        }
        Gain::unity()
    }

    // Mixing.

    /// How loud participant `i` is for participant `j`.
    pub open spec fn gain(&self, i: int, j: int) -> Gain {
        gain_in(
            self.route_gains@,
            self.participants@[i].leg_id.0@,
            self.participants@[j].leg_id.0@,
        )
    }

    /// Whether participant `i` said something: the last frame counts, unless they are muted.
    pub open spec fn speaks(&self, queues: Seq<Vec<AudioFrame>>, i: int) -> bool {
        !self.participants@[i].muted && queues[i]@.len() > 0
    }

    /// Whether participant `j` hears participant `i`.
    pub open spec fn hears(&self, queues: Seq<Vec<AudioFrame>>, i: int, j: int) -> bool {
        i != j && self.speaks(queues, i) && self.gain(i, j).units > 0
    }

    /// What participant `i` said, as long as a frame.
    pub open spec fn said(&self, queues: Seq<Vec<AudioFrame>>, i: int) -> Seq<i16> {
        fit(queues[i]@.last().samples@, self.frame_size as nat)
    }

    /// The sum of sample `k` of what participant `j` hears of the first `n` participants.
    pub open spec fn heard_sum(&self, queues: Seq<Vec<AudioFrame>>, j: int, k: int, n: nat) -> int
        decreases n,
    {
        if n == 0 {
            0
        } else {
            self.heard_sum(queues, j, k, (n - 1) as nat) + (if self.hears(queues, n - 1, j) {
                self.said(queues, n - 1)[k] * self.gain(n - 1, j).units
            } else {
                0
            })
        }
    }

    /// Whether participant `j` hears anybody of the first `n`.
    pub open spec fn hears_any(&self, queues: Seq<Vec<AudioFrame>>, j: int, n: nat) -> bool {
        exists|i: int| 0 <= i < n && #[trigger] self.hears(queues, i, j)
    }

    /// What participant `j` is sent: the others, mixed.
    pub open spec fn sent(&self, queues: Seq<Vec<AudioFrame>>, j: int) -> Seq<i16> {
        Seq::new(
            self.frame_size as nat,
            |k: int| clamped(self.heard_sum(queues, j, k, self.participants@.len())),
        )
    }

    fn mix_for(&self, queues: &Vec<Vec<AudioFrame>>, j: usize) -> (r: Option<AudioFrame>)
        requires
            self.wf(),
            queues@.len() == self.participants@.len(),
            j < self.participants@.len(),
        ensures
            r is Some == self.hears_any(queues@, j as int, self.participants@.len()),
            r matches Some(f) ==> {
                &&& f.samples@ == self.sent(queues@, j as int)
                &&& f.sample_rate == self.sample_rate
                &&& f.timestamp == 0
            },
    {
        let n: usize = self.participants.len();
        let mut frames: Vec<Vec<i16>> = Vec::new();
        let mut gains: Vec<Gain> = Vec::new();
        let mut i: usize = 0;
        let ghost len = self.frame_size as nat;
        while i < n
            invariant
                i <= n,
                n == self.participants@.len(),
                n == queues@.len(),
                j < n,
                len == self.frame_size,
                frames@.len() == gains@.len(),
                forall|m: int| 0 <= m < frames@.len() ==> (#[trigger] frames@[m])@.len() == len,
                frames@.len() > 0 <==> self.hears_any(queues@, j as int, i as nat),
                forall|k: int|
                    0 <= k < len ==> #[trigger] weighted(
                        frame_views(frames@),
                        gains@,
                        len,
                        k,
                        frames@.len(),
                    ) == self.heard_sum(queues@, j as int, k, i as nat),
            decreases n - i,
        {
            let ghost old_frames = frame_views(frames@);
            let ghost old_gains = gains@;
            let ghost any = self.hears_any(queues@, j as int, i as nat);
            let mut taken = false;
            if i != j && !self.participants[i].muted && queues[i].len() > 0 {
                let gain = self.route_gain(&self.participants[i].leg_id, &self.participants[j].leg_id);
                if gain.units > 0 {
                    let last = &queues[i][queues[i].len() - 1];
                    assert(*last == queues@[i as int]@.last());
                    frames.push(fitted(&last.samples, self.frame_size));
                    gains.push(gain);
                    taken = true;
                }
            }
            proof {
                assert(taken == self.hears(queues@, i as int, j as int));
                let views = frame_views(frames@);
                assert(self.hears_any(queues@, j as int, (i + 1) as nat) == (any || taken)) by {
                    if any {
                        let w = choose|w: int| 0 <= w < i && #[trigger] self.hears(queues@, w, j as int);
                        assert(self.hears(queues@, w, j as int));
                    }
                }
                assert forall|k: int| 0 <= k < len implies #[trigger] weighted(
                    views,
                    gains@,
                    len,
                    k,
                    frames@.len(),
                ) == self.heard_sum(queues@, j as int, k, (i + 1) as nat) by {
                    if taken {
                        let m = old_frames.len();
                        lemma_weighted_prefix(views, gains@, old_frames, old_gains, len, k, m);
                        assert(weighted(old_frames, old_gains, len, k, m) == self.heard_sum(
                            queues@,
                            j as int,
                            k,
                            i as nat,
                        ));
                        assert(views[m as int] == self.said(queues@, i as int));
                    } else {
                        assert(views =~= old_frames);
                    }
                }
            }
            i = i + 1;
        }
        if frames.len() == 0 {
            return None;
        }
        let ghost views = frame_views(frames@);
        let ghost count = frames@.len();
        assert(views[0].len() == len);
        let mixer = AudioMixer::new(self.sample_rate, 1);
        let samples = mixer.mix_frames(frames, gains.as_slice());
        assert forall|k: int| 0 <= k < len implies samples@[k] == self.sent(
            queues@,
            j as int,
        )[k] by {
            assert(weighted(views, gains@, len, k, count) == self.heard_sum(
                queues@,
                j as int,
                k,
                n as nat,
            ));
        }
        assert(samples@ =~= self.sent(queues@, j as int));
        Some(AudioFrame::new(samples, self.sample_rate))
    }

    fn record_of(&self, queues: &Vec<Vec<AudioFrame>>, i: usize) -> (r: Option<RecorderFrame>)
        requires
            queues@.len() == self.participants@.len(),
            i < self.participants@.len(),
        ensures
            r is Some == (self.recording && self.speaks(queues@, i as int)),
            r matches Some(f) ==> self.records(queues@, i as int, f),
    {
        if !self.recording || self.participants[i].muted || queues[i].len() == 0 {
            return None;
        }
        let last = &queues[i][queues[i].len() - 1];
        Some(
            RecorderFrame {
                leg_id: self.participants[i].leg_id.clone(),
                samples: copy_samples(&last.samples),
                sample_rate: last.sample_rate,
                timestamp: last.timestamp,
            },
        )
    }

    /// Whether a frame is what participant `i` said.
    pub open spec fn records(&self, queues: Seq<Vec<AudioFrame>>, i: int, f: RecorderFrame) -> bool {
        let last = queues[i]@.last();
        &&& f.leg_id == self.participants@[i].leg_id
        &&& f.samples@ == last.samples@
        &&& f.sample_rate == last.sample_rate
        &&& f.timestamp == last.timestamp
    }

    /// A tick of 20 ms. `queues` holds what each participant sent since the last one, oldest
    /// first.
    pub fn mix_tick(&self, queues: &Vec<Vec<AudioFrame>>) -> (r: MixTick)
        requires
            self.wf(),
            queues@.len() == self.participants@.len(),
        ensures
            r.recorded@.len() == self.participants@.len(),
            r.outputs@.len() == self.participants@.len(),
            forall|i: int|
                0 <= i < self.participants@.len() ==> {
                    let f = #[trigger] r.recorded@[i];
                    &&& f is Some == (self.recording && self.speaks(queues@, i))
                    &&& f matches Some(f) ==> self.records(queues@, i, f)
                },
            forall|j: int|
                0 <= j < self.participants@.len() ==> {
                    let f = #[trigger] r.outputs@[j];
                    &&& f is Some == self.hears_any(queues@, j, self.participants@.len())
                    &&& f matches Some(f) ==> {
                        &&& f.samples@ == self.sent(queues@, j)
                        &&& f.sample_rate == self.sample_rate
                        &&& f.timestamp == 0
                    }
                },
    {
        let n: usize = self.participants.len();
        let mut recorded: Vec<Option<RecorderFrame>> = Vec::new();
        let mut outputs: Vec<Option<AudioFrame>> = Vec::new();
        let mut i: usize = 0;
        while i < n
            invariant
                i <= n,
                n == self.participants@.len(),
                n == queues@.len(),
                self.wf(),
                recorded@.len() == i,
                outputs@.len() == i,
                forall|k: int|
                    0 <= k < i ==> {
                        let f = #[trigger] recorded@[k];
                        &&& f is Some == (self.recording && self.speaks(queues@, k))
                        &&& f matches Some(f) ==> self.records(queues@, k, f)
                    },
                forall|j: int|
                    0 <= j < i ==> {
                        let f = #[trigger] outputs@[j];
                        &&& f is Some == self.hears_any(queues@, j, self.participants@.len())
                        &&& f matches Some(f) ==> {
                            &&& f.samples@ == self.sent(queues@, j)
                            &&& f.sample_rate == self.sample_rate
                            &&& f.timestamp == 0
                        }
                    },
            decreases n - i,
        {
            recorded.push(self.record_of(queues, i));
            outputs.push(self.mix_for(queues, i));
            i = i + 1;
        }
        MixTick { recorded, outputs }
    }
}

proof fn lemma_heard_sum_ignores(
    c: &ConferenceAudioMixer,
    queues: Seq<Vec<AudioFrame>>,
    others: Seq<Vec<AudioFrame>>,
    j: int,
    k: int,
    n: nat,
)
    requires
        forall|i: int| 0 <= i < n && i != j ==> queues[i] == others[i],
    ensures
        c.heard_sum(queues, j, k, n) == c.heard_sum(others, j, k, n),
    decreases n,
{
    if n > 0 {
        lemma_heard_sum_ignores(c, queues, others, j, k, (n - 1) as nat);
    }
}

/// Nobody hears themselves: what a participant is sent does not depend on what they say.
pub proof fn law_nobody_hears_themselves(
    c: &ConferenceAudioMixer,
    queues: Seq<Vec<AudioFrame>>,
    others: Seq<Vec<AudioFrame>>,
    j: int,
)
    requires
        0 <= j < c.participants@.len(),
        queues.len() == c.participants@.len(),
        others.len() == c.participants@.len(),
        forall|i: int| 0 <= i < queues.len() && i != j ==> queues[i] == others[i],
    ensures
        c.hears_any(queues, j, c.participants@.len()) == c.hears_any(
            others,
            j,
            c.participants@.len(),
        ),
        c.sent(queues, j) == c.sent(others, j),
{
    let n = c.participants@.len();
    if c.hears_any(queues, j, n) {
        let i = choose|i: int| 0 <= i < n && #[trigger] c.hears(queues, i, j);
        assert(c.hears(others, i, j));
    }
    if c.hears_any(others, j, n) {
        let i = choose|i: int| 0 <= i < n && #[trigger] c.hears(others, i, j);
        assert(c.hears(queues, i, j));
    }
    assert forall|k: int| 0 <= k < c.frame_size implies c.sent(queues, j)[k] == c.sent(
        others,
        j,
    )[k] by {
        lemma_heard_sum_ignores(c, queues, others, j, k, n);
    }
    assert(c.sent(queues, j) =~= c.sent(others, j));
}

proof fn lemma_heard_sum_alone(
    c: &ConferenceAudioMixer,
    queues: Seq<Vec<AudioFrame>>,
    i: int,
    j: int,
    k: int,
    n: nat,
)
    requires
        0 <= i < c.participants@.len(),
        n <= c.participants@.len(),
        forall|m: int| 0 <= m < c.participants@.len() && m != i ==> !c.hears(queues, m, j),
        c.hears(queues, i, j),
    ensures
        c.heard_sum(queues, j, k, n) == if i < n {
            c.said(queues, i)[k] * c.gain(i, j).units
        } else {
            0
        },
    decreases n,
{
    if n > 0 {
        lemma_heard_sum_alone(c, queues, i, j, k, (n - 1) as nat);
    }
}

/// Where one other participant alone speaks, at the volume that they have, they are heard as they
/// speak.
pub proof fn law_single_speaker_is_heard(
    c: &ConferenceAudioMixer,
    queues: Seq<Vec<AudioFrame>>,
    i: int,
    j: int,
)
    requires
        0 <= i < c.participants@.len(),
        0 <= j < c.participants@.len(),
        i != j,
        c.speaks(queues, i),
        c.gain(i, j) == unity(),
        forall|m: int| 0 <= m < c.participants@.len() && m != i && m != j ==> !c.speaks(queues, m),
    ensures
        c.hears_any(queues, j, c.participants@.len()),
        c.sent(queues, j) == c.said(queues, i),
{
    assert(c.hears(queues, i, j));
    let n = c.participants@.len();
    assert forall|k: int| 0 <= k < c.frame_size implies c.sent(queues, j)[k] == c.said(
        queues,
        i,
    )[k] by {
        assert forall|m: int| 0 <= m < n && m != i implies !c.hears(queues, m, j) by {
            if m != j {
                assert(!c.speaks(queues, m));
            }
        }
        lemma_heard_sum_alone(c, queues, i, j, k, n);
    }
    assert(c.sent(queues, j) =~= c.said(queues, i));
}

/// Who is muted, or has no volume for a participant, is not heard by them.
pub proof fn law_muted_and_silenced_are_not_heard(
    c: &ConferenceAudioMixer,
    queues: Seq<Vec<AudioFrame>>,
    i: int,
    j: int,
)
    requires
        c.participants@[i].muted || c.gain(i, j).units == 0,
    ensures
        !c.hears(queues, i, j),
{
}

proof fn lemma_heard_total(
    c: &ConferenceAudioMixer,
    queues: Seq<Vec<AudioFrame>>,
    j: int,
    k: int,
    totals: Seq<int>,
    n: nat,
)
    requires
        n <= c.participants@.len(),
        n < totals.len(),
        0 <= k < c.frame_size,
        totals[0] == 0,
        forall|i: int|
            0 <= i < n ==> #[trigger] totals[i + 1] == totals[i] + (if i == j
                || c.participants@[i].muted || queues[i]@.len() == 0 {
                0
            } else if k < queues[i]@.last().samples@.len() {
                queues[i]@.last().samples@[k] * gain_in(
                    c.route_gains@,
                    c.participants@[i].leg_id.0@,
                    c.participants@[j].leg_id.0@,
                ).units
            } else {
                0
            }),
    ensures
        c.heard_sum(queues, j, k, n) == totals[n as int],
    decreases n,
{
    if n > 0 {
        lemma_heard_total(c, queues, j, k, totals, (n - 1) as nat);
        let i = n - 1;
        assert(totals[i + 1] == totals[n as int]);
        let units = c.gain(i, j).units as int;
        let sample = c.said(queues, i)[k] as int;
        assert(sample == 0 || units == 0 ==> sample * units == 0) by (nonlinear_arith);
    }
}

/// Everybody hears everybody else. Where `totals` counts up sample `k` of what each other
/// participant said last, unless they are muted, times how loud they are for participant `j`, the
/// sample that `j` is sent is the last total in whole samples, rounded toward zero, and the nearest
/// sample there is where the total exceeds all. What is missing in a frame counts as silence.
pub proof fn law_everybody_else_is_heard(
    c: &ConferenceAudioMixer,
    queues: Seq<Vec<AudioFrame>>,
    j: int,
    k: int,
    totals: Seq<int>,
)
    requires
        0 <= j < c.participants@.len(),
        0 <= k < c.frame_size,
        totals.len() == c.participants@.len() + 1,
        totals[0] == 0,
        forall|i: int|
            0 <= i < c.participants@.len() ==> #[trigger] totals[i + 1] == totals[i] + (if i == j
                || c.participants@[i].muted || queues[i]@.len() == 0 {
                0
            } else if k < queues[i]@.last().samples@.len() {
                queues[i]@.last().samples@[k] * gain_in(
                    c.route_gains@,
                    c.participants@[i].leg_id.0@,
                    c.participants@[j].leg_id.0@,
                ).units
            } else {
                0
            }),
    ensures
        c.sent(queues, j).len() == c.frame_size,
        ({
            let total = totals.last();
            let heard = c.sent(queues, j)[k];
            &&& 0 <= total < 32768 * 65536 ==> 65536 * heard <= total < 65536 * (heard + 1)
            &&& -32769 * 65536 < total <= 0 ==> 65536 * (heard - 1) < total <= 65536 * heard
            &&& total >= 32768 * 65536 ==> heard == 32767
            &&& total <= -32769 * 65536 ==> heard == -32768
        }),
{
    lemma_heard_total(c, queues, j, k, totals, c.participants@.len());
    lemma_clamped(totals.last());
}

proof fn lemma_heard_sum_of_two(
    c: &ConferenceAudioMixer,
    queues: Seq<Vec<AudioFrame>>,
    a: int,
    b: int,
    j: int,
    k: int,
    n: nat,
)
    requires
        0 <= a < b,
        forall|m: int| 0 <= m < n && m != a && m != b ==> !c.hears(queues, m, j),
        c.hears(queues, a, j),
        c.hears(queues, b, j),
    ensures
        c.heard_sum(queues, j, k, n) == (if a < n {
            c.said(queues, a)[k] * c.gain(a, j).units
        } else {
            0
        }) + (if b < n {
            c.said(queues, b)[k] * c.gain(b, j).units
        } else {
            0
        }),
    decreases n,
{
    if n > 0 {
        lemma_heard_sum_of_two(c, queues, a, b, j, k, (n - 1) as nat);
    }
}

/// Two participants who speak at once, at the volume that they have, are heard by a third as the
/// sum of what they say, of whatever sign, cut off at what a sample can hold.
pub proof fn law_two_speakers_add_up(
    c: &ConferenceAudioMixer,
    queues: Seq<Vec<AudioFrame>>,
    a: int,
    b: int,
    j: int,
    k: int,
)
    requires
        0 <= a < b < c.participants@.len(),
        0 <= j < c.participants@.len(),
        j != a,
        j != b,
        !c.participants@[a].muted,
        !c.participants@[b].muted,
        queues[a]@.len() > 0,
        queues[b]@.len() > 0,
        c.gain(a, j).units == 65536,
        c.gain(b, j).units == 65536,
        forall|m: int|
            0 <= m < c.participants@.len() && m != a && m != b && m != j
                ==> c.participants@[m].muted || #[trigger] queues[m]@.len() == 0,
        0 <= k < c.frame_size,
        k < queues[a]@.last().samples@.len(),
        k < queues[b]@.last().samples@.len(),
    ensures
        c.sent(queues, j)[k] == ({
            let sum = queues[a]@.last().samples@[k] + queues[b]@.last().samples@[k];
            if sum > 32767 {
                32767
            } else if sum < -32768 {
                -32768
            } else {
                sum
            }
        }),
{
    let n = c.participants@.len();
    assert forall|m: int| 0 <= m < n && m != a && m != b implies !c.hears(queues, m, j) by {
        if m != j {
            assert(c.participants@[m].muted || queues[m]@.len() == 0);
        }
    }
    lemma_heard_sum_of_two(c, queues, a, b, j, k, n);
    let sum = queues[a]@.last().samples@[k] + queues[b]@.last().samples@[k];
    assert(c.heard_sum(queues, j, k, n) == sum * 65536);
    lemma_clamped(sum * 65536);
}

/// A participant is sent audio as soon as another one who is not muted spoke at some volume.
pub proof fn law_any_other_voice_is_sent(
    c: &ConferenceAudioMixer,
    queues: Seq<Vec<AudioFrame>>,
    j: int,
)
    ensures
        c.hears_any(queues, j, c.participants@.len()) <==> exists|i: int|
            {
                &&& 0 <= i < c.participants@.len()
                &&& i != j
                &&& !c.participants@[i].muted
                &&& (#[trigger] queues[i])@.len() > 0
                &&& gain_in(
                    c.route_gains@,
                    c.participants@[i].leg_id.0@,
                    c.participants@[j].leg_id.0@,
                ).units > 0
            },
{
    let n = c.participants@.len();
    if c.hears_any(queues, j, n) {
        let i = choose|i: int| 0 <= i < n && #[trigger] c.hears(queues, i, j);
        assert(queues[i]@.len() > 0);
    }
    if exists|i: int|
        {
            &&& 0 <= i < n
            &&& i != j
            &&& !c.participants@[i].muted
            &&& (#[trigger] queues[i])@.len() > 0
            &&& gain_in(
                c.route_gains@,
                c.participants@[i].leg_id.0@,
                c.participants@[j].leg_id.0@,
            ).units > 0
        } {
        let i = choose|i: int|
            {
                &&& 0 <= i < n
                &&& i != j
                &&& !c.participants@[i].muted
                &&& (#[trigger] queues[i])@.len() > 0
                &&& gain_in(
                    c.route_gains@,
                    c.participants@[i].leg_id.0@,
                    c.participants@[j].leg_id.0@,
                ).units > 0
            };
        assert(c.hears(queues, i, j));
    }
}

/// What is recorded of a participant is the last frame that they sent, as it came, under their own
/// name. Muted participants are not recorded.
pub proof fn law_recorded_as_spoken(
    c: &ConferenceAudioMixer,
    queues: Seq<Vec<AudioFrame>>,
    i: int,
    f: RecorderFrame,
)
    requires
        c.records(queues, i, f),
        queues[i]@.len() > 0,
    ensures
        f.samples@ == queues[i]@[queues[i]@.len() - 1].samples@,
        f.sample_rate == queues[i]@[queues[i]@.len() - 1].sample_rate,
        f.timestamp == queues[i]@[queues[i]@.len() - 1].timestamp,
        f.leg_id == c.participants@[i].leg_id,
        c.speaks(queues, i) == !c.participants@[i].muted,
{
}

/// Samples that are cut to a length stay as they are up to it; silence follows where they end.
pub proof fn law_fitting_keeps_samples(samples: Seq<i16>, len: nat)
    ensures
        fit(samples, len).len() == len,
        forall|i: int| 0 <= i < len && i < samples.len() ==> #[trigger] fit(samples, len)[i] == samples[i],
        forall|i: int| samples.len() <= i < len ==> #[trigger] fit(samples, len)[i] == 0,
{
}

/// Where no volume is set from one participant to another, they are as loud as they are.
pub proof fn law_full_volume_where_none_is_set(
    routes: Seq<RouteGain>,
    src: Seq<char>,
    dst: Seq<char>,
)
    requires
        forall|i: int|
            0 <= i < routes.len() ==> (#[trigger] routes[i]).src.0@ != src || routes[i].dst.0@ != dst,
    ensures
        gain_in(routes, src, dst).units == 65536,
    decreases routes.len(),
{
    if routes.len() > 0 {
        assert(routes[routes.len() - 1] == routes.last());
        law_full_volume_where_none_is_set(routes.drop_last(), src, dst);
    }
}

/// The volume that was set last from one participant to another counts.
pub proof fn law_last_volume_counts(routes: Seq<RouteGain>, i: int)
    requires
        0 <= i < routes.len(),
        forall|k: int|
            i < k < routes.len() ==> (#[trigger] routes[k]).src.0@ != routes[i].src.0@
                || routes[k].dst.0@ != routes[i].dst.0@,
    ensures
        gain_in(routes, routes[i].src.0@, routes[i].dst.0@) == routes[i].gain,
    decreases routes.len(),
{
    if i < routes.len() - 1 {
        assert(routes[routes.len() - 1] == routes.last());
        let fewer = routes.drop_last();
        assert(fewer[i] == routes[i]);
        law_last_volume_counts(fewer, i);
    }
}

/// A tick is as long as a frame in whole milliseconds, and never nothing. At any rate of whole
/// frames it is 20 ms.
pub proof fn law_tick_fits_frame(sample_rate: nat)
    ensures
        sample_rate >= 50 && sample_rate % 50 == 0 ==> tick_length(
            sample_rate * 20 / 1000,
            sample_rate,
        ) == 20,
        tick_length(sample_rate * 20 / 1000, sample_rate) >= 1,
        tick_length(sample_rate * 20 / 1000, sample_rate) <= 20,
{
    let frame = sample_rate * 20 / 1000;
    if sample_rate > 0 && frame * 1000 >= sample_rate {
        let t = tick_length(frame, sample_rate);
        assert(t == (frame * 1000) / sample_rate);
        assert(1 <= (frame * 1000) / sample_rate <= 20) by (nonlinear_arith)
            requires
                sample_rate > 0,
                sample_rate <= frame * 1000 <= 20 * sample_rate,
        ;
        if sample_rate % 50 == 0 {
            assert(frame * 1000 == 20 * sample_rate);
            assert((20 * sample_rate) / sample_rate == 20) by (nonlinear_arith)
                requires
                    sample_rate > 0,
            ;
        }
    }
}

} // verus!
