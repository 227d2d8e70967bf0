//! A buffer that puts frames back in the order of their timestamps.
use std::collections::BTreeMap;
use vstd::prelude::*;

use crate::pcm::AudioFrame;

verus! {

/// Frames by timestamp. The oldest comes out first, and nothing as old as what has come out goes
/// in again.
pub struct JitterBuffer {
    frames: BTreeMap<u64, AudioFrame>,
    max_size: usize,
    last_popped_timestamp: Option<u64>,
}

/// Whether `t` is the smallest timestamp in a buffer.
pub open spec fn is_oldest(contents: Map<u64, AudioFrame>, t: u64) -> bool {
    contents.contains_key(t) && forall|k: u64| contents.contains_key(k) ==> t <= k
}

/// The smallest timestamp in a buffer that is not empty.
pub open spec fn oldest(contents: Map<u64, AudioFrame>) -> u64 {
    choose|t: u64| is_oldest(contents, t)
}

/// The contents after a frame arrived. A frame as old as the last one that came out is dropped;
/// a full buffer drops its oldest frame for a newer one, and drops the new frame otherwise.
pub open spec fn pushed(
    contents: Map<u64, AudioFrame>,
    count: nat,
    max_size: nat,
    last: Option<u64>,
    frame: AudioFrame,
) -> Map<u64, AudioFrame> {
    let t = frame.timestamp;
    if last is Some && t <= last->0 {
        contents
    } else if count >= max_size && count > 0 {
        if t > oldest(contents) {
            contents.remove(oldest(contents)).insert(t, frame)
        } else {
            contents
        }
    } else {
        contents.insert(t, frame)
    }
}

/// The next item of an iterator that holds to vstd's laws of iteration.
fn next_of<I: Iterator>(items: &mut I) -> (r: Option<I::Item>)
    requires
        vstd::std_specs::iter::IteratorSpec::obeys_prophetic_iter_laws(old(items)),
    ensures
        ({
            let rest = vstd::std_specs::iter::IteratorSpec::remaining(old(items));
            r == if rest.len() > 0 {
                Some(rest[0])
            } else {
                None
            }
        }),
{
    items.next()
}

impl JitterBuffer {
    /// The frames in the buffer.
    pub closed spec fn contents(&self) -> Map<u64, AudioFrame> {
        self.frames@
    }

    pub open spec fn count(&self) -> nat {
        self.contents().dom().len()
    }

    pub closed spec fn capacity(&self) -> nat {
        self.max_size as nat
    }

    /// The timestamp of the last frame that came out.
    pub closed spec fn last_popped(&self) -> Option<u64> {
        self.last_popped_timestamp
    }

    /// The buffer holds no more than it was made for, though at least one frame, and only frames
    /// newer than the last one that came out.
    pub closed spec fn wf(&self) -> bool {
        &&& forall|t: u64| #[trigger]
            self.frames@.contains_key(t) ==> self.frames@[t].timestamp == t
        &&& self.count() <= self.max_size || self.count() <= 1
        &&& self.last_popped_timestamp matches Some(last) ==> forall|t: u64| #[trigger]
            self.frames@.contains_key(t) ==> last < t
    }

    pub fn new() -> (r: Self)
        ensures
            r.wf(),
            r.contents() == Map::<u64, AudioFrame>::empty(),
            r.count() == 0,
            r.capacity() == 100,
            r.last_popped() is None,
    {
        Self::with_max_size(100)
    }

    pub fn with_max_size(max_size: usize) -> (r: Self)
        ensures
            r.wf(),
            r.contents() == Map::<u64, AudioFrame>::empty(),
            r.count() == 0,
            r.capacity() == max_size,
            r.last_popped() is None,
    {
        JitterBuffer { frames: BTreeMap::new(), max_size, last_popped_timestamp: None }
    }

    /// The smallest timestamp.
    fn first(&self) -> (r: Option<u64>)
        ensures
            r is None == (self.count() == 0),
            r matches Some(t) ==> is_oldest(self.contents(), t) && t == oldest(self.contents()),
    {
        broadcast use vstd::std_specs::btree::group_btree_axioms;

        let mut frames = self.frames.iter();
        let ghost all = vstd::std_specs::iter::IteratorSpec::remaining(&frames);
        match next_of(&mut frames) {
            Some((t, _)) => {
                proof {
                    let m = self.frames@;
                    let keys = all.map_values(|kv: (&u64, &AudioFrame)| *kv.0);
                    assert(keys[0] == *t);
                    assert(m.contains_key(*all[0].0));
                    assert forall|k: u64| m.contains_key(k) implies *t <= k by {
                        assert(all.contains((&k, &m[k])));
                        let i = choose|i: int| 0 <= i < all.len() && all[i] == (&k, &m[k]);
                        assert(keys[i] == k);
                        assert(vstd::std_specs::btree::increasing_seq(keys));
                        if i > 0 {
                            assert(vstd::std_specs::cmp::OrdSpec::cmp_spec(&keys[0], &keys[i]) is Less);
                        }
                    }
                    assert(is_oldest(m, *t));
                    assert(is_oldest(m, oldest(m)));
                }
                Some(*t)
            },
            None => None,
        }
    }

    /// Adds a frame.
    pub fn push(&mut self, frame: AudioFrame)
        requires
            old(self).wf(),
        ensures
            final(self).wf(),
            final(self).contents() == pushed(
                old(self).contents(),
                old(self).count(),
                old(self).capacity(),
                old(self).last_popped(),
                frame,
            ),
            final(self).capacity() == old(self).capacity(),
            final(self).last_popped() == old(self).last_popped(),
    {
        broadcast use vstd::std_specs::btree::group_btree_axioms;

        if let Some(last) = self.last_popped_timestamp {
            if frame.timestamp <= last {
                return ;
            }
        }
        if self.frames.len() >= self.max_size {
            if let Some(oldest) = self.first() {
                if frame.timestamp > oldest {
                    let _ = self.frames.remove(&oldest);
                } else {
                    return ;
                }
            }
        }
        let _ = self.frames.insert(frame.timestamp, frame);
    }

    /// Takes the oldest frame out.
    pub fn pop(&mut self) -> (r: Option<AudioFrame>)
        requires
            old(self).wf(),
        ensures
            final(self).wf(),
            final(self).capacity() == old(self).capacity(),
            r is Some == (old(self).count() > 0),
            r is None ==> *final(self) == *old(self),
            r matches Some(frame) ==> {
                &&& is_oldest(old(self).contents(), frame.timestamp)
                &&& old(self).contents()[frame.timestamp] == frame
                &&& final(self).contents() == old(self).contents().remove(frame.timestamp)
                &&& final(self).count() == old(self).count() - 1
                &&& final(self).last_popped() == Some(frame.timestamp)
                &&& old(self).last_popped() matches Some(last) ==> last < frame.timestamp
            },
    {
        broadcast use vstd::std_specs::btree::group_btree_axioms;

        match self.first() {
            Some(t) => {
                let frame = self.frames.remove(&t);
                self.last_popped_timestamp = Some(t);
                frame
            },
            None => None,
        }
    }

    /// Drops all frames. What came out before still bars older frames.
    pub fn clear(&mut self)
        requires
            old(self).wf(),
        ensures
            final(self).wf(),
            final(self).contents() == Map::<u64, AudioFrame>::empty(),
            final(self).count() == 0,
            final(self).capacity() == old(self).capacity(),
            final(self).last_popped() == old(self).last_popped(),
    {
        self.frames.clear();
    }

    pub fn len(&self) -> (r: usize)
        requires
            self.wf(),
        ensures
            r == self.count(),
            r <= self.capacity() || r <= 1,
    {
        broadcast use vstd::std_specs::btree::group_btree_axioms;

        self.frames.len()
    }

    pub fn is_empty(&self) -> (r: bool)
        requires
            self.wf(),
        ensures
            r == (self.count() == 0),
            r == (self.contents() == Map::<u64, AudioFrame>::empty()),
    {
        broadcast use vstd::std_specs::btree::group_btree_axioms;

        let r = self.frames.is_empty();
        assert(r ==> self.frames@ =~= Map::<u64, AudioFrame>::empty());
        r
    }

    /// Takes out the frames of a span of time, at least one, as far as there are any.
    pub fn pull_frames(&mut self, duration_ms: u32) -> (r: Vec<AudioFrame>)
        requires
            old(self).wf(),
        ensures
            final(self).wf(),
            final(self).capacity() == old(self).capacity(),
            pulled(old(self).contents(), r@, final(self).contents()),
            r@.len() == if frames_wanted(duration_ms) <= old(self).count() {
                frames_wanted(duration_ms)
            } else {
                old(self).count()
            },
            final(self).count() == old(self).count() - r@.len(),
            final(self).last_popped() == (if r@.len() > 0 {
                Some(r@.last().timestamp)
            } else {
                old(self).last_popped()
            }),
    {
        let mut wanted: u32 = duration_ms / 20;
        if wanted < 1 {
            wanted = 1;
        }
        let mut frames: Vec<AudioFrame> = Vec::new();
        let mut i: u32 = 0;
        while i < wanted
            invariant
                i <= wanted,
                wanted == frames_wanted(duration_ms),
                self.wf(),
                self.capacity() == old(self).capacity(),
                frames@.len() == i,
                pulled(old(self).contents(), frames@, self.contents()),
                self.count() == old(self).count() - frames@.len(),
                self.last_popped() == (if frames@.len() > 0 {
                    Some(frames@.last().timestamp)
                } else {
                    old(self).last_popped()
                }),
            decreases wanted - i,
        {
            let ghost middle = self.contents();
            match self.pop() {
                Some(frame) => {
                    proof {
                        lemma_pull_one_more(old(self).contents(), frames@, middle, frame);
                    }
                    frames.push(frame);
                },
                None => {
                    return frames;
                },
            }
            i = i + 1;
        }
        frames
    }
}

/// The frames of 20 ms in a span of time, at least one.
pub open spec fn frames_wanted(duration_ms: u32) -> nat {
    if duration_ms / 20 < 1 {
        1
    } else {
        (duration_ms / 20) as nat
    }
}

/// Whether taking the oldest frame out again and again gives `frames` and leaves `after`.
pub open spec fn pulled(
    before: Map<u64, AudioFrame>,
    frames: Seq<AudioFrame>,
    after: Map<u64, AudioFrame>,
) -> bool
    decreases frames.len(),
{
    if frames.len() == 0 {
        after == before
    } else {
        let t = frames[0].timestamp;
        &&& is_oldest(before, t)
        &&& before[t] == frames[0]
        &&& pulled(before.remove(t), frames.skip(1), after)
    }
}

proof fn lemma_pull_one_more(
    before: Map<u64, AudioFrame>,
    frames: Seq<AudioFrame>,
    middle: Map<u64, AudioFrame>,
    frame: AudioFrame,
)
    requires
        pulled(before, frames, middle),
        is_oldest(middle, frame.timestamp),
        middle[frame.timestamp] == frame,
    ensures
        pulled(before, frames.push(frame), middle.remove(frame.timestamp)),
    decreases frames.len(),
{
    let longer = frames.push(frame);
    if frames.len() == 0 {
        assert(longer.skip(1) =~= Seq::<AudioFrame>::empty());
        assert(pulled(before.remove(frame.timestamp), longer.skip(1), before.remove(frame.timestamp)));
    } else {
        let t = frames[0].timestamp;
        lemma_pull_one_more(before.remove(t), frames.skip(1), middle, frame);
        assert(longer.skip(1) =~= frames.skip(1).push(frame));
    }
}

proof fn lemma_pulled_were_there(
    before: Map<u64, AudioFrame>,
    frames: Seq<AudioFrame>,
    after: Map<u64, AudioFrame>,
    i: int,
)
    requires
        pulled(before, frames, after),
        0 <= i < frames.len(),
    ensures
        before.contains_key(frames[i].timestamp),
    decreases frames.len(),
{
    if i > 0 {
        lemma_pulled_were_there(
            before.remove(frames[0].timestamp),
            frames.skip(1),
            after,
            i - 1,
        );
        assert(frames.skip(1)[i - 1] == frames[i]);
    }
}

/// A buffer never holds more frames than it was made for, though at least one, and never one as
/// old as what has come out.
pub proof fn law_buffer_is_bounded(buffer: &JitterBuffer)
    requires
        buffer.wf(),
    ensures
        buffer.contents().dom().finite(),
        buffer.count() <= buffer.capacity() || buffer.count() <= 1,
        buffer.last_popped() matches Some(last) ==> forall|t: u64|
            buffer.contents().contains_key(t) ==> last < t,
{
    broadcast use vstd::std_specs::btree::group_btree_axioms;

}

/// Every frame stands under its own timestamp.
pub proof fn law_frames_stand_under_their_timestamps(buffer: &JitterBuffer, t: u64)
    requires
        buffer.wf(),
        buffer.contents().contains_key(t),
    ensures
        buffer.contents()[t].timestamp == t,
{
}

/// Whatever order frames went in, they come out in the order of their timestamps.
pub proof fn law_frames_come_out_in_order(
    before: Map<u64, AudioFrame>,
    frames: Seq<AudioFrame>,
    after: Map<u64, AudioFrame>,
    i: int,
    j: int,
)
    requires
        pulled(before, frames, after),
        0 <= i < j < frames.len(),
    ensures
        frames[i].timestamp < frames[j].timestamp,
    decreases frames.len(),
{
    let t = frames[0].timestamp;
    let rest = frames.skip(1);
    assert(rest[j - 1] == frames[j]);
    if i == 0 {
        lemma_pulled_were_there(before.remove(t), rest, after, j - 1);
    } else {
        law_frames_come_out_in_order(before.remove(t), rest, after, i - 1, j - 1);
        assert(rest[i - 1] == frames[i]);
    }
}

/// A frame newer than the last one that came out is kept while there is room, which an empty buffer
/// always has, and no other frame leaves for it.
pub proof fn law_newer_frames_are_kept(buffer: &JitterBuffer, frame: AudioFrame)
    requires
        buffer.wf(),
        buffer.count() < buffer.capacity() || buffer.count() == 0,
        buffer.last_popped() matches Some(last) ==> last < frame.timestamp,
    ensures
        ({
            let after = pushed(
                buffer.contents(),
                buffer.count(),
                buffer.capacity(),
                buffer.last_popped(),
                frame,
            );
            &&& after.contains_key(frame.timestamp)
            &&& after[frame.timestamp] == frame
            &&& forall|t: u64|
                t != frame.timestamp ==> {
                    &&& #[trigger] after.contains_key(t) == buffer.contents().contains_key(t)
                    &&& after.contains_key(t) ==> after[t] == buffer.contents()[t]
                }
        }),
{
}

/// A frame as old as what came out, or older, changes nothing.
pub proof fn law_late_frames_are_dropped(buffer: &JitterBuffer, frame: AudioFrame)
    requires
        buffer.last_popped() matches Some(last) && frame.timestamp <= last,
    ensures
        pushed(
            buffer.contents(),
            buffer.count(),
            buffer.capacity(),
            buffer.last_popped(),
            frame,
        ) == buffer.contents(),
{
}

/// A full buffer takes a frame that is newer than one it holds, in place of the frame that is older
/// than all others. A frame that is older than all it holds changes nothing.
pub proof fn law_full_buffer_keeps_the_newest(buffer: &JitterBuffer, frame: AudioFrame, first: u64)
    requires
        buffer.wf(),
        buffer.count() >= buffer.capacity(),
        buffer.contents().contains_key(first),
        forall|t: u64| #[trigger] buffer.contents().contains_key(t) ==> first <= t,
        buffer.last_popped() matches Some(last) ==> last < frame.timestamp,
    ensures
        ({
            let after = pushed(
                buffer.contents(),
                buffer.count(),
                buffer.capacity(),
                buffer.last_popped(),
                frame,
            );
            &&& frame.timestamp <= first ==> after == buffer.contents()
            &&& frame.timestamp > first ==> {
                &&& after.contains_key(frame.timestamp)
                &&& after[frame.timestamp] == frame
                &&& !after.contains_key(first)
                &&& forall|t: u64|
                    t != frame.timestamp && t != first ==> {
                        &&& #[trigger] after.contains_key(t) == buffer.contents().contains_key(t)
                        &&& after.contains_key(t) ==> after[t] == buffer.contents()[t]
                    }
            }
        }),
{
    broadcast use vstd::std_specs::btree::group_btree_axioms;

    assert(is_oldest(buffer.contents(), first));
    assert(is_oldest(buffer.contents(), oldest(buffer.contents())));
    assert(oldest(buffer.contents()) == first);
    assert(buffer.contents().dom().contains(first));
    assert(buffer.count() > 0);
}

/// What comes out was in the buffer and is in it no longer; all else stays.
pub proof fn law_pulled_frames_leave(
    before: Map<u64, AudioFrame>,
    frames: Seq<AudioFrame>,
    after: Map<u64, AudioFrame>,
    t: u64,
)
    requires
        pulled(before, frames, after),
    ensures
        forall|i: int|
            0 <= i < frames.len() ==> {
                &&& before.contains_key((#[trigger] frames[i]).timestamp)
                &&& before[frames[i].timestamp] == frames[i]
                &&& !after.contains_key(frames[i].timestamp)
            },
        (forall|i: int| 0 <= i < frames.len() ==> (#[trigger] frames[i]).timestamp != t) ==> {
            &&& after.contains_key(t) == before.contains_key(t)
            &&& after.contains_key(t) ==> after[t] == before[t]
        },
    decreases frames.len(),
{
    if frames.len() > 0 {
        let first = frames[0].timestamp;
        let rest = frames.skip(1);
        law_pulled_frames_leave(before.remove(first), rest, after, t);
        law_pulled_frames_leave(before.remove(first), rest, after, first);
        assert forall|i: int| 0 <= i < frames.len() implies {
            &&& before.contains_key((#[trigger] frames[i]).timestamp)
            &&& before[frames[i].timestamp] == frames[i]
            &&& !after.contains_key(frames[i].timestamp)
        } by {
            if i > 0 {
                assert(rest[i - 1] == frames[i]);
            } else {
                assert forall|k: int| 0 <= k < rest.len() implies (#[trigger] rest[k]).timestamp
                    != first by {
                    lemma_pulled_were_there(before.remove(first), rest, after, k);
                }
            }
        }
        if forall|i: int| 0 <= i < frames.len() ==> (#[trigger] frames[i]).timestamp != t {
            assert forall|k: int| 0 <= k < rest.len() implies (#[trigger] rest[k]).timestamp != t by {
                assert(rest[k] == frames[k + 1]);
            }
            assert(frames[0].timestamp != t);
        }
    }
}

/// What comes out is older than all that stays.
pub proof fn law_oldest_frames_come_out(
    before: Map<u64, AudioFrame>,
    frames: Seq<AudioFrame>,
    after: Map<u64, AudioFrame>,
    i: int,
    t: u64,
)
    requires
        pulled(before, frames, after),
        0 <= i < frames.len(),
        after.contains_key(t),
    ensures
        frames[i].timestamp < t,
    decreases frames.len(),
{
    law_pulled_frames_leave(before, frames, after, t);
    let first = frames[0].timestamp;
    let rest = frames.skip(1);
    law_pulled_frames_leave(before.remove(first), rest, after, t);
    if i > 0 {
        law_oldest_frames_come_out(before.remove(first), rest, after, i - 1, t);
        assert(rest[i - 1] == frames[i]);
    } else {
        assert(before.contains_key(t)) by {
            if exists|k: int| 0 <= k < frames.len() && (#[trigger] frames[k]).timestamp == t {
                let k = choose|k: int| 0 <= k < frames.len() && (#[trigger] frames[k]).timestamp == t;
                assert(!after.contains_key(frames[k].timestamp));
            }
        }
        assert(!after.contains_key(frames[0].timestamp));
    }
}

/// The frames asked for fill the span of time and no more, though it is at least one.
pub proof fn law_pulled_frames_fill_the_span(duration_ms: u32)
    ensures
        duration_ms >= 20 ==> 20 * frames_wanted(duration_ms) <= duration_ms < 20 * (frames_wanted(
            duration_ms,
        ) + 1),
        duration_ms < 20 ==> frames_wanted(duration_ms) == 1,
{
}

} // verus!
