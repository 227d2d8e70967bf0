//! Sources of PCM audio: files, silence, and either at another sample rate.
use vstd::prelude::*;

use crate::text::{eq_ignore_ascii_case, folded, same_folded, same_text};
use crate::voice::{decodable, is_decoding, resamplable, resampled_count, VoiceCodec, VoiceDecoder, VoiceResampler};

verus! {

/// A file could not be opened again.
#[derive(Debug, Clone, Copy, PartialEq, Eq, Structural)]
pub struct ResetError {}

/// A source of PCM audio.
pub trait AudioSource: Sized {
    /// Whether a buffer of `len` samples can be read.
    open spec fn readable(&self, len: nat) -> bool {
        true
    }

    /// What reading gives: the buffer after it, the samples read, and the source after it.
    open spec fn reading(&self, before: Seq<i16>, after: Seq<i16>, n: usize, next: &Self) -> bool {
        true
    }

    open spec fn rate(&self) -> u32 {
        arbitrary()
    }

    open spec fn channel_count(&self) -> u16 {
        arbitrary()
    }

    /// Whether more audio can come.
    open spec fn more(&self) -> bool {
        arbitrary()
    }

    /// What starting over gives: whether it went well, and the source after it.
    open spec fn resetting(&self, ok: bool, next: &Self) -> bool {
        true
    }

    /// Reads audio to the beginning of a buffer; gives the number of samples, 0 at the end.
    fn read_samples(&mut self, buffer: &mut [i16]) -> (n: usize)
        requires
            old(self).readable(old(buffer)@.len()),
        ensures
            n <= old(buffer)@.len(),
            final(buffer)@.len() == old(buffer)@.len(),
            old(self).reading(old(buffer)@, final(buffer)@, n, final(self)),
            final(self).rate() == old(self).rate(),
            final(self).channel_count() == old(self).channel_count(),
    ;

    fn sample_rate(&self) -> (r: u32)
        ensures
            r == self.rate(),
    ;

    fn channels(&self) -> (r: u16)
        ensures
            r == self.channel_count(),
    ;

    fn has_data(&self) -> (r: bool)
        ensures
            r == self.more(),
    ;

    /// Starts over.
    fn reset(&mut self) -> (r: Result<(), ResetError>)
        ensures
            old(self).resetting(r is Ok, final(self)),
            final(self).rate() == old(self).rate(),
            final(self).channel_count() == old(self).channel_count(),
    ;
}

/// A buffer whose first samples are replaced.
pub open spec fn filled(before: Seq<i16>, at: int, data: Seq<i16>) -> Seq<i16> {
    before.take(at) + data + before.skip(at + data.len())
}

/// Copies `n` samples of `data` from `from` to `at`.
fn copy_samples(buffer: &mut [i16], at: usize, data: &[i16], from: usize, n: usize)
    requires
        at + n <= old(buffer)@.len(),
        from + n <= data@.len(),
    ensures
        final(buffer)@ == filled(old(buffer)@, at as int, data@.subrange(from as int, from + n)),
{
    let ghost before = buffer@;
    let room: usize = buffer.len();
    let given: usize = data.len();
    let mut i: usize = 0;
    while i < n
        invariant
            i <= n,
            at + n <= room,
            room == before.len(),
            room == buffer@.len(),
            from + n <= given,
            given == data@.len(),
            forall|k: int| 0 <= k < before.len() && !(at <= k < at + i) ==> buffer@[k] == before[k],
            forall|k: int| at <= k < at + i ==> buffer@[k] == data@[from + k - at],
        decreases n - i,
    {
        buffer[at + i] = data[from + i];
        i = i + 1;
    }
    assert(buffer@ =~= filled(before, at as int, data@.subrange(from as int, from + n)));
}

fn fill_silence(buffer: &mut [i16])
    ensures
        final(buffer)@ == Seq::new(old(buffer)@.len(), |i: int| 0i16),
{
    let n: usize = buffer.len();
    let mut i: usize = 0;
    while i < n
        invariant
            i <= n,
            n == buffer@.len(),
            n == old(buffer)@.len(),
            forall|k: int| 0 <= k < i ==> buffer@[k] == 0,
        decreases n - i,
    {
        buffer[i] = 0;
        i = i + 1;
    }
    assert(buffer@ =~= Seq::new(old(buffer)@.len(), |i: int| 0i16));
}

// Silence.

/// Endless silence.
pub struct SilenceSource {
    sample_rate: u32,
}

impl SilenceSource {
    pub fn new(sample_rate: u32) -> (r: Self)
        ensures
            r.rate() == sample_rate,
    {
        SilenceSource { sample_rate }
    }
}

impl AudioSource for SilenceSource {
    open spec fn readable(&self, len: nat) -> bool {
        true
    }

    open spec fn reading(&self, before: Seq<i16>, after: Seq<i16>, n: usize, next: &Self) -> bool {
        n == before.len() && after == Seq::new(before.len(), |i: int| 0i16)
    }

    closed spec fn rate(&self) -> u32 {
        self.sample_rate
    }

    open spec fn channel_count(&self) -> u16 {
        1
    }

    open spec fn more(&self) -> bool {
        true
    }

    open spec fn resetting(&self, ok: bool, next: &Self) -> bool {
        ok
    }

    fn read_samples(&mut self, buffer: &mut [i16]) -> (n: usize) {
        let n: usize = buffer.len();
        fill_silence(buffer);
        n
    }

    fn sample_rate(&self) -> u32 {
        self.sample_rate
    }

    fn channels(&self) -> u16 {
        1
    }

    fn has_data(&self) -> bool {
        true
    }

    fn reset(&mut self) -> (r: Result<(), ResetError>) {
        Ok(())
    }
}

// Another sample rate.

/// A source at another sample rate.
pub struct ResamplingAudioSource<S: AudioSource> {
    source: S,
    resampler: Option<VoiceResampler>,
    source_sample_rate: u32,
    target_sample_rate: u32,
    intermediate_buffer: Vec<i16>,
}

/// The number of source samples that a buffer of `len` samples takes, rounded up.
pub open spec fn needed_source(len: nat, source_rate: nat, target_rate: nat) -> nat {
    (len * source_rate + target_rate - 1) as nat / target_rate
}

impl<S: AudioSource> ResamplingAudioSource<S> {
    pub closed spec fn inner(&self) -> S {
        self.source
    }

    /// The rate that the source is read at.
    pub closed spec fn source_rate(&self) -> u32 {
        self.source_sample_rate
    }

    pub closed spec fn resampler(&self) -> Option<VoiceResampler> {
        self.resampler
    }

    pub closed spec fn intermediate(&self) -> Seq<i16> {
        self.intermediate_buffer@
    }

    /// A resampler is there exactly where the rates differ, and runs between them.
    pub open spec fn wf(&self) -> bool {
        &&& self.resampler() is None == (self.source_rate() == self.rate())
        &&& self.resampler() matches Some(r) ==> {
            &&& r.input_rate() == self.source_rate()
            &&& r.output_rate() == self.rate()
            &&& resamplable(r.input_rate(), r.output_rate())
        }
    }

    /// The source at another rate.
    pub fn new(source: S, target_sample_rate: u32) -> (r: Self)
        requires
            source.rate() == target_sample_rate || resamplable(
                source.rate() as int,
                target_sample_rate as int,
            ),
        ensures
            r.wf(),
            r.inner() == source,
            r.source_rate() == source.rate(),
            r.rate() == target_sample_rate,
            r.intermediate() == Seq::<i16>::empty(),
            r.resampler() matches Some(s) ==> s.lead() == 0 && s.log() == Seq::<
                (Seq<i16>, Seq<i16>),
            >::empty(),
    {
        let source_sample_rate: u32 = source.sample_rate();
        let resampler = if source_sample_rate != target_sample_rate {
            VoiceResampler::new(source_sample_rate, target_sample_rate)
        } else {
            None
        };
        ResamplingAudioSource {
            source,
            resampler,
            source_sample_rate,
            target_sample_rate,
            intermediate_buffer: Vec::new(),
        }
    }
}

/// A buffer cut or lengthened with zeros.
pub open spec fn resized(s: Seq<i16>, len: nat) -> Seq<i16> {
    if len <= s.len() {
        s.take(len as int)
    } else {
        s + Seq::new((len - s.len()) as nat, |i: int| 0i16)
    }
}

proof fn lemma_resampled_fits(n: int, len: int, from: int, to: int)
    requires
        0 <= n,
        n <= needed_source(len as nat, from as nat, to as nat),
        0 <= len,
        from > 0,
        to > 0,
    ensures
        n * to / from <= len + to,
{
    let needed = (len * from + to - 1) / to;
    assert(needed * to <= len * from + to - 1) by (nonlinear_arith)
        requires
            needed == (len * from + to - 1) / to,
            to > 0,
            len * from + to - 1 >= 0,
    {
        vstd::arithmetic::div_mod::lemma_fundamental_div_mod(len * from + to - 1, to);
    }
    assert(len * from >= 0) by (nonlinear_arith)
        requires
            len >= 0,
            from > 0,
    ;
    assert(n * to <= needed * to) by (nonlinear_arith)
        requires
            n <= needed,
            to > 0,
    ;
    assert(n * to / from <= len + to) by (nonlinear_arith)
        requires
            0 <= n * to <= len * from + to,
            from > 0,
            to > 0,
            len >= 0,
    ;
}

impl<S: AudioSource> AudioSource for ResamplingAudioSource<S> {
    open spec fn readable(&self, len: nat) -> bool {
        &&& self.wf()
        &&& if self.source_rate() == self.rate() {
            self.inner().readable(len)
        } else {
            &&& self.inner().readable(
                needed_source(len, self.source_rate() as nat, self.rate() as nat),
            )
            &&& needed_source(len, self.source_rate() as nat, self.rate() as nat) <= usize::MAX
            &&& len * self.source_rate() + self.rate() <= u64::MAX
            &&& 2 * (len + self.rate() + 2) <= isize::MAX
        }
    }

    /// At one rate the source is read; otherwise as much of it as the buffer takes, and the buffer
    /// begins with what the resampler makes of what the source gave, cut to the buffer.
    open spec fn reading(&self, before: Seq<i16>, after: Seq<i16>, n: usize, next: &Self) -> bool {
        if self.source_rate() == self.rate() {
            &&& self.inner().reading(before, after, n, &next.inner())
            &&& next.wf()
            &&& next.source_rate() == self.source_rate()
            &&& next.resampler() == self.resampler()
            &&& next.intermediate() == self.intermediate()
        } else {
            let r = self.resampler()->0;
            let asked = resized(
                self.intermediate(),
                needed_source(before.len(), self.source_rate() as nat, self.rate() as nat),
            );
            &&& next.wf()
            &&& next.source_rate() == self.source_rate()
            &&& next.intermediate().len() == asked.len()
            &&& exists|read: usize|
                {
                    let count = resampled_count(
                        read as int,
                        r.lead(),
                        r.input_rate(),
                        r.output_rate(),
                    );
                    &&& read <= asked.len()
                    &&& #[trigger] self.inner().reading(
                        asked,
                        next.intermediate(),
                        read,
                        &next.inner(),
                    )
                    &&& if read == 0 {
                        n == 0 && after == before && next.resampler() == self.resampler()
                    } else {
                        let given = next.intermediate().take(read as int);
                        let out = next.resampler()->0.log().last().1;
                        &&& next.resampler()->0.log() == r.log().push((given, out))
                        &&& out.len() == count
                        &&& after.take(n as int) == out.take(n as int)
                        &&& n == (if count < before.len() {
                            count
                        } else {
                            before.len() as int
                        })
                        &&& after.len() == before.len()
                        &&& after.skip(n as int) == before.skip(n as int)
                        &&& next.resampler()->0.lead() == r.lead() + count * r.input_rate() - read
                            * r.output_rate()
                    }
                }
        }
    }

    closed spec fn rate(&self) -> u32 {
        self.target_sample_rate
    }

    open spec fn channel_count(&self) -> u16 {
        self.inner().channel_count()
    }

    open spec fn more(&self) -> bool {
        self.inner().more()
    }

    /// The source starts over; what the resampler has taken in stays.
    open spec fn resetting(&self, ok: bool, next: &Self) -> bool {
        &&& self.inner().resetting(ok, &next.inner())
        &&& next.source_rate() == self.source_rate()
        &&& next.resampler() == self.resampler()
        &&& next.intermediate() == self.intermediate()
        &&& self.wf() ==> next.wf()
    }

    fn read_samples(&mut self, buffer: &mut [i16]) -> (n: usize) {
        let ghost before = buffer@;
        match self.resampler.take() {
            None => self.source.read_samples(buffer),
            Some(mut resampler) => {
                let from: u64 = self.source_sample_rate as u64;
                let to: u64 = self.target_sample_rate as u64;
                let ghost len = buffer@.len();
                assert(len * from >= 0) by (nonlinear_arith)
                    requires
                        len >= 0,
                        from >= 0,
                ;
                let needed: u64 = (buffer.len() as u64 * from + to - 1) / to;
                assert(needed == needed_source(len, from as nat, to as nat));
                self.intermediate_buffer.resize(needed as usize, 0);
                assert(self.intermediate_buffer@ =~= resized(old(self).intermediate(), needed as nat));
                let ghost asked = self.intermediate_buffer@;
                let read: usize = self.source.read_samples(self.intermediate_buffer.as_mut_slice());
                assert(old(self).inner().reading(asked, self.intermediate(), read, &self.inner()));
                let ghost given = self.intermediate_buffer@;
                let ghost after = self.source;
                if read == 0 {
                    self.resampler = Some(resampler);
                    assert(buffer@ == before);
                    assert(self.inner() == after && self.intermediate() == given);
                    assert(old(self).inner().reading(asked, self.intermediate(), 0, &self.inner()));
                    return 0;
                }
                let mut block: Vec<i16> = self.intermediate_buffer.clone();
                block.truncate(read);
                proof {
                    lemma_resampled_fits(read as int, len as int, from as int, to as int);
                }
                let resampled: Vec<i16> = resampler.resample(block.as_slice());
                self.resampler = Some(resampler);
                let n: usize = if resampled.len() < buffer.len() {
                    resampled.len()
                } else {
                    buffer.len()
                };
                copy_samples(buffer, 0, resampled.as_slice(), 0, n);
                assert(buffer@.skip(n as int) =~= before.skip(n as int));
                assert(buffer@.take(n as int) =~= resampled@.take(n as int));
                assert(block@ =~= given.take(read as int));
                assert(self.inner() == after && self.intermediate() == given);
                assert(old(self).inner().reading(asked, self.intermediate(), read, &self.inner()));
                n
            },
        }
    }

    fn sample_rate(&self) -> u32 {
        self.target_sample_rate
    }

    fn channels(&self) -> u16 {
        self.source.channels()
    }

    fn has_data(&self) -> bool {
        self.source.has_data()
    }

    fn reset(&mut self) -> (r: Result<(), ResetError>) {
        self.source.reset()
    }
}

// Files.

/// Files of up to so many bytes are decoded as a whole when they are opened.
pub const MAX_PREDECODED_BYTES: u64 = 5_242_880;

/// Whether a file of a size is decoded as a whole when it is opened.
pub fn wants_predecoding(file_size: u64) -> (r: bool)
    ensures
        r == (file_size <= MAX_PREDECODED_BYTES),
{
    file_size <= MAX_PREDECODED_BYTES
}

/// Integer division that rounds towards zero.
pub open spec fn truncated_div(a: int, b: int) -> int {
    if a >= 0 {
        a / b
    } else {
        -((-a) / b)
    }
}

/// Sum of the samples from `i` to `j`.
pub open spec fn sample_sum(s: Seq<i16>, i: int, j: int) -> int
    decreases j - i,
{
    if i >= j {
        0
    } else {
        sample_sum(s, i, j - 1) + s[j - 1]
    }
}

pub open spec fn lesser(a: int, b: int) -> int {
    if a < b {
        a
    } else {
        b
    }
}

/// Frame `k` of interleaved audio in one channel: the sum over the number of channels. A frame
/// that is cut short counts what is missing as silence.
pub open spec fn mixed_frame(s: Seq<i16>, channels: int, k: int) -> i16 {
    truncated_div(
        sample_sum(s, k * channels, lesser((k + 1) * channels, s.len() as int)),
        channels,
    ) as i16
}

/// The number of frames, one that is cut short included.
pub open spec fn frame_count(len: int, channels: int) -> int {
    (len + channels - 1) / channels
}

/// Interleaved audio in one channel.
pub open spec fn mixed(s: Seq<i16>, channels: int) -> Seq<i16> {
    if channels == 1 {
        s
    } else {
        Seq::new(frame_count(s.len() as int, channels) as nat, |k: int| mixed_frame(s, channels, k))
    }
}

proof fn lemma_sum_bound(s: Seq<i16>, i: int, j: int)
    requires
        i <= j,
    ensures
        -32768 * (j - i) <= sample_sum(s, i, j) <= 32767 * (j - i),
    decreases j - i,
{
    if i < j {
        lemma_sum_bound(s, i, j - 1);
    }
}

/// Mixes interleaved audio down to one channel.
pub fn mix_stereo_to_mono(samples: &[i16], channels: usize) -> (r: Vec<i16>)
    requires
        0 < channels <= 65535,
    ensures
        r@ == mixed(samples@, channels as int),
{
    let mut mono: Vec<i16> = Vec::new();
    let len: usize = samples.len();
    let mut start: usize = 0;
    let ghost mut k: int = 0;
    if channels == 1 {
        while start < len
            invariant
                start <= len,
                len == samples@.len(),
                mono@ =~= samples@.take(start as int),
            decreases len - start,
        {
            mono.push(samples[start]);
            start = start + 1;
        }
        assert(samples@.take(len as int) =~= samples@);
        return mono;
    }
    while start < len
        invariant
            1 < channels <= 65535,
            len == samples@.len(),
            k >= 0,
            start == lesser(k * channels, len as int),
            k * channels < len + channels,
            mono@ =~= Seq::new(k as nat, |i: int| mixed_frame(samples@, channels as int, i)),
        decreases len - start,
    {
        let mut sum: i32 = 0;
        let mut n: usize = 0;
        while n < channels && n < len - start
            invariant
                n <= channels <= 65535,
                len == samples@.len(),
                start < len,
                start + n <= len,
                sum == sample_sum(samples@, start as int, start + n),
                -32768 * n <= sum <= 32767 * n,
            decreases channels - n,
        {
            sum = sum + samples[start + n] as i32;
            n = n + 1;
        }
        proof {
            assert((k + 1) * channels == k * channels + channels) by (nonlinear_arith);
            assert(start + n == lesser((k + 1) * channels, len as int));
            lemma_sum_bound(samples@, start as int, start + n);
            let c = channels as int;
            let t = sum as int;
            assert(-32768 <= truncated_div(t, c) <= 32767) by (nonlinear_arith)
                requires
                    c > 0,
                    -32768 * c <= t <= 32767 * c,
                    truncated_div(t, c) == (if t >= 0 {
                        t / c
                    } else {
                        -((-t) / c)
                    }),
            ;
        }
        let c: i32 = channels as i32;
        let mean: i32 = if sum >= 0 {
            sum / c
        } else {
            -((-sum) / c)
        };
        mono.push(mean as i16);
        start = start + n;
        proof {
            k = k + 1;
        }
    }
    proof {
        let c = channels as int;
        assert(k == frame_count(len as int, c)) by (nonlinear_arith)
            requires
                c > 1,
                k >= 0,
                k * c >= len,
                k * c < len + c,
                frame_count(len as int, c) == (len + c - 1) / c,
        ;
    }
    mono
}

proof fn lemma_sample_total(s: Seq<i16>, start: int, totals: Seq<int>, n: nat)
    requires
        n < totals.len(),
        totals[0] == 0,
        forall|i: int| 0 <= i < n ==> #[trigger] totals[i + 1] == totals[i] + s[start + i],
    ensures
        sample_sum(s, start, start + n) == totals[n as int],
    decreases n,
{
    if n > 0 {
        lemma_sample_total(s, start, totals, (n - 1) as nat);
        assert(totals[(n - 1) + 1] == totals[n as int]);
    }
}

proof fn lemma_mean(total: int, channels: int, n: int)
    requires
        0 < channels,
        0 <= n <= channels,
        -32768 * n <= total <= 32767 * n,
    ensures
        ({
            let mean = truncated_div(total, channels);
            &&& -32768 <= mean <= 32767
            &&& total >= 0 ==> channels * mean <= total < channels * (mean + 1)
            &&& total <= 0 ==> channels * (mean - 1) < total <= channels * mean
        }),
{
    let a = if total >= 0 {
        total
    } else {
        -total
    };
    let q = a / channels;
    assert(channels * q <= a < channels * (q + 1) && 0 <= q <= 32768 && (a <= 32767 * channels ==> q
        <= 32767)) by (nonlinear_arith)
        requires
            channels > 0,
            q == a / channels,
            0 <= a <= 32768 * channels,
    ;
    let m = -q;
    assert(channels * m == -(channels * q) && channels * (m - 1) == -(channels * (q + 1)))
        by (nonlinear_arith)
        requires
            m == -q,
    ;
}

proof fn lemma_totals_stay(totals: Seq<int>, from: int, to: int)
    requires
        0 <= from <= to < totals.len(),
        forall|i: int| from <= i < to ==> #[trigger] totals[i + 1] == totals[i],
    ensures
        totals[to] == totals[from],
    decreases to - from,
{
    if from < to {
        lemma_totals_stay(totals, from, to - 1);
        assert(totals[(to - 1) + 1] == totals[to - 1]);
    }
}

/// Every frame of interleaved audio becomes its mean, whatever the sign of the samples. Where
/// `totals` counts up the samples of frame `k`, those that a frame cut short lacks as silence, the
/// sample in one channel is the last total over the number of channels, rounded toward zero.
pub proof fn law_mono_sample_is_the_mean(s: Seq<i16>, channels: int, k: int, totals: Seq<int>)
    requires
        channels > 0,
        k >= 0,
        k * channels < s.len(),
        totals.len() == channels + 1,
        totals[0] == 0,
        forall|i: int|
            0 <= i < channels ==> #[trigger] totals[i + 1] == totals[i] + (if k * channels + i
                < s.len() {
                s[k * channels + i] as int
            } else {
                0
            }),
    ensures
        k < mixed(s, channels).len(),
        ({
            let total = totals.last();
            let mean = mixed(s, channels)[k];
            &&& total >= 0 ==> channels * mean <= total < channels * (mean + 1)
            &&& total <= 0 ==> channels * (mean - 1) < total <= channels * mean
        }),
{
    let start = k * channels;
    assert((k + 1) * channels == start + channels) by (nonlinear_arith)
        requires
            start == k * channels,
    ;
    assert(start >= 0) by (nonlinear_arith)
        requires
            start == k * channels,
            k >= 0,
            channels > 0,
    ;
    let end = lesser(start + channels, s.len() as int);
    let n = end - start;
    lemma_sample_total(s, start, totals, n as nat);
    lemma_totals_stay(totals, n, channels);
    lemma_sum_bound(s, start, end);
    lemma_mean(totals.last(), channels, n);
    let frames = frame_count(s.len() as int, channels);
    assert(k < frames) by (nonlinear_arith)
        requires
            channels > 0,
            k * channels < s.len(),
            frames == (s.len() + channels - 1) / channels,
    ;
    if channels == 1 {
        assert(start == k) by (nonlinear_arith)
            requires
                start == k * channels,
                channels == 1,
        ;
        let i: int = 0;
        assert(totals[i + 1] == totals[i] + s[start + i]);
    }
}

/// A frame whose channels all hold one sample becomes that sample.
pub proof fn law_equal_channels_become_one(s: Seq<i16>, channels: int, k: int, v: i16)
    requires
        channels > 0,
        k >= 0,
        k * channels + channels <= s.len(),
        forall|i: int| k * channels <= i < k * channels + channels ==> #[trigger] s[i] == v,
    ensures
        mixed(s, channels)[k] == v,
{
    let totals = Seq::new((channels + 1) as nat, |i: int| i * v);
    assert(k * channels >= 0) by (nonlinear_arith)
        requires
            k >= 0,
            channels > 0,
    ;
    assert forall|i: int| 0 <= i < channels implies #[trigger] totals[i + 1] == totals[i] + (if k
        * channels + i < s.len() {
        s[k * channels + i] as int
    } else {
        0
    }) by {
        assert((i + 1) * v == i * v + v) by (nonlinear_arith);
    }
    assert(totals[0] == 0);
    law_mono_sample_is_the_mean(s, channels, k, totals);
    let mean = mixed(s, channels)[k] as int;
    let w = v as int;
    assert(totals.last() == channels * w);
    if w >= 0 {
        assert(channels * w >= 0) by (nonlinear_arith)
            requires
                channels > 0,
                w >= 0,
        ;
        assert(mean == w) by (nonlinear_arith)
            requires
                channels > 0,
                channels * mean <= channels * w,
                channels * w < channels * (mean + 1),
        ;
    } else {
        assert(channels * w <= 0) by (nonlinear_arith)
            requires
                channels > 0,
                w <= 0,
        ;
        assert(mean == w) by (nonlinear_arith)
            requires
                channels > 0,
                channels * (mean - 1) < channels * w,
                channels * w <= channels * mean,
        ;
    }
}

/// There is one sample for each frame, one that is cut short included, and audio of one channel
/// stays as it is.
pub proof fn law_mono_has_a_sample_for_each_frame(s: Seq<i16>, channels: int)
    requires
        channels > 0,
    ensures
        channels * mixed(s, channels).len() >= s.len(),
        channels * (mixed(s, channels).len() - 1) < s.len(),
        channels == 1 ==> mixed(s, channels) == s,
{
    let n = frame_count(s.len() as int, channels);
    assert(n >= 0 && channels * n >= s.len() && channels * (n - 1) < s.len()) by (nonlinear_arith)
        requires
            channels > 0,
            n == (s.len() + channels - 1) / channels,
            s.len() >= 0,
    ;
}

/// The codec of a raw audio file by its extension: a codec's name in any case, or a one-letter
/// short form; mu-law for anything else.
pub open spec fn codec_of_extension(ext: Seq<char>) -> VoiceCodec {
    if same_folded(ext, "pcmu"@) || same_folded(ext, "ulaw"@) {
        VoiceCodec::Pcmu
    } else if same_folded(ext, "pcma"@) || same_folded(ext, "alaw"@) {
        VoiceCodec::Pcma
    } else if same_folded(ext, "g722"@) {
        VoiceCodec::G722
    } else if same_folded(ext, "g729"@) {
        VoiceCodec::G729
    } else if same_folded(ext, "opus"@) {
        VoiceCodec::Opus
    } else if same_folded(ext, "telephone-event"@) {
        VoiceCodec::TelephoneEvent
    } else if ext == "a"@ {
        VoiceCodec::Pcma
    } else {
        VoiceCodec::Pcmu
    }
}

/// The codec of a raw audio file by its extension.
pub fn detect_codec(ext: &str) -> (r: VoiceCodec)
    ensures
        r == codec_of_extension(ext@),
{
    if eq_ignore_ascii_case(ext, "pcmu") || eq_ignore_ascii_case(ext, "ulaw") {
        VoiceCodec::Pcmu
    } else if eq_ignore_ascii_case(ext, "pcma") || eq_ignore_ascii_case(ext, "alaw") {
        VoiceCodec::Pcma
    } else if eq_ignore_ascii_case(ext, "g722") {
        VoiceCodec::G722
    } else if eq_ignore_ascii_case(ext, "g729") {
        VoiceCodec::G729
    } else if eq_ignore_ascii_case(ext, "opus") {
        VoiceCodec::Opus
    } else if eq_ignore_ascii_case(ext, "telephone-event") {
        VoiceCodec::TelephoneEvent
    } else if same_text(ext, "a") {
        VoiceCodec::Pcma
    } else {
        VoiceCodec::Pcmu
    }
}

/// Whether a path names a file on a web server.
pub open spec fn is_url(path: Seq<char>) -> bool {
    crate::text::has_prefix(path, "http://"@) || crate::text::has_prefix(path, "https://"@)
}

/// Whether a path names a file on a web server.
pub fn is_remote(path: &str) -> (r: bool)
    ensures
        r == is_url(path@),
{
    crate::text::starts_with(path, "http://") || crate::text::starts_with(path, "https://")
}

/// The first place of a character at or behind `i`, the length if there is none.
pub open spec fn first_place(s: Seq<char>, c: char, i: int) -> int
    decreases s.len() - i,
{
    if i >= s.len() {
        s.len() as int
    } else if s[i] == c {
        i
    } else {
        first_place(s, c, i + 1)
    }
}

/// The place behind the last of a character before `i`, 0 if there is none.
pub open spec fn behind_last(s: Seq<char>, c: char, i: int) -> int
    decreases i,
{
    if i <= 0 {
        0
    } else if s[i - 1] == c {
        i
    } else {
        behind_last(s, c, i - 1)
    }
}

/// The last part of a URL's path, without its query.
pub open spec fn url_file_name(url: Seq<char>) -> Seq<char> {
    let tail = url.skip(behind_last(url, '/', url.len() as int));
    tail.take(first_place(tail, '?', 0))
}

/// The name of the temporary file that a URL is downloaded to.
pub fn download_name(url: &str) -> (r: String)
    ensures
        r@ == "rustpbx_audio_"@ + url_file_name(url@),
{
    let n: usize = url.unicode_len();
    let mut start: usize = n;
    while start > 0 && url.get_char(start - 1) != '/'
        invariant
            start <= n,
            n == url@.len(),
            behind_last(url@, '/', n as int) == behind_last(url@, '/', start as int),
        decreases start,
    {
        start = start - 1;
    }
    assert(behind_last(url@, '/', n as int) == start);
    let tail = url.substring_char(start, n);
    assert(tail@ =~= url@.skip(start as int));
    let m: usize = n - start;
    let mut end: usize = 0;
    while end < m && tail.get_char(end) != '?'
        invariant
            end <= m,
            m == tail@.len(),
            first_place(tail@, '?', 0) == first_place(tail@, '?', end as int),
        decreases m - end,
    {
        end = end + 1;
    }
    assert(first_place(tail@, '?', 0) == end);
    let name = tail.substring_char(0, end);
    assert(name@ =~= tail@.take(end as int));
    let mut out: String = "rustpbx_audio_".to_owned();
    out.append(name);
    out
}

/// What a file holds.
#[derive(Debug, Clone, Copy, PartialEq, Eq, Structural)]
pub enum FileKind {
    /// PCM in a WAV container.
    Wav { channels: u16, sample_rate: u32 },
    /// MP3 frames.
    Mp3 { channels: u16, sample_rate: u32 },
    /// Packets of a codec without a container.
    Raw,
    /// Nothing is left to be read.
    Drained,
}

/// How a file is opened.
#[derive(Debug, Clone, Copy, PartialEq, Eq, Structural)]
pub enum FileFormat {
    Wav,
    Mp3,
    Raw(VoiceCodec),
}

/// How a file is opened, by its extension: as it stands, and in small letters.
pub fn file_format(ext: &str, lower_ext: &str) -> (r: FileFormat)
    ensures
        r == (if lower_ext@ == "wav"@ {
            FileFormat::Wav
        } else if lower_ext@ == "mp3"@ {
            FileFormat::Mp3
        } else {
            FileFormat::Raw(codec_of_extension(ext@))
        }),
{
    if same_text(lower_ext, "wav") {
        FileFormat::Wav
    } else if same_text(lower_ext, "mp3") {
        FileFormat::Mp3
    } else {
        FileFormat::Raw(detect_codec(ext))
    }
}

/// A file that is played. It is decoded as a whole when it is opened, or read bit by bit, for
/// which the reader of the file hands in what it read.
pub struct FileAudioSource {
    pub kind: FileKind,
    pub decoder: VoiceDecoder,
    pub loop_playback: bool,
    pub eof_reached: bool,
    /// The MP3 frame that is being read, and how far.
    pub frame: Vec<i16>,
    pub frame_pos: usize,
    /// The bytes of one packet of a raw file.
    pub raw_frame_size: usize,
    /// The audio of a file that was decoded as a whole, and how far it is read.
    pub pcm_cache: Vec<i16>,
    pub pcm_cache_pos: usize,
    pub cached_channels: u16,
    pub cached_sample_rate: u32,
}

/// What a read needs next.
#[derive(Debug, Clone, Copy, PartialEq, Eq, Structural)]
pub enum ReadStep {
    /// It is done, with so many samples.
    Done(usize),
    /// The file is to be opened again.
    Rewind,
    /// WAV samples, as many as the buffer holds.
    Wav,
    /// The next MP3 frame; so many samples are read.
    Frame(usize),
    /// So many bytes of a raw file.
    Bytes(usize),
}

/// The bytes of one packet of a raw file.
pub open spec fn packet_bytes(codec: VoiceCodec) -> usize {
    if codec == VoiceCodec::G729 {
        20
    } else {
        160
    }
}

impl FileAudioSource {
    pub open spec fn wf(&self) -> bool {
        &&& self.frame_pos <= self.frame@.len()
        &&& self.pcm_cache_pos <= self.pcm_cache@.len()
        &&& self.raw_frame_size == packet_bytes(self.decoder.codec())
    }

    /// A file of which nothing is read. An MP3 file comes with its first frame, if it has one.
    pub fn new(kind: FileKind, codec: VoiceCodec, loop_playback: bool, first_frame: Vec<i16>) -> (r: Self)
        ensures
            r.wf(),
            r.kind == kind,
            r.decoder.codec() == codec,
            r.decoder.log() == Seq::<(Seq<u8>, Seq<i16>)>::empty(),
            r.loop_playback == loop_playback,
            !r.eof_reached,
            r.frame == first_frame,
            r.frame_pos == 0,
            r.raw_frame_size == packet_bytes(codec),
            r.pcm_cache@ == Seq::<i16>::empty(),
            r.pcm_cache_pos == 0,
            r.cached_channels == 1,
            r.cached_sample_rate == 8000,
    {
        let raw_frame_size: usize = match codec {
            VoiceCodec::G729 => 20,
            _ => 160,
        };
        FileAudioSource {
            kind,
            decoder: VoiceDecoder::new(codec),
            loop_playback,
            eof_reached: false,
            frame: first_frame,
            frame_pos: 0,
            raw_frame_size,
            pcm_cache: Vec::new(),
            pcm_cache_pos: 0,
            cached_channels: 1,
            cached_sample_rate: 8000,
        }
    }

    /// Channels and sample rate of what the file holds.
    pub open spec fn spec_meta(&self) -> (u16, u32) {
        match self.kind {
            FileKind::Wav { channels, sample_rate } => (channels, sample_rate),
            FileKind::Mp3 { channels, sample_rate } => (channels, sample_rate),
            _ => (1, self.decoder.codec().spec_samplerate()),
        }
    }

    /// Channels and sample rate of what the file holds.
    pub fn meta(&self) -> (r: (u16, u32))
        ensures
            r == self.spec_meta(),
    {
        match self.kind {
            FileKind::Wav { channels, sample_rate } => (channels, sample_rate),
            FileKind::Mp3 { channels, sample_rate } => (channels, sample_rate),
            _ => (1, self.decoder.codec_of().samplerate()),
        }
    }

    fn mono(&self, pcm: Vec<i16>) -> (r: Vec<i16>)
        ensures
            r@ == (if self.spec_meta().0 > 1 {
                mixed(pcm@, self.spec_meta().0 as int)
            } else {
                pcm@
            }),
    {
        let (channels, _) = self.meta();
        if channels > 1 {
            mix_stereo_to_mono(pcm.as_slice(), channels as usize)
        } else {
            pcm
        }
    }

    /// Takes in all samples of a WAV file, in one channel.
    pub fn predecode_wav(&mut self, samples: Vec<i16>)
        ensures
            *final(self) == (FileAudioSource {
                pcm_cache: final(self).pcm_cache,
                cached_channels: 1,
                cached_sample_rate: old(self).spec_meta().1,
                ..*old(self)
            }),
            final(self).pcm_cache@ == (if old(self).spec_meta().0 > 1 {
                mixed(samples@, old(self).spec_meta().0 as int)
            } else {
                samples@
            }),
    {
        let (_, rate) = self.meta();
        self.pcm_cache = self.mono(samples);
        self.cached_channels = 1;
        self.cached_sample_rate = rate;
    }

    /// Takes in all frames of an MP3 file behind the one that is being read, in one channel.
    pub fn predecode_mp3(&mut self, rest: &Vec<i16>)
        requires
            old(self).frame_pos <= old(self).frame@.len(),
        ensures
            ({
                let all = old(self).frame@.skip(old(self).frame_pos as int) + rest@;
                &&& final(self).pcm_cache@ == (if old(self).spec_meta().0 > 1 {
                    mixed(all, old(self).spec_meta().0 as int)
                } else {
                    all
                })
                &&& *final(self) == (FileAudioSource {
                    kind: FileKind::Drained,
                    pcm_cache: final(self).pcm_cache,
                    cached_channels: 1,
                    cached_sample_rate: old(self).spec_meta().1,
                    frame: final(self).frame,
                    frame_pos: 0,
                    ..*old(self)
                })
                &&& final(self).frame@ == Seq::<i16>::empty()
            }),
    {
        let (_, rate) = self.meta();
        let mut all: Vec<i16> = self.frame.split_off(self.frame_pos);
        let ghost head = all@;
        assert(head =~= old(self).frame@.skip(old(self).frame_pos as int));
        let mut i: usize = 0;
        while i < rest.len()
            invariant
                i <= rest.len(),
                all@ =~= head + rest@.take(i as int),
            decreases rest.len() - i,
        {
            all.push(rest[i]);
            i = i + 1;
        }
        assert(rest@.take(rest.len() as int) =~= rest@);
        self.pcm_cache = self.mono(all);
        self.cached_channels = 1;
        self.cached_sample_rate = rate;
        self.kind = FileKind::Drained;
        self.frame = Vec::new();
        self.frame_pos = 0;
    }

    /// Takes in all bytes of a raw file, packet by packet; a packet that is cut short is dropped.
    pub fn predecode_raw(&mut self, data: &[u8])
        requires
            old(self).wf(),
        ensures
            final(self).kind == FileKind::Drained,
            final(self).cached_channels == 1,
            final(self).cached_sample_rate == old(self).spec_meta().1,
            decodes_packets(
                old(self).decoder,
                data@,
                old(self).raw_frame_size as int,
                data@.len() as int / old(self).raw_frame_size as int,
                final(self).pcm_cache@,
                final(self).decoder,
            ),
            *final(self) == (FileAudioSource {
                kind: FileKind::Drained,
                pcm_cache: final(self).pcm_cache,
                cached_channels: 1,
                cached_sample_rate: final(self).cached_sample_rate,
                decoder: final(self).decoder,
                ..*old(self)
            }),
    {
        let (_, rate) = self.meta();
        let size: usize = self.raw_frame_size;
        let mut pcm: Vec<i16> = Vec::new();
        let mut k: usize = 0;
        let len: usize = data.len();
        let count: usize = len / size;
        while k < count
            invariant
                k <= count,
                len == data@.len(),
                size == 20 || size == 160,
                count == data@.len() / size as nat,
                decodes_packets(old(self).decoder, data@, size as int, k as int, pcm@, self.decoder),
                *self == (FileAudioSource { decoder: self.decoder, ..*old(self) }),
            decreases count - k,
        {
            assert(k * size + size <= data@.len()) by (nonlinear_arith)
                requires
                    k < count,
                    count == data@.len() / size as nat,
                    size > 0,
            {
                vstd::arithmetic::div_mod::lemma_fundamental_div_mod(data@.len() as int, size as int);
                assert((k + 1) * size <= count * size) by (nonlinear_arith)
                    requires
                        k < count,
                        size > 0,
                ;
            }
            assert(0 <= k * size) by (nonlinear_arith)
                requires
                    k >= 0,
                    size > 0,
            ;
            let start: usize = k * size;
            let packet = vstd::slice::slice_subrange(data, start, start + size);
            let ghost middle = self.decoder;
            let ghost pcm_before = pcm@;
            let mut decoded = self.decoder.decode(packet);
            let ghost part = decoded@;
            pcm.append(&mut decoded);
            proof {
                let p = packet_of(data@, size as int, k as int);
                assert(packet@ =~= p);
                assert(is_decoding(middle.codec(), middle.past(), p, part));
                assert(pcm@ =~= pcm_before + part);
                assert(decodes_packets_link(
                    data@,
                    size as int,
                    k + 1,
                    pcm@,
                    pcm_before,
                    part,
                    middle,
                    self.decoder,
                ));
            }
            k = k + 1;
        }
        self.pcm_cache = pcm;
        self.cached_channels = 1;
        self.cached_sample_rate = rate;
        self.kind = FileKind::Drained;
    }

    /// The source after it was asked to start over: what was decoded as a whole is read from its
    /// beginning; of a file that is opened again the frame that was being read is dropped.
    pub open spec fn restarted(self) -> Self {
        if self.pcm_cache@.len() > 0 {
            FileAudioSource { eof_reached: false, pcm_cache_pos: 0, ..self }
        } else {
            FileAudioSource { eof_reached: false, ..self }
        }
    }

    /// Whether the file was decoded as a whole.
    pub open spec fn is_whole(&self) -> bool {
        self.pcm_cache@.len() > 0 || self.kind == FileKind::Drained
    }

    /// Whether starting over takes the file to be opened again.
    pub fn needs_rewind(&self) -> (r: bool)
        ensures
            r == !self.is_whole(),
    {
        self.pcm_cache.len() == 0 && self.kind != FileKind::Drained
    }

    /// Starts over. `reopened` says whether the file, where that was needed, was opened again.
    pub fn reset(&mut self, reopened: bool)
        requires
            old(self).wf(),
        ensures
            final(self).wf(),
            ({
                let clear = reopened && old(self).pcm_cache@.len() == 0 && old(self).kind is Mp3;
                &&& *final(self) == (FileAudioSource {
                    frame: final(self).frame,
                    frame_pos: final(self).frame_pos,
                    ..old(self).restarted()
                })
                &&& clear ==> final(self).frame@ == Seq::<i16>::empty() && final(self).frame_pos == 0
                &&& !clear ==> final(self).frame == old(self).frame && final(self).frame_pos == old(
                    self,
                ).frame_pos
            }),
    {
        self.eof_reached = false;
        if self.pcm_cache.len() > 0 {
            self.pcm_cache_pos = 0;
            return ;
        }
        if let FileKind::Mp3 { .. } = self.kind {
            if reopened {
                self.frame = Vec::new();
                self.frame_pos = 0;
            }
        }
    }

    /// What a read from the audio that was decoded as a whole gives.
    pub open spec fn cached_read(self, before: Seq<i16>) -> (Self, Seq<i16>, int) {
        let left = self.pcm_cache@.len() - self.pcm_cache_pos;
        let n = lesser(left, before.len() as int);
        if left == 0 {
            (FileAudioSource { eof_reached: true, ..self }, before, 0)
        } else {
            (
                FileAudioSource {
                    pcm_cache_pos: (self.pcm_cache_pos + n) as usize,
                    eof_reached: self.eof_reached || n == left,
                    ..self
                },
                filled(
                    before,
                    0,
                    self.pcm_cache@.subrange(
                        self.pcm_cache_pos as int,
                        self.pcm_cache_pos + n,
                    ),
                ),
                n,
            )
        }
    }

    /// What a read of a file that was decoded as a whole gives.
    pub open spec fn whole_read(self, before: Seq<i16>) -> (Self, Seq<i16>, int) {
        if !self.eof_reached {
            self.cached_read(before)
        } else if self.loop_playback {
            self.restarted().cached_read(before)
        } else {
            (self, before, 0)
        }
    }

    /// The source after one read to each of some buffers, and all that was read.
    pub open spec fn whole_reads(self, buffers: Seq<Seq<i16>>) -> (Self, Seq<i16>)
        decreases buffers.len(),
    {
        if buffers.len() == 0 {
            (self, Seq::empty())
        } else {
            let (s, got) = self.whole_reads(buffers.drop_last());
            let (next, buffer, n) = s.whole_read(buffers.last());
            (next, got + buffer.take(n))
        }
    }

    /// Whether the file was decoded as a whole, holds audio, and nothing of it is read.
    pub open spec fn unread(&self) -> bool {
        &&& self.wf()
        &&& self.pcm_cache@.len() > 0
        &&& self.pcm_cache_pos == 0
        &&& !self.eof_reached
    }

    fn read_cached(&mut self, buffer: &mut [i16]) -> (n: usize)
        requires
            old(self).wf(),
        ensures
            final(self).wf(),
            (*final(self), final(buffer)@, n as int) == old(self).cached_read(old(buffer)@),
    {
        let left: usize = self.pcm_cache.len() - self.pcm_cache_pos;
        if left == 0 {
            self.eof_reached = true;
            return 0;
        }
        let room: usize = buffer.len();
        let n: usize = if left < room {
            left
        } else {
            room
        };
        copy_samples(buffer, 0, self.pcm_cache.as_slice(), self.pcm_cache_pos, n);
        self.pcm_cache_pos = self.pcm_cache_pos + n;
        if self.pcm_cache_pos >= self.pcm_cache.len() {
            self.eof_reached = true;
        }
        n
    }

    /// What is copied of the MP3 frame that is being read to a buffer in which `at` samples stand.
    pub open spec fn frame_read(self, before: Seq<i16>, at: int) -> (Self, Seq<i16>, int) {
        let left = self.frame@.len() - self.frame_pos;
        let n = lesser(left, before.len() - at);
        (
            FileAudioSource { frame_pos: (self.frame_pos + n) as usize, ..self },
            filled(before, at, self.frame@.subrange(self.frame_pos as int, self.frame_pos + n)),
            at + n,
        )
    }

    fn copy_frame(&mut self, buffer: &mut [i16], at: usize) -> (r: usize)
        requires
            old(self).wf(),
            at <= old(buffer)@.len(),
        ensures
            final(self).wf(),
            (*final(self), final(buffer)@, r as int) == old(self).frame_read(
                old(buffer)@,
                at as int,
            ),
            final(buffer)@.len() == old(buffer)@.len(),
            at <= r <= old(buffer)@.len(),
    {
        let left: usize = self.frame.len() - self.frame_pos;
        let room: usize = buffer.len() - at;
        let n: usize = if left < room {
            left
        } else {
            room
        };
        copy_samples(buffer, at, self.frame.as_slice(), self.frame_pos, n);
        self.frame_pos = self.frame_pos + n;
        at + n
    }

    /// Begins a read. At the end nothing is read, unless the file is played over and over: then
    /// it starts over first.
    pub fn read_samples(&mut self, buffer: &mut [i16]) -> (r: ReadStep)
        requires
            old(self).wf(),
        ensures
            final(self).wf(),
            final(buffer)@.len() == old(buffer)@.len(),
            ({
                let s = *old(self);
                let cached = s.pcm_cache@.len() > 0;
                if s.eof_reached && !s.loop_playback {
                    r == ReadStep::Done(0) && *final(self) == s && final(buffer)@ == old(buffer)@
                } else if s.eof_reached && !cached && s.kind != FileKind::Drained {
                    r == ReadStep::Rewind && *final(self) == s && final(buffer)@ == old(buffer)@
                } else {
                    let s = if s.eof_reached {
                        s.restarted()
                    } else {
                        s
                    };
                    Self::begun(s, old(buffer)@, r, *final(self), final(buffer)@)
                }
            }),
            old(self).pcm_cache@.len() > 0 ==> (r matches ReadStep::Done(n) && (
                *final(self),
                final(buffer)@,
                n as int,
            ) == old(self).whole_read(old(buffer)@)),
    {
        if self.eof_reached && !self.loop_playback {
            return ReadStep::Done(0);
        }
        if self.eof_reached {
            if self.needs_rewind() {
                return ReadStep::Rewind;
            }
            self.reset(false);
        }
        assert(buffer@.len() == buffer.len());
        self.begin(buffer)
    }

    /// Whether `r` is the first step of a read from `s`, with the source and the buffer after it.
    pub open spec fn begun(
        s: Self,
        before: Seq<i16>,
        r: ReadStep,
        after: Self,
        buffer: Seq<i16>,
    ) -> bool {
        if s.pcm_cache@.len() > 0 {
            let (next, b, n) = s.cached_read(before);
            after == next && buffer == b && r == ReadStep::Done(n as usize)
        } else {
            match s.kind {
                FileKind::Wav { .. } => after == s && buffer == before && r == ReadStep::Wav,
                FileKind::Mp3 { .. } => {
                    let (next, b, n) = s.frame_read(before, 0);
                    &&& after == next
                    &&& buffer == b
                    &&& r == (if n == before.len() {
                        ReadStep::Done(n as usize)
                    } else {
                        ReadStep::Frame(n as usize)
                    })
                },
                FileKind::Raw => after == s && buffer == before && r == ReadStep::Bytes(
                    s.raw_frame_size,
                ),
                FileKind::Drained => after == s && buffer == Seq::new(before.len(), |i: int| 0i16)
                    && r == ReadStep::Done(before.len() as usize),
            }
        }
    }

    fn begin(&mut self, buffer: &mut [i16]) -> (r: ReadStep)
        requires
            old(self).wf(),
        ensures
            final(self).wf(),
            final(buffer)@.len() == old(buffer)@.len(),
            Self::begun(*old(self), old(buffer)@, r, *final(self), final(buffer)@),
    {
        if self.pcm_cache.len() > 0 {
            let n: usize = self.read_cached(buffer);
            return ReadStep::Done(n);
        }
        match self.kind {
            FileKind::Wav { .. } => ReadStep::Wav,
            FileKind::Mp3 { .. } => {
                let n: usize = self.copy_frame(buffer, 0);
                if n == buffer.len() {
                    ReadStep::Done(n)
                } else {
                    ReadStep::Frame(n)
                }
            },
            FileKind::Raw => ReadStep::Bytes(self.raw_frame_size),
            FileKind::Drained => {
                let n: usize = buffer.len();
                fill_silence(buffer);
                ReadStep::Done(n)
            },
        }
    }

    /// The file was opened again, or that failed, and nothing is read.
    pub fn rewound(&mut self, reopened: bool, buffer: &mut [i16]) -> (r: ReadStep)
        requires
            old(self).wf(),
        ensures
            final(self).wf(),
            final(buffer)@.len() == old(buffer)@.len(),
            !reopened ==> r == ReadStep::Done(0) && *final(self) == old(self).restarted()
                && final(buffer)@ == old(buffer)@,
            reopened ==> exists|s: Self|
                {
                    &&& s.wf()
                    &&& s == (FileAudioSource {
                        frame: s.frame,
                        frame_pos: s.frame_pos,
                        ..old(self).restarted()
                    })
                    &&& old(self).pcm_cache@.len() == 0 && old(self).kind is Mp3 ==> s.frame@
                        == Seq::<i16>::empty()
                    &&& #[trigger] Self::begun(s, old(buffer)@, r, *final(self), final(buffer)@)
                },
    {
        self.reset(reopened);
        if !reopened {
            return ReadStep::Done(0);
        }
        let ghost s = *self;
        let r = self.begin(buffer);
        assert(Self::begun(s, old(buffer)@, r, *self, buffer@));
        r
    }

    /// WAV samples came: as many as the buffer holds, or fewer at the end of the file.
    pub fn take_wav(&mut self, buffer: &mut [i16], samples: &[i16]) -> (n: usize)
        requires
            old(self).wf(),
        ensures
            final(self).wf(),
            n == lesser(samples@.len() as int, old(buffer)@.len() as int),
            final(buffer)@ == filled(old(buffer)@, 0, samples@.take(n as int)),
            *final(self) == (FileAudioSource {
                eof_reached: old(self).eof_reached || samples@.len() < old(buffer)@.len(),
                ..*old(self)
            }),
    {
        let given: usize = samples.len();
        let room: usize = buffer.len();
        let n: usize = if given < room {
            given
        } else {
            room
        };
        copy_samples(buffer, 0, samples, 0, n);
        assert(samples@.subrange(0, n as int) =~= samples@.take(n as int));
        if given < room {
            self.eof_reached = true;
        }
        n
    }

    /// An MP3 frame came behind `at` samples in the buffer, or the file has ended.
    pub fn take_frame(&mut self, buffer: &mut [i16], at: usize, frame: Option<Vec<i16>>) -> (r: ReadStep)
        requires
            old(self).wf(),
            at <= old(buffer)@.len(),
        ensures
            final(self).wf(),
            final(buffer)@.len() == old(buffer)@.len(),
            match frame {
                None => {
                    &&& r == ReadStep::Done(at)
                    &&& final(buffer)@ == old(buffer)@
                    &&& *final(self) == (FileAudioSource { eof_reached: true, ..*old(self) })
                },
                Some(data) => {
                    let s = FileAudioSource { frame: data, frame_pos: 0, ..*old(self) };
                    let (next, b, n) = s.frame_read(old(buffer)@, at as int);
                    &&& *final(self) == next
                    &&& final(buffer)@ == b
                    &&& r == (if n == old(buffer)@.len() {
                        ReadStep::Done(n as usize)
                    } else {
                        ReadStep::Frame(n as usize)
                    })
                },
            },
    {
        match frame {
            None => {
                self.eof_reached = true;
                ReadStep::Done(at)
            },
            Some(data) => {
                self.frame = data;
                self.frame_pos = 0;
                let n: usize = self.copy_frame(buffer, at);
                if n == buffer.len() {
                    ReadStep::Done(n)
                } else {
                    ReadStep::Frame(n)
                }
            },
        }
    }

    /// A packet of a raw file came, or the file has ended.
    pub fn take_packet(&mut self, buffer: &mut [i16], packet: Option<Vec<u8>>) -> (n: usize)
        requires
            old(self).wf(),
            packet matches Some(data) ==> decodable(old(self).decoder.codec(), data@.len()),
        ensures
            final(self).wf(),
            final(buffer)@.len() == old(buffer)@.len(),
            match packet {
                None => {
                    &&& n == 0
                    &&& final(buffer)@ == old(buffer)@
                    &&& *final(self) == (FileAudioSource { eof_reached: true, ..*old(self) })
                },
                Some(data) => {
                    &&& *final(self) == (FileAudioSource {
                        decoder: final(self).decoder,
                        ..*old(self)
                    })
                    &&& final(self).decoder.codec() == old(self).decoder.codec()
                    &&& exists|pcm: Seq<i16>|
                        {
                            &&& #[trigger] is_decoding(
                                old(self).decoder.codec(),
                                old(self).decoder.past(),
                                data@,
                                pcm,
                            )
                            &&& final(self).decoder.log() == old(self).decoder.log().push(
                                (data@, pcm),
                            )
                            &&& n == lesser(pcm.len() as int, old(buffer)@.len() as int)
                            &&& final(buffer)@ == filled(old(buffer)@, 0, pcm.take(n as int))
                        }
                },
            },
    {
        match packet {
            None => {
                self.eof_reached = true;
                0
            },
            Some(data) => {
                let pcm: Vec<i16> = self.decoder.decode(data.as_slice());
                let room: usize = buffer.len();
                let n: usize = if pcm.len() < room {
                    pcm.len()
                } else {
                    room
                };
                copy_samples(buffer, 0, pcm.as_slice(), 0, n);
                assert(pcm@.subrange(0, n as int) =~= pcm@.take(n as int));
                assert(is_decoding(
                    old(self).decoder.codec(),
                    old(self).decoder.past(),
                    data@,
                    pcm@,
                ));
                n
            },
        }
    }

    pub fn sample_rate(&self) -> (r: u32)
        ensures
            r == (if self.pcm_cache@.len() > 0 {
                self.cached_sample_rate
            } else {
                self.spec_meta().1
            }),
    {
        if self.pcm_cache.len() > 0 {
            self.cached_sample_rate
        } else {
            self.meta().1
        }
    }

    pub fn channels(&self) -> (r: u16)
        ensures
            r == (if self.pcm_cache@.len() > 0 {
                self.cached_channels
            } else {
                self.spec_meta().0
            }),
    {
        if self.pcm_cache.len() > 0 {
            self.cached_channels
        } else {
            self.meta().0
        }
    }

    pub fn has_data(&self) -> (r: bool)
        ensures
            r == (self.loop_playback || (if self.pcm_cache@.len() > 0 {
                self.pcm_cache_pos < self.pcm_cache@.len()
            } else {
                !self.eof_reached
            })),
    {
        if self.pcm_cache.len() > 0 {
            return self.pcm_cache_pos < self.pcm_cache.len() || self.loop_playback;
        }
        !self.eof_reached || self.loop_playback
    }
}

/// A file that was decoded as a whole is a source in itself. One that is read bit by bit needs the
/// reader of the file: without it no buffer can be read, nor can it start over.
impl AudioSource for FileAudioSource {
    open spec fn readable(&self, len: nat) -> bool {
        self.wf() && self.is_whole()
    }

    open spec fn reading(&self, before: Seq<i16>, after: Seq<i16>, n: usize, next: &Self) -> bool {
        if self.pcm_cache@.len() > 0 {
            (*next, after, n as int) == self.whole_read(before)
        } else if self.eof_reached && !self.loop_playback {
            n == 0 && after == before && *next == *self
        } else {
            &&& n == before.len()
            &&& after == Seq::new(before.len(), |i: int| 0i16)
            &&& *next == (FileAudioSource { eof_reached: false, ..*self })
        }
    }

    open spec fn rate(&self) -> u32 {
        if self.pcm_cache@.len() > 0 {
            self.cached_sample_rate
        } else {
            self.spec_meta().1
        }
    }

    open spec fn channel_count(&self) -> u16 {
        if self.pcm_cache@.len() > 0 {
            self.cached_channels
        } else {
            self.spec_meta().0
        }
    }

    open spec fn more(&self) -> bool {
        self.loop_playback || (if self.pcm_cache@.len() > 0 {
            self.pcm_cache_pos < self.pcm_cache@.len()
        } else {
            !self.eof_reached
        })
    }

    open spec fn resetting(&self, ok: bool, next: &Self) -> bool {
        &&& ok == self.is_whole()
        &&& *next == (if ok {
            self.restarted()
        } else {
            *self
        })
        &&& self.wf() ==> next.wf()
    }

    fn read_samples(&mut self, buffer: &mut [i16]) -> (n: usize) {
        assert(buffer@.len() == buffer.len());
        match FileAudioSource::read_samples(self, buffer) {
            ReadStep::Done(n) => n,
            _ => 0,
        }
    }

    fn sample_rate(&self) -> (r: u32) {
        FileAudioSource::sample_rate(self)
    }

    fn channels(&self) -> (r: u16) {
        FileAudioSource::channels(self)
    }

    fn has_data(&self) -> (r: bool) {
        FileAudioSource::has_data(self)
    }

    fn reset(&mut self) -> (r: Result<(), ResetError>) {
        if self.needs_rewind() {
            return Err(ResetError {  });
        }
        self.eof_reached = false;
        if self.pcm_cache.len() > 0 {
            self.pcm_cache_pos = 0;
        }
        Ok(())
    }
}

/// Packet `k` of a raw file.
pub open spec fn packet_of(data: Seq<u8>, size: int, k: int) -> Seq<u8> {
    data.subrange(k * size, k * size + size)
}

/// Whether `pcm` can be the audio of the first `n` packets of a file, and `after` the decoder then.
pub open spec fn decodes_packets(
    d: VoiceDecoder,
    data: Seq<u8>,
    size: int,
    n: int,
    pcm: Seq<i16>,
    after: VoiceDecoder,
) -> bool
    decreases n,
{
    if n <= 0 {
        pcm == Seq::<i16>::empty() && after == d
    } else {
        exists|before: Seq<i16>, part: Seq<i16>, middle: VoiceDecoder|
            {
                &&& #[trigger] decodes_packets_link(data, size, n, pcm, before, part, middle, after)
                &&& decodes_packets(d, data, size, n - 1, before, middle)
            }
    }
}

/// One packet of a file: `part` is its audio, behind `before`.
pub open spec fn decodes_packets_link(
    data: Seq<u8>,
    size: int,
    n: int,
    pcm: Seq<i16>,
    before: Seq<i16>,
    part: Seq<i16>,
    middle: VoiceDecoder,
    after: VoiceDecoder,
) -> bool {
    &&& pcm == before + part
    &&& is_decoding(middle.codec(), middle.past(), packet_of(data, size, n - 1), part)
    &&& after.codec() == middle.codec()
    &&& after.log() == middle.log().push((packet_of(data, size, n - 1), part))
}

/// Reads from audio that was decoded as a whole follow on from each other: together they give what
/// stands behind the place that was reached, as much as the buffers hold and is left.
pub proof fn law_reads_follow_on(s: FileAudioSource, first: Seq<i16>, second: Seq<i16>)
    requires
        s.wf(),
    ensures
        ({
            let (s1, b1, n1) = s.cached_read(first);
            let (s2, b2, n2) = s1.cached_read(second);
            let left = s.pcm_cache@.len() - s.pcm_cache_pos;
            &&& n1 + n2 == lesser(left, (first.len() + second.len()) as int)
            &&& b1.take(n1) + b2.take(n2) == s.pcm_cache@.subrange(
                s.pcm_cache_pos as int,
                s.pcm_cache_pos + n1 + n2,
            )
            &&& b1.skip(n1) == first.skip(n1)
            &&& b2.skip(n2) == second.skip(n2)
        }),
{
    assert(s.pcm_cache@.len() == s.pcm_cache.len());
    let (s1, b1, n1) = s.cached_read(first);
    let (s2, b2, n2) = s1.cached_read(second);
    assert(b1.take(n1) + b2.take(n2) =~= s.pcm_cache@.subrange(
        s.pcm_cache_pos as int,
        s.pcm_cache_pos + n1 + n2,
    ));
    assert(b1.skip(n1) =~= first.skip(n1));
    assert(b2.skip(n2) =~= second.skip(n2));
}

/// A read from audio that was decoded as a whole gives nothing exactly at the end of it, or for a
/// buffer that holds nothing; the read that reaches the end says so.
pub proof fn law_end_is_reached_once_all_is_read(s: FileAudioSource, buffer: Seq<i16>)
    requires
        s.wf(),
        !s.eof_reached,
    ensures
        ({
            let (next, _, n) = s.cached_read(buffer);
            &&& n == 0 <==> s.pcm_cache_pos == s.pcm_cache@.len() || buffer.len() == 0
            &&& next.eof_reached <==> next.pcm_cache_pos == next.pcm_cache@.len()
        }),
{
    assert(s.pcm_cache@.len() == s.pcm_cache.len());
}

/// Reads of a file that is played once give it from its beginning, nothing left out and nothing
/// twice. A read gives nothing exactly when all has been given, unless its buffer is empty. What
/// a read does not fill of its buffer stays as it was.
pub proof fn law_a_file_is_read_once(s: FileAudioSource, buffers: Seq<Seq<i16>>, next: Seq<i16>)
    requires
        s.unread(),
        !s.loop_playback,
    ensures
        ({
            let file = s.pcm_cache@;
            let (t, got) = s.whole_reads(buffers);
            let (_, buffer, n) = t.whole_read(next);
            &&& got.len() <= file.len() && got == file.take(got.len() as int)
            &&& t.wf() && t.pcm_cache == s.pcm_cache && t.pcm_cache_pos == got.len()
            &&& !t.loop_playback && (t.eof_reached <==> got.len() == file.len())
            &&& n == lesser(file.len() - got.len(), next.len() as int)
            &&& next.len() > 0 ==> (n == 0 <==> got.len() == file.len())
            &&& buffer.len() == next.len() && buffer.skip(n) == next.skip(n)
        }),
    decreases buffers.len(),
{
    let file = s.pcm_cache@;
    assert(file.len() == s.pcm_cache.len());
    if buffers.len() > 0 {
        let last = buffers.last();
        law_a_file_is_read_once(s, buffers.drop_last(), last);
        let (t, got) = s.whole_reads(buffers.drop_last());
        let (u, buffer, n) = t.whole_read(last);
        assert(got + buffer.take(n) =~= file.take(got.len() + n));
    } else {
        assert(file.take(0) =~= Seq::<i16>::empty());
    }
    let (t, got) = s.whole_reads(buffers);
    let (u, buffer, n) = t.whole_read(next);
    assert(buffer.skip(n) =~= next.skip(n));
}

/// Adding to a remainder, up to the divisor.
proof fn lemma_remainder_grows(g: int, n: int, p: int)
    requires
        p > 0,
        n >= 0,
        g % p + n <= p,
    ensures
        (g + n) % p == (if g % p + n == p {
            0
        } else {
            g % p + n
        }),
{
    vstd::arithmetic::div_mod::lemma_fundamental_div_mod(g, p);
    let q = g / p;
    assert(p * q == q * p && (q + 1) * p == q * p + p) by (nonlinear_arith);
    if g % p + n == p {
        vstd::arithmetic::div_mod::lemma_fundamental_div_mod_converse(g + n, p, q + 1, 0);
    } else {
        vstd::arithmetic::div_mod::lemma_fundamental_div_mod_converse(g + n, p, q, g % p + n);
    }
}

/// One read of a file that is played over and over, at a place in it.
proof fn lemma_looped_read(t: FileAudioSource, at: int, before: Seq<i16>)
    requires
        t.wf(),
        t.loop_playback,
        0 <= at < t.pcm_cache@.len(),
        t.pcm_cache_pos == (if t.eof_reached {
            t.pcm_cache@.len() as int
        } else {
            at
        }),
        t.eof_reached ==> at == 0,
    ensures
        ({
            let file = t.pcm_cache@;
            let (u, buffer, n) = t.whole_read(before);
            &&& u.wf() && u.pcm_cache == t.pcm_cache && u.loop_playback
            &&& n == lesser(file.len() - at, before.len() as int)
            &&& u.pcm_cache_pos == at + n
            &&& u.eof_reached <==> at + n == file.len()
            &&& buffer.len() == before.len() && buffer.skip(n) == before.skip(n)
            &&& buffer.take(n) == file.subrange(at, at + n)
        }),
{
    let file = t.pcm_cache@;
    assert(file.len() == t.pcm_cache.len());
    let (u, buffer, n) = t.whole_read(before);
    let part = file.subrange(at, at + n);
    assert(buffer == filled(before, 0, part));
    assert(buffer.skip(n) =~= before.skip(n));
    assert(buffer.take(n) =~= part);
}

/// Reads of a file that is played over and over give it again and again. A read gives something
/// unless its buffer is empty, and stops at the end of the file. What a read does not fill of its
/// buffer stays as it was.
pub proof fn law_a_file_is_read_over_and_over(
    s: FileAudioSource,
    buffers: Seq<Seq<i16>>,
    next: Seq<i16>,
)
    requires
        s.unread(),
        s.loop_playback,
    ensures
        ({
            let file = s.pcm_cache@;
            let (t, got) = s.whole_reads(buffers);
            let (_, buffer, n) = t.whole_read(next);
            let at = got.len() % file.len();
            &&& forall|i: int|
                0 <= i < got.len() ==> #[trigger] got[i] == file[i % (file.len() as int)]
            &&& t.wf() && t.pcm_cache == s.pcm_cache && t.loop_playback
            &&& t.pcm_cache_pos == (if t.eof_reached {
                file.len()
            } else {
                at
            })
            &&& t.eof_reached ==> at == 0
            &&& n == lesser(file.len() - at, next.len() as int)
            &&& next.len() > 0 ==> n > 0
            &&& buffer.len() == next.len() && buffer.skip(n) == next.skip(n)
            &&& buffer.take(n) == file.subrange(at as int, at + n)
        }),
    decreases buffers.len(),
{
    let file = s.pcm_cache@;
    let p = file.len() as int;
    if buffers.len() > 0 {
        let last = buffers.last();
        law_a_file_is_read_over_and_over(s, buffers.drop_last(), last);
        let (t, before) = s.whole_reads(buffers.drop_last());
        let at = before.len() as int % p;
        lemma_looped_read(t, at, last);
        let (u, buffer, n) = t.whole_read(last);
        let got = before + buffer.take(n);
        assert(s.whole_reads(buffers) == (u, got));
        lemma_remainder_grows(before.len() as int, n, p);
        assert forall|i: int| 0 <= i < got.len() implies #[trigger] got[i] == file[i % p] by {
            if i < before.len() {
                assert(got[i] == before[i]);
            } else {
                let k = i - before.len();
                lemma_remainder_grows(before.len() as int, k, p);
                assert(got[i] == buffer.take(n)[k]);
            }
        }
    } else {
        vstd::arithmetic::div_mod::lemma_small_mod(0, file.len());
    }
    let (t, got) = s.whole_reads(buffers);
    lemma_looped_read(t, got.len() as int % p, next);
}

// What is played now.

/// The source that a manager plays.
pub enum ManagedSource<S: AudioSource> {
    File(ResamplingAudioSource<S>),
    Silence(SilenceSource),
}

/// Plays one source after another at a fixed rate, silence for want of one.
pub struct AudioSourceManager<S: AudioSource> {
    pub current: Option<ManagedSource<S>>,
    pub target_sample_rate: u32,
}

impl<S: AudioSource> AudioSourceManager<S> {
    pub fn new(target_sample_rate: u32) -> (r: Self)
        ensures
            r.current is None,
            r.target_sample_rate == target_sample_rate,
    {
        AudioSourceManager { current: None, target_sample_rate }
    }

    /// Plays a file, resampled.
    pub fn switch_to_file(&mut self, source: S)
        requires
            source.rate() == old(self).target_sample_rate || resamplable(
                source.rate() as int,
                old(self).target_sample_rate as int,
            ),
        ensures
            final(self).target_sample_rate == old(self).target_sample_rate,
            final(self).current matches Some(ManagedSource::File(r)) && r.wf() && r.inner() == source
                && r.source_rate() == source.rate() && r.rate() == old(self).target_sample_rate
                && r.intermediate() == Seq::<i16>::empty() && (r.resampler() matches Some(s) ==> s.lead()
                == 0 && s.log() == Seq::<(Seq<i16>, Seq<i16>)>::empty()),
    {
        let resampled = ResamplingAudioSource::new(source, self.target_sample_rate);
        self.current = Some(ManagedSource::File(resampled));
    }

    /// Plays silence.
    pub fn switch_to_silence(&mut self)
        ensures
            final(self).target_sample_rate == old(self).target_sample_rate,
            final(self).current matches Some(ManagedSource::Silence(q)) && q.rate() == old(
                self,
            ).target_sample_rate,
    {
        self.current = Some(ManagedSource::Silence(SilenceSource::new(self.target_sample_rate)));
    }

    /// Whether a buffer of `len` samples can be read.
    pub open spec fn readable(&self, len: nat) -> bool {
        self.current matches Some(ManagedSource::File(r)) ==> r.readable(len)
    }

    /// What reading gives: the buffer after it, the samples read, and the manager after it.
    pub open spec fn reading(&self, before: Seq<i16>, after: Seq<i16>, n: usize, next: &Self) -> bool {
        &&& next.target_sample_rate == self.target_sample_rate
        &&& match self.current {
            Some(ManagedSource::File(r)) => {
                &&& next.current matches Some(ManagedSource::File(next))
                &&& r.reading(before, after, n, &next)
            },
            _ => {
                &&& next.current is Some == self.current is Some
                &&& !(next.current matches Some(ManagedSource::File(_)))
                &&& n == before.len()
                &&& after == Seq::new(before.len(), |i: int| 0i16)
            },
        }
    }

    /// Reads from the source that is played. A source that gives nothing has ended.
    pub fn read_samples(&mut self, buffer: &mut [i16]) -> (n: usize)
        requires
            old(self).readable(old(buffer)@.len()),
        ensures
            n <= old(buffer)@.len(),
            final(buffer)@.len() == old(buffer)@.len(),
            old(self).reading(old(buffer)@, final(buffer)@, n, final(self)),
    {
        match &mut self.current {
            Some(ManagedSource::File(source)) => source.read_samples(buffer),
            Some(ManagedSource::Silence(source)) => source.read_samples(buffer),
            None => {
                let n: usize = buffer.len();
                fill_silence(buffer);
                n
            },
        }
    }

    pub fn has_active_source(&self) -> (r: bool)
        ensures
            r == self.current is Some,
    {
        self.current.is_some()
    }
}

// How long a file plays.

/// What is known of a file before it is opened.
#[derive(Debug, Clone, Copy, PartialEq, Eq, Structural)]
pub enum FileFacts {
    /// It is not there, or cannot be read.
    Missing,
    /// Its size in bytes.
    Bytes(u64),
    /// The number of frames of a WAV file, and their rate.
    Frames { frames: u32, sample_rate: u32 },
}

/// Five seconds, in nanoseconds: the guess for a file of which nothing is known.
pub const UNKNOWN_DURATION: u128 = 5_000_000_000;

pub open spec fn greater(a: int, b: int) -> int {
    if a > b {
        a
    } else {
        b
    }
}

/// `a / b` rounded to the nearest integer, halves up.
pub open spec fn rounded_div(a: int, b: int) -> int {
    (2 * a + b) / (2 * b)
}

pub open spec fn is_law_coded(ext: Seq<char>) -> bool {
    ext == "pcmu"@ || ext == "ulaw"@ || ext == "u"@ || ext == "pcma"@ || ext == "alaw"@ || ext == "a"@
}

/// The duration of a file in nanoseconds, by its extension in small letters: a WAV file by its
/// frames and at least 5 ms; MP3 as 128 kbit/s and at least 100 ms; a byte to a millisecond for
/// G.711, at least 100; whole packets of 160 bytes and 20 ms for G.722, of 10 bytes and 10 ms for
/// G.729, at least one; anything else as 16000 bytes a second and at least 100 ms.
pub open spec fn file_duration(ext: Seq<char>, facts: FileFacts) -> int {
    if ext == "wav"@ {
        match facts {
            FileFacts::Frames { frames, sample_rate } => if sample_rate > 0 {
                greater(rounded_div(frames * 1_000_000_000, sample_rate as int), 5_000_000)
            } else {
                UNKNOWN_DURATION as int
            },
            _ => UNKNOWN_DURATION as int,
        }
    } else {
        match facts {
            FileFacts::Bytes(n) => if ext == "mp3"@ {
                greater(n * 62_500, 100_000_000)
            } else if is_law_coded(ext) {
                greater(n as int, 100) * 1_000_000
            } else if ext == "g722"@ {
                greater((n / 160) as int, 1) * 20_000_000
            } else if ext == "g729"@ {
                greater((n / 10) as int, 1) * 10_000_000
            } else {
                greater(n * 62_500, 100_000_000)
            },
            _ => UNKNOWN_DURATION as int,
        }
    }
}

fn at_least(a: u128, b: u128) -> (r: u128)
    ensures
        r == greater(a as int, b as int),
{
    if a > b {
        a
    } else {
        b
    }
}

/// The duration of a file in nanoseconds, by its extension in small letters.
pub fn estimate_audio_duration(ext: &str, facts: FileFacts) -> (r: u128)
    ensures
        r == file_duration(ext@, facts),
{
    if same_text(ext, "wav") {
        return match facts {
            FileFacts::Frames { frames, sample_rate } => if sample_rate > 0 {
                let nanos: u128 = frames as u128 * 1_000_000_000;
                let rate: u128 = sample_rate as u128;
                at_least((2 * nanos + rate) / (2 * rate), 5_000_000)
            } else {
                UNKNOWN_DURATION
            },
            _ => UNKNOWN_DURATION,
        };
    }
    let n: u64 = match facts {
        FileFacts::Bytes(n) => n,
        _ => return UNKNOWN_DURATION,
    };
    if same_text(ext, "mp3") {
        at_least(n as u128 * 62_500, 100_000_000)
    } else if same_text(ext, "pcmu") || same_text(ext, "ulaw") || same_text(ext, "u") || same_text(
        ext,
        "pcma",
    ) || same_text(ext, "alaw") || same_text(ext, "a") {
        at_least(n as u128, 100) * 1_000_000
    } else if same_text(ext, "g722") {
        at_least((n / 160) as u128, 1) * 20_000_000
    } else if same_text(ext, "g729") {
        at_least((n / 10) as u128, 1) * 10_000_000
    } else {
        at_least(n as u128 * 62_500, 100_000_000)
    }
}

/// A copy to a buffer lands where it should, as it was, and leaves the rest of the buffer alone.
pub proof fn law_copies_land_in_place(before: Seq<i16>, at: int, data: Seq<i16>)
    requires
        0 <= at,
        at + data.len() <= before.len(),
    ensures
        filled(before, at, data).len() == before.len(),
        forall|i: int|
            0 <= i < data.len() ==> #[trigger] filled(before, at, data)[at + i] == data[i],
        forall|i: int|
            0 <= i < before.len() && !(at <= i < at + data.len()) ==> #[trigger] filled(
                before,
                at,
                data,
            )[i] == before[i],
{
}

/// What is read of an MP3 frame is what stands behind the place that was reached, as much as the
/// buffer holds and is left, behind what the buffer holds already.
pub proof fn law_frames_are_read_in_order(s: FileAudioSource, before: Seq<i16>, at: int)
    requires
        s.wf(),
        0 <= at <= before.len(),
    ensures
        ({
            let (next, buffer, end) = s.frame_read(before, at);
            &&& buffer.len() == before.len()
            &&& at <= end <= before.len()
            &&& next.frame_pos == s.frame_pos + (end - at)
            &&& next.frame == s.frame
            &&& end == before.len() || next.frame_pos == s.frame@.len()
            &&& forall|i: int|
                at <= i < end ==> #[trigger] buffer[i] == s.frame@[s.frame_pos + i - at]
            &&& forall|i: int|
                0 <= i < before.len() && !(at <= i < end) ==> #[trigger] buffer[i] == before[i]
        }),
{
    assert(s.frame@.len() == s.frame.len());
}

/// Starting over plays what was decoded as a whole from its beginning; all else stays.
pub proof fn law_starting_over_rewinds(s: FileAudioSource)
    ensures
        ({
            let t = s.restarted();
            &&& !t.eof_reached
            &&& s.pcm_cache@.len() > 0 ==> t.pcm_cache_pos == 0
            &&& t.pcm_cache == s.pcm_cache
            &&& t.kind == s.kind
            &&& t.loop_playback == s.loop_playback
            &&& t.cached_sample_rate == s.cached_sample_rate
        }),
{
}

/// As much is read of a source as a buffer at the other rate takes, to the sample.
pub proof fn law_buffers_are_filled(len: nat, source_rate: nat, target_rate: nat)
    requires
        source_rate > 0,
        target_rate > 0,
    ensures
        needed_source(len, source_rate, target_rate) * target_rate >= len * source_rate,
        len > 0 ==> (needed_source(len, source_rate, target_rate) - 1) * target_rate < len
            * source_rate,
{
    let a = len * source_rate;
    let n = needed_source(len, source_rate, target_rate);
    assert(a >= 0 && (len > 0 ==> a > 0)) by (nonlinear_arith)
        requires
            a == len * source_rate,
            len >= 0,
            source_rate > 0,
    ;
    assert(n * target_rate >= a && (n - 1) * target_rate < a + 0 || a == 0) by (nonlinear_arith)
        requires
            n == (a + target_rate - 1) / (target_rate as int),
            target_rate > 0,
            a >= 0,
    ;
    assert(n * target_rate >= a) by (nonlinear_arith)
        requires
            n == (a + target_rate - 1) / (target_rate as int),
            target_rate > 0,
            a >= 0,
    ;
}

/// Resampled audio is what the resampler made of just what the source gave; what a read does not
/// fill of its buffer stays as it was. A source that gives nothing has ended.
pub proof fn law_resampled_audio_comes_from_the_source<S: AudioSource>(
    s: &ResamplingAudioSource<S>,
    before: Seq<i16>,
    after: Seq<i16>,
    n: usize,
    next: &ResamplingAudioSource<S>,
)
    requires
        s.reading(before, after, n, next),
        s.source_rate() != s.rate(),
        n > 0,
    ensures
        after.len() == before.len(),
        n <= before.len(),
        ({
            let (given, out) = next.resampler()->0.log().last();
            &&& next.resampler()->0.log() == s.resampler()->0.log().push((given, out))
            &&& n <= out.len()
            &&& forall|i: int| 0 <= i < n ==> #[trigger] after[i] == out[i]
            &&& forall|i: int| n <= i < before.len() ==> #[trigger] after[i] == before[i]
            &&& given.len() <= next.intermediate().len()
            &&& forall|i: int|
                0 <= i < given.len() ==> #[trigger] given[i] == next.intermediate()[i]
        }),
{
    let r = s.resampler()->0;
    let asked = resized(
        s.intermediate(),
        needed_source(before.len(), s.source_rate() as nat, s.rate() as nat),
    );
    let read = choose|read: usize|
        {
            let count = resampled_count(read as int, r.lead(), r.input_rate(), r.output_rate());
            &&& read <= asked.len()
            &&& #[trigger] s.inner().reading(asked, next.intermediate(), read, &next.inner())
            &&& if read == 0 {
                n == 0 && after == before && next.resampler() == s.resampler()
            } else {
                let given = next.intermediate().take(read as int);
                let out = next.resampler()->0.log().last().1;
                &&& next.resampler()->0.log() == r.log().push((given, out))
                &&& out.len() == count
                &&& after.take(n as int) == out.take(n as int)
                &&& n == (if count < before.len() {
                    count
                } else {
                    before.len() as int
                })
                &&& after.len() == before.len()
                &&& after.skip(n as int) == before.skip(n as int)
                &&& next.resampler()->0.lead() == r.lead() + count * r.input_rate() - read
                    * r.output_rate()
            }
        };
    let out = next.resampler()->0.log().last().1;
    assert forall|i: int| 0 <= i < n implies #[trigger] after[i] == out[i] by {
        assert(after.take(n as int)[i] == out.take(n as int)[i]);
    }
    assert forall|i: int| n <= i < before.len() implies #[trigger] after[i] == before[i] by {
        assert(after.skip(n as int)[i - n] == before.skip(n as int)[i - n]);
    }
}

proof fn lemma_behind_last(s: Seq<char>, c: char, n: int)
    requires
        0 <= n <= s.len(),
    ensures
        0 <= behind_last(s, c, n) <= n,
        behind_last(s, c, n) > 0 ==> s[behind_last(s, c, n) - 1] == c,
        forall|i: int| behind_last(s, c, n) <= i < n ==> s[i] != c,
    decreases n,
{
    if n > 0 && s[n - 1] != c {
        lemma_behind_last(s, c, n - 1);
    }
}

proof fn lemma_first_place(s: Seq<char>, c: char, i: int)
    requires
        0 <= i <= s.len(),
    ensures
        i <= first_place(s, c, i) <= s.len(),
        first_place(s, c, i) < s.len() ==> s[first_place(s, c, i)] == c,
        forall|k: int| i <= k < first_place(s, c, i) ==> s[k] != c,
    decreases s.len() - i,
{
    if i < s.len() && s[i] != c {
        lemma_first_place(s, c, i + 1);
    }
}

/// The name of a file at a URL is what stands behind the last slash and before the first question
/// mark: it holds neither, and it stands just there.
pub proof fn law_url_file_name_stands_behind_the_last_slash(url: Seq<char>)
    ensures
        ({
            let name = url_file_name(url);
            let start = behind_last(url, '/', url.len() as int);
            &&& 0 <= start
            &&& start + name.len() <= url.len()
            &&& name == url.subrange(start, start + name.len())
            &&& start > 0 ==> url[start - 1] == '/'
            &&& start + name.len() < url.len() ==> url[start + name.len()] == '?'
            &&& forall|i: int| start <= i < url.len() ==> url[i] != '/'
            &&& forall|i: int| 0 <= i < name.len() ==> name[i] != '/' && name[i] != '?'
        }),
{
    let n = url.len() as int;
    lemma_behind_last(url, '/', n);
    let start = behind_last(url, '/', n);
    let tail = url.skip(start);
    lemma_first_place(tail, '?', 0);
    let name = url_file_name(url);
    assert(name =~= url.subrange(start, start + name.len()));
    if start + name.len() < n {
        assert(tail[name.len() as int] == url[start + name.len()]);
    }
    assert forall|i: int| 0 <= i < name.len() implies name[i] != '/' && name[i] != '?' by {
        assert(name[i] == tail[i] && tail[i] == url[start + i]);
    }
}

/// A raw file is decoded packet by packet, none left out and none twice: packet `k` is the bytes
/// from `k` times its size, and its audio stands behind that of the packets before it, where
/// `offsets` counts up how long they are.
pub proof fn law_raw_packets_are_decoded_in_order(
    d: VoiceDecoder,
    data: Seq<u8>,
    size: int,
    n: int,
    pcm: Seq<i16>,
    after: VoiceDecoder,
    offsets: Seq<int>,
    k: int,
)
    requires
        decodes_packets(d, data, size, n, pcm, after),
        0 <= k < n,
        offsets.len() == n + 1,
        offsets[0] == 0,
        forall|i: int|
            0 <= i < n ==> #[trigger] offsets[i + 1] == offsets[i] + after.log()[d.log().len()
                + i].1.len(),
    ensures
        after.log().len() == d.log().len() + n,
        after.log().take(d.log().len() as int) == d.log(),
        after.log()[d.log().len() + k].0 == data.subrange(k * size, k * size + size),
        pcm.len() == offsets[n],
        0 <= offsets[k] <= offsets[k + 1] <= offsets[n],
        pcm.subrange(offsets[k], offsets[k + 1]) == after.log()[d.log().len() + k].1,
    decreases n,
{
    let m = d.log().len() as int;
    lemma_decoded(d, data, size, n, pcm, after, offsets);
    let (before, part, middle) = choose|
        before: Seq<i16>,
        part: Seq<i16>,
        middle: VoiceDecoder,
    |
        {
            &&& #[trigger] decodes_packets_link(data, size, n, pcm, before, part, middle, after)
            &&& decodes_packets(d, data, size, n - 1, before, middle)
        };
    let fewer = lemma_fewer_offsets(d, data, size, n, pcm, after, offsets, before, part, middle);
    lemma_decoded(d, data, size, n - 1, before, middle, fewer);
    assert(after.log()[m + n - 1] == (packet_of(data, size, n - 1), part));
    assert(offsets[(n - 1) + 1] == offsets[n - 1] + part.len());
    if k < n - 1 {
        law_raw_packets_are_decoded_in_order(d, data, size, n - 1, before, middle, fewer, k);
        assert(middle.log()[m + k] == after.log()[m + k]);
        assert(pcm.subrange(offsets[k], offsets[k + 1]) =~= before.subrange(
            offsets[k],
            offsets[k + 1],
        ));
    } else {
        assert(pcm.subrange(offsets[k], offsets[k + 1]) =~= part);
    }
}

proof fn lemma_fewer_offsets(
    d: VoiceDecoder,
    data: Seq<u8>,
    size: int,
    n: int,
    pcm: Seq<i16>,
    after: VoiceDecoder,
    offsets: Seq<int>,
    before: Seq<i16>,
    part: Seq<i16>,
    middle: VoiceDecoder,
) -> (fewer: Seq<int>)
    requires
        n > 0,
        decodes_packets_link(data, size, n, pcm, before, part, middle, after),
        middle.log().len() == d.log().len() + n - 1,
        offsets.len() == n + 1,
        forall|i: int|
            0 <= i < n ==> #[trigger] offsets[i + 1] == offsets[i] + after.log()[d.log().len()
                + i].1.len(),
    ensures
        fewer == offsets.take(n),
        forall|i: int|
            0 <= i < n - 1 ==> #[trigger] fewer[i + 1] == fewer[i] + middle.log()[d.log().len()
                + i].1.len(),
{
    let m = d.log().len() as int;
    let fewer = offsets.take(n);
    assert forall|i: int| 0 <= i < n - 1 implies #[trigger] fewer[i + 1] == fewer[i]
        + middle.log()[d.log().len() + i].1.len() by {
        assert(offsets[i + 1] == offsets[i] + after.log()[m + i].1.len());
        assert(after.log()[m + i] == middle.log()[m + i]);
    }
    fewer
}

proof fn lemma_decoded_count(
    d: VoiceDecoder,
    data: Seq<u8>,
    size: int,
    n: int,
    pcm: Seq<i16>,
    after: VoiceDecoder,
)
    requires
        decodes_packets(d, data, size, n, pcm, after),
        n >= 0,
    ensures
        after.log().len() == d.log().len() + n,
        after.log().take(d.log().len() as int) == d.log(),
    decreases n,
{
    let m = d.log().len() as int;
    if n > 0 {
        let (before, part, middle) = choose|
            before: Seq<i16>,
            part: Seq<i16>,
            middle: VoiceDecoder,
        |
            {
                &&& #[trigger] decodes_packets_link(data, size, n, pcm, before, part, middle, after)
                &&& decodes_packets(d, data, size, n - 1, before, middle)
            };
        lemma_decoded_count(d, data, size, n - 1, before, middle);
        assert(after.log().take(m) =~= middle.log().take(m));
    } else {
        assert(after.log().take(m) =~= d.log());
    }
}

proof fn lemma_decoded(
    d: VoiceDecoder,
    data: Seq<u8>,
    size: int,
    n: int,
    pcm: Seq<i16>,
    after: VoiceDecoder,
    offsets: Seq<int>,
)
    requires
        decodes_packets(d, data, size, n, pcm, after),
        n >= 0,
        offsets.len() == n + 1,
        offsets[0] == 0,
        forall|i: int|
            0 <= i < n ==> #[trigger] offsets[i + 1] == offsets[i] + after.log()[d.log().len()
                + i].1.len(),
    ensures
        after.log().len() == d.log().len() + n,
        after.log().take(d.log().len() as int) == d.log(),
        pcm.len() == offsets[n],
    decreases n,
{
    lemma_decoded_count(d, data, size, n, pcm, after);
    if n > 0 {
        let (before, part, middle) = choose|
            before: Seq<i16>,
            part: Seq<i16>,
            middle: VoiceDecoder,
        |
            {
                &&& #[trigger] decodes_packets_link(data, size, n, pcm, before, part, middle, after)
                &&& decodes_packets(d, data, size, n - 1, before, middle)
            };
        lemma_decoded_count(d, data, size, n - 1, before, middle);
        let fewer = lemma_fewer_offsets(d, data, size, n, pcm, after, offsets, before, part, middle);
        lemma_decoded(d, data, size, n - 1, before, middle, fewer);
        assert(offsets[(n - 1) + 1] == offsets[n - 1] + part.len());
    }
}

/// A WAV file lasts as long as its frames at their rate, to the nearest nanosecond, though never
/// less than 5 ms.
pub proof fn law_wav_files_last_as_long_as_their_frames(frames: u32, sample_rate: u32)
    requires
        sample_rate > 0,
    ensures
        ({
            let nanos = file_duration("wav"@, FileFacts::Frames { frames, sample_rate });
            &&& nanos >= 5_000_000
            &&& nanos > 5_000_000 ==> 2 * nanos * sample_rate <= 2 * frames * 1_000_000_000
                + sample_rate && 2 * frames * 1_000_000_000 < 2 * nanos * sample_rate + sample_rate
            &&& frames * 1_000_000_000 >= 5_000_001 * sample_rate ==> nanos > 5_000_000
        }),
{
    let a = frames * 1_000_000_000;
    let b = sample_rate as int;
    let q = rounded_div(a, b);
    assert(2 * q * b <= 2 * a + b && 2 * a < 2 * q * b + b) by (nonlinear_arith)
        requires
            b > 0,
            q == (2 * a + b) / (2 * b),
            a >= 0,
    ;
    if a >= 5_000_001 * b {
        assert(q > 5_000_000) by (nonlinear_arith)
            requires
                b > 0,
                a >= 5_000_001 * b,
                2 * a < 2 * q * b + b,
        ;
    }
}

/// The guess for other files grows with their size: a longer file never seems shorter, and none
/// seems to last less than 10 ms. Of a file of which nothing is known five seconds are taken.
pub proof fn law_larger_files_last_longer(ext: Seq<char>, bytes: u64, more: u64)
    requires
        ext != "wav"@,
        bytes <= more,
    ensures
        file_duration(ext, FileFacts::Bytes(bytes)) <= file_duration(ext, FileFacts::Bytes(more)),
        file_duration(ext, FileFacts::Bytes(bytes)) >= 10_000_000,
        file_duration(ext, FileFacts::Missing) == 5_000_000_000,
        file_duration("wav"@, FileFacts::Missing) == 5_000_000_000,
        file_duration("wav"@, FileFacts::Bytes(bytes)) == 5_000_000_000,
{
}

/// Whole seconds are told exactly: of MP3 with 16000 bytes to the second, of G.722 with fifty
/// packets, and of G.729 with a hundred. G.711 is given a millisecond for each byte.
pub proof fn law_whole_seconds_are_told(seconds: u16)
    requires
        seconds > 0,
    ensures
        file_duration("mp3"@, FileFacts::Bytes((seconds * 16000) as u64)) == seconds
            * 1_000_000_000,
        file_duration("g722"@, FileFacts::Bytes((seconds * 8000) as u64)) == seconds
            * 1_000_000_000,
        file_duration("g729"@, FileFacts::Bytes((seconds * 1000) as u64)) == seconds
            * 1_000_000_000,
        file_duration("pcmu"@, FileFacts::Bytes((seconds * 1000) as u64)) == seconds
            * 1_000_000_000,
        file_duration("pcma"@, FileFacts::Bytes((seconds * 1000) as u64)) == seconds
            * 1_000_000_000,
{
    reveal_strlit("wav");
    reveal_strlit("mp3");
    reveal_strlit("g722");
    reveal_strlit("g729");
    reveal_strlit("pcmu");
    reveal_strlit("pcma");
    reveal_strlit("ulaw");
    reveal_strlit("alaw");
    reveal_strlit("u");
    reveal_strlit("a");
    assert("mp3"@[0] != "wav"@[0]);
    assert("g722"@.len() == 4 && "g729"@.len() == 4 && "pcmu"@.len() == 4 && "pcma"@.len() == 4);
    assert("wav"@.len() == 3 && "mp3"@.len() == 3);
    assert("g722"@[0] != "pcmu"@[0] && "g722"@[0] != "ulaw"@[0] && "g722"@[0] != "pcma"@[0]
        && "g722"@[0] != "alaw"@[0]);
    assert("g729"@[0] != "pcmu"@[0] && "g729"@[0] != "ulaw"@[0] && "g729"@[0] != "pcma"@[0]
        && "g729"@[0] != "alaw"@[0]);
    assert("g729"@[3] != "g722"@[3]);
}

/// The name of a codec, in any case, is the extension of its files; of the short forms a single a
/// stands for A-law, and anything else for mu-law.
pub proof fn law_extensions_name_their_codecs(ext: Seq<char>)
    ensures
        same_folded(ext, "pcma"@) || same_folded(ext, "alaw"@) || ext == "a"@ ==> codec_of_extension(
            ext,
        ) == VoiceCodec::Pcma,
        same_folded(ext, "g722"@) ==> codec_of_extension(ext) == VoiceCodec::G722,
        same_folded(ext, "g729"@) ==> codec_of_extension(ext) == VoiceCodec::G729,
        same_folded(ext, "opus"@) ==> codec_of_extension(ext) == VoiceCodec::Opus,
        same_folded(ext, "pcmu"@) || same_folded(ext, "ulaw"@) ==> codec_of_extension(ext)
            == VoiceCodec::Pcmu,
        ext.len() != 4 && ext.len() != 15 && ext != "a"@ ==> codec_of_extension(ext)
            == VoiceCodec::Pcmu,
{
    reveal_strlit("pcmu");
    reveal_strlit("ulaw");
    reveal_strlit("pcma");
    reveal_strlit("alaw");
    reveal_strlit("g722");
    reveal_strlit("g729");
    reveal_strlit("opus");
    reveal_strlit("telephone-event");
    reveal_strlit("a");
    let pcmu = "pcmu"@;
    let ulaw = "ulaw"@;
    let pcma = "pcma"@;
    let alaw = "alaw"@;
    let g722 = "g722"@;
    let g729 = "g729"@;
    let opus = "opus"@;
    if same_folded(ext, pcma) {
        lemma_other_text(ext, pcma, pcmu, 3);
        lemma_other_text(ext, pcma, ulaw, 0);
    }
    if same_folded(ext, alaw) {
        lemma_other_text(ext, alaw, pcmu, 0);
        lemma_other_text(ext, alaw, ulaw, 0);
    }
    if same_folded(ext, g722) {
        lemma_other_text(ext, g722, pcmu, 0);
        lemma_other_text(ext, g722, ulaw, 0);
        lemma_other_text(ext, g722, pcma, 0);
        lemma_other_text(ext, g722, alaw, 0);
    }
    if same_folded(ext, g729) {
        lemma_other_text(ext, g729, pcmu, 0);
        lemma_other_text(ext, g729, ulaw, 0);
        lemma_other_text(ext, g729, pcma, 0);
        lemma_other_text(ext, g729, alaw, 0);
        lemma_other_text(ext, g729, g722, 3);
    }
    if same_folded(ext, opus) {
        lemma_other_text(ext, opus, pcmu, 0);
        lemma_other_text(ext, opus, ulaw, 0);
        lemma_other_text(ext, opus, pcma, 0);
        lemma_other_text(ext, opus, alaw, 0);
        lemma_other_text(ext, opus, g722, 0);
        lemma_other_text(ext, opus, g729, 0);
    }
}

proof fn lemma_other_text(s: Seq<char>, a: Seq<char>, b: Seq<char>, i: int)
    requires
        same_folded(s, a),
        0 <= i < a.len(),
        a.len() == b.len(),
        folded(a[i]) != folded(b[i]),
    ensures
        !same_folded(s, b),
{
    assert(folded(s[i]) == folded(a[i]));
}

/// A read begins with what the file holds: audio that was decoded as a whole is given at once; of a
/// WAV file samples are asked for, of a raw file the bytes of a packet; of an MP3 file what is left
/// of the frame that is being read is given, and the next one asked for unless the buffer is full.
/// A file of which nothing is left is silent.
pub proof fn law_reads_begin_with_what_the_file_holds(
    s: FileAudioSource,
    before: Seq<i16>,
    r: ReadStep,
    after: FileAudioSource,
    buffer: Seq<i16>,
)
    requires
        s.wf(),
        before.len() <= usize::MAX,
        FileAudioSource::begun(s, before, r, after, buffer),
    ensures
        buffer.len() == before.len(),
        s.pcm_cache@.len() > 0 ==> {
            &&& r matches ReadStep::Done(n)
            &&& n == before.len() || n == s.pcm_cache@.len() - s.pcm_cache_pos
            &&& n <= before.len()
            &&& forall|i: int|
                0 <= i < n ==> #[trigger] buffer[i] == s.pcm_cache@[s.pcm_cache_pos + i]
            &&& forall|i: int| n <= i < before.len() ==> #[trigger] buffer[i] == before[i]
        },
        s.pcm_cache@.len() == 0 && s.kind is Wav ==> r == ReadStep::Wav && buffer == before,
        s.pcm_cache@.len() == 0 && s.kind is Raw ==> {
            &&& r matches ReadStep::Bytes(n)
            &&& n == if s.decoder.codec() == VoiceCodec::G729 {
                20
            } else {
                160int
            }
            &&& buffer == before
        },
        s.pcm_cache@.len() == 0 && s.kind is Drained ==> {
            &&& r matches ReadStep::Done(n)
            &&& n == before.len()
            &&& forall|i: int| 0 <= i < n ==> #[trigger] buffer[i] == 0
        },
        s.pcm_cache@.len() == 0 && s.kind is Mp3 ==> {
            let n = (s.frame@.len() - s.frame_pos) as int;
            &&& n >= before.len() ==> (r matches ReadStep::Done(k) && k == before.len())
            &&& n < before.len() ==> (r matches ReadStep::Frame(k) && k == n)
            &&& forall|i: int|
                0 <= i < n && i < before.len() ==> #[trigger] buffer[i] == s.frame@[s.frame_pos + i]
        },
{
    assert(s.pcm_cache@.len() == s.pcm_cache.len());
    assert(s.frame@.len() == s.frame.len());
}

/// A file that was decoded as a whole and holds nothing is silent as long as it is played.
pub proof fn law_empty_files_are_silent(
    s: &FileAudioSource,
    before: Seq<i16>,
    after: Seq<i16>,
    n: usize,
    next: &FileAudioSource,
)
    requires
        s.pcm_cache@.len() == 0,
        s.reading(before, after, n, next),
    ensures
        s.eof_reached && !s.loop_playback ==> n == 0 && after == before,
        !s.eof_reached || s.loop_playback ==> n == before.len() && after.len() == before.len()
            && forall|i: int| 0 <= i < after.len() ==> #[trigger] after[i] == 0,
{
}

/// A manager plays the source that it was switched to, and silence for want of one.
pub proof fn law_manager_plays_its_source<S: AudioSource>(
    m: &AudioSourceManager<S>,
    before: Seq<i16>,
    after: Seq<i16>,
    n: usize,
    next: &AudioSourceManager<S>,
)
    requires
        m.reading(before, after, n, next),
    ensures
        next.target_sample_rate == m.target_sample_rate,
        m.current matches Some(ManagedSource::File(r)) ==> {
            &&& next.current matches Some(ManagedSource::File(s))
            &&& r.reading(before, after, n, &s)
        },
        !(m.current matches Some(ManagedSource::File(_))) ==> n == before.len() && after.len()
            == before.len() && forall|i: int| 0 <= i < n ==> #[trigger] after[i] == 0,
{
}

/// Channels and sample rate are those of the container; raw packets have one channel and the sample
/// rate of their codec.
pub proof fn law_containers_tell_their_format(s: &FileAudioSource)
    ensures
        s.kind matches FileKind::Wav { channels, sample_rate } ==> s.spec_meta() == (
            channels,
            sample_rate,
        ),
        s.kind matches FileKind::Mp3 { channels, sample_rate } ==> s.spec_meta() == (
            channels,
            sample_rate,
        ),
        s.kind is Raw || s.kind is Drained ==> s.spec_meta().0 == 1 && s.spec_meta().1
            == s.decoder.codec().spec_samplerate(),
{
}

/// A path names a file on a web server exactly if it begins with the name of either protocol.
pub proof fn law_urls_begin_with_their_protocol(rest: Seq<char>, path: Seq<char>)
    ensures
        is_url("http://"@ + rest),
        is_url("https://"@ + rest),
        path.len() > 0 && path[0] != 'h' ==> !is_url(path),
{
    reveal_strlit("http://");
    reveal_strlit("https://");
    crate::text::law_prefix_and_rest(path, "http://"@, rest);
    crate::text::law_prefix_and_rest(path, "https://"@, rest);
    if crate::text::has_prefix(path, "http://"@) {
        assert(path[0] == path.take(7)[0]);
    }
    if crate::text::has_prefix(path, "https://"@) {
        assert(path[0] == path.take(8)[0]);
    }
}

/// The name of mu-law and of A-law files does not matter for how long they are taken to last, a
/// millisecond for each byte but at least a hundred; a file of a name that is not known is taken for
/// MP3. The least that is told is 100 ms of these, 20 ms of G.722, and 10 ms of G.729.
pub proof fn law_other_files_are_taken_for_mp3(ext: Seq<char>, bytes: u64)
    ensures
        ext == "pcmu"@ || ext == "ulaw"@ || ext == "u"@ || ext == "pcma"@ || ext == "alaw"@ || ext
            == "a"@ ==> {
            &&& bytes >= 100 ==> file_duration(ext, FileFacts::Bytes(bytes)) == bytes * 1_000_000
            &&& bytes < 100 ==> file_duration(ext, FileFacts::Bytes(bytes)) == 100_000_000
        },
        ext != "pcmu"@ && ext != "ulaw"@ && ext != "u"@ && ext != "pcma"@ && ext != "alaw"@ && ext
            != "a"@ && ext != "wav"@ && ext != "g722"@ && ext != "g729"@ ==> {
            let nanos = file_duration(ext, FileFacts::Bytes(bytes));
            &&& nanos == file_duration("mp3"@, FileFacts::Bytes(bytes))
            &&& bytes >= 1600 ==> 16000 * nanos == bytes * 1_000_000_000
            &&& bytes < 1600 ==> nanos == 100_000_000
        },
        bytes < 160 ==> file_duration("g722"@, FileFacts::Bytes(bytes)) == 20_000_000,
        bytes < 10 ==> file_duration("g729"@, FileFacts::Bytes(bytes)) == 10_000_000,
        bytes >= 160 ==> {
            let nanos = file_duration("g722"@, FileFacts::Bytes(bytes));
            8000 * nanos <= bytes * 1_000_000_000 < 8000 * (nanos + 20_000_000)
        },
        bytes >= 10 ==> {
            let nanos = file_duration("g729"@, FileFacts::Bytes(bytes));
            1000 * nanos <= bytes * 1_000_000_000 < 1000 * (nanos + 10_000_000)
        },
{
    reveal_strlit("wav");
    reveal_strlit("mp3");
    reveal_strlit("g722");
    reveal_strlit("g729");
    reveal_strlit("pcmu");
    reveal_strlit("ulaw");
    reveal_strlit("u");
    reveal_strlit("pcma");
    reveal_strlit("alaw");
    reveal_strlit("a");
    assert("wav"@[0] == 'w');
    assert("mp3"@[0] == 'm');
    assert("g722"@[0] == 'g' && "g722"@[2] == '2');
    assert("g729"@[0] == 'g' && "g729"@[3] == '9' && "g722"@[3] == '2');
    assert("pcmu"@[0] == 'p');
    assert("ulaw"@[0] == 'u');
    assert("u"@[0] == 'u');
    assert("pcma"@[0] == 'p');
    assert("alaw"@[0] == 'a');
    assert("a"@[0] == 'a');
}

/// At the rate of the source it is read as it is. At another, what is resampled is just what one
/// read of the source gave, of as much as the buffer takes; what the buffer cannot hold of the
/// result is dropped. Where the source gives nothing, nothing comes out.
pub proof fn law_sources_are_read_once_for_each_buffer<S: AudioSource>(
    s: &ResamplingAudioSource<S>,
    before: Seq<i16>,
    after: Seq<i16>,
    n: usize,
    next: &ResamplingAudioSource<S>,
)
    requires
        s.reading(before, after, n, next),
    ensures
        s.source_rate() == s.rate() ==> s.inner().reading(before, after, n, &next.inner()),
        next.source_rate() == s.source_rate(),
        s.source_rate() != s.rate() && n > 0 ==> {
            let (given, out) = next.resampler()->0.log().last();
            &&& n == if out.len() < before.len() {
                out.len()
            } else {
                before.len()
            }
            &&& given.len() > 0
            &&& exists|asked: Seq<i16>, read: usize|
                {
                    &&& #[trigger] s.inner().reading(asked, next.intermediate(), read, &next.inner())
                    &&& read == given.len()
                    &&& asked.len() == needed_source(
                        before.len(),
                        s.source_rate() as nat,
                        s.rate() as nat,
                    )
                }
        },
        s.source_rate() != s.rate() && after != before ==> n > 0,
{
    if s.source_rate() != s.rate() {
        let r = s.resampler()->0;
        let asked = resized(
            s.intermediate(),
            needed_source(before.len(), s.source_rate() as nat, s.rate() as nat),
        );
        assert(asked.len() == needed_source(before.len(), s.source_rate() as nat, s.rate() as nat));
        let read = choose|read: usize|
            {
                let count = resampled_count(
                    read as int,
                    r.lead(),
                    r.input_rate(),
                    r.output_rate(),
                );
                &&& read <= asked.len()
                &&& #[trigger] s.inner().reading(asked, next.intermediate(), read, &next.inner())
                &&& if read == 0 {
                    n == 0 && after == before && next.resampler() == s.resampler()
                } else {
                    let given = next.intermediate().take(read as int);
                    let out = next.resampler()->0.log().last().1;
                    &&& next.resampler()->0.log() == r.log().push((given, out))
                    &&& out.len() == count
                    &&& after.take(n as int) == out.take(n as int)
                    &&& n == (if count < before.len() {
                        count
                    } else {
                        before.len() as int
                    })
                    &&& after.len() == before.len()
                    &&& after.skip(n as int) == before.skip(n as int)
                    &&& next.resampler()->0.lead() == r.lead() + count * r.input_rate() - read
                        * r.output_rate()
                }
            };
        assert(s.inner().reading(asked, next.intermediate(), read, &next.inner()));
        if n == 0 && read > 0 {
            assert(after.skip(0) =~= after);
            assert(before.skip(0) =~= before);
        }
    }
}

} // verus!
