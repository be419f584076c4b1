//! Audio sample processing for the codec's 32-bit I2S slots: the square
//! test tone, the recording buffer filled from captured slots, its
//! statistics, and its bytes as 16-bit little-endian PCM.

use vstd::prelude::*;

verus! {

/// Sampling rate of microphone and speaker, in Hz.
pub const SAMPLE_RATE: u32 = 16000;
/// Longest recording in seconds.
pub const RECORD_SECS: usize = 3;
/// Capacity of the recording buffer in samples.
pub const MAX_SAMPLES: usize = 48000;
/// Most 32-bit slots moved in one transfer.
pub const CHUNK_WORDS: usize = 1024;
/// Amplitude of the test tone.
pub const TONE_AMPLITUDE: i16 = 8000;

/// The 16-bit sample carried in the upper half of a 32-bit slot.
pub open spec fn slot_sample(word: i32) -> i16 {
    (word >> 16u32) as i16
}

/// The 32-bit slot that carries sample `s` in its upper half.
pub open spec fn sample_slot(s: i16) -> i32 {
    ((s as i32) << 16u32) as i32
}

/// Extracts the sample from the upper half of a slot.
pub fn slot_to_sample(word: i32) -> (s: i16)
    ensures
        s == slot_sample(word),
        s as int == word as int / 65536,
{
    let hi: i32 = word >> 16u32;
    assert(-32768 <= hi < 32768 && hi as int == word as int / 65536) by (bit_vector)
        requires
            hi == word >> 16u32,
    ;
    hi as i16
}

/// The smallest sample, starting from `i16::MAX` for no samples.
pub open spec fn samples_min(s: Seq<i16>) -> i16
    decreases s.len(),
{
    if s.len() == 0 {
        i16::MAX
    } else {
        let m = samples_min(s.drop_last());
        if s.last() < m {
            s.last()
        } else {
            m
        }
    }
}

/// The largest sample, starting from `i16::MIN` for no samples.
pub open spec fn samples_max(s: Seq<i16>) -> i16
    decreases s.len(),
{
    if s.len() == 0 {
        i16::MIN
    } else {
        let m = samples_max(s.drop_last());
        if s.last() > m {
            s.last()
        } else {
            m
        }
    }
}

/// The sum of the samples.
pub open spec fn samples_sum(s: Seq<i16>) -> int
    decreases s.len(),
{
    if s.len() == 0 {
        0
    } else {
        samples_sum(s.drop_last()) + s.last()
    }
}

/// Integer division rounding toward zero, as machine division does.
pub open spec fn div_toward_zero(a: int, b: int) -> int {
    if a >= 0 {
        a / b
    } else {
        -((-a) / b)
    }
}

/// The mean of the samples rounded toward zero; 0 for no samples.
pub open spec fn samples_mean(s: Seq<i16>) -> int {
    if s.len() == 0 {
        0
    } else {
        div_toward_zero(samples_sum(s), s.len() as int)
    }
}

proof fn lemma_sum_bound(s: Seq<i16>)
    ensures
        -32768 * s.len() <= samples_sum(s) <= 32767 * s.len(),
    decreases s.len(),
{
    if s.len() > 0 {
        lemma_sum_bound(s.drop_last());
    }
}

/// Statistics of a recording, for telling real sound from silence or a
/// stuck input.
#[derive(Debug, Clone, Copy, PartialEq, Eq, Structural)]
pub struct SampleStats {
    /// Smallest sample (`i16::MAX` when there are none).
    pub min: i16,
    /// Largest sample (`i16::MIN` when there are none).
    pub max: i16,
    /// Mean sample rounded toward zero (0 when there are none).
    pub mean: i64,
}

/// Minimum, maximum and mean of `samples`.
pub fn sample_stats(samples: &[i16]) -> (st: SampleStats)
    requires
        samples@.len() <= MAX_SAMPLES,
    ensures
        st.min == samples_min(samples@),
        st.max == samples_max(samples@),
        st.mean == samples_mean(samples@),
{
    let mut min: i16 = i16::MAX;
    let mut max: i16 = i16::MIN;
    let mut sum: i64 = 0;
    let n = samples.len();
    let mut i: usize = 0;
    while i < n
        invariant
            n == samples@.len(),
            n <= MAX_SAMPLES,
            i <= n,
            min == samples_min(samples@.take(i as int)),
            max == samples_max(samples@.take(i as int)),
            sum == samples_sum(samples@.take(i as int)),
        decreases n - i,
    {
        let x = samples[i];
        proof {
            assert(samples@.take(i + 1).drop_last() =~= samples@.take(i as int));
            lemma_sum_bound(samples@.take(i as int));
        }
        if x < min {
            min = x;
        }
        if x > max {
            max = x;
        }
        sum = sum + x as i64;
        i += 1;
    }
    assert(samples@.take(n as int) =~= samples@);
    let mean: i64 = if n == 0 {
        0
    } else if sum >= 0 {
        sum / (n as i64)
    } else {
        proof {
            lemma_sum_bound(samples@);
        }
        -((-sum) / (n as i64))
    };
    SampleStats { min, max, mean }
}

/// The 16-bit little-endian encoding of the samples, two bytes each.
pub open spec fn pcm_le(s: Seq<i16>) -> Seq<u8>
    decreases s.len(),
{
    if s.len() == 0 {
        Seq::empty()
    } else {
        let u = s.last() as u16;
        pcm_le(s.drop_last()) + seq![(u % 256) as u8, (u / 256) as u8]
    }
}

proof fn lemma_pcm_le_len(s: Seq<i16>)
    ensures
        pcm_le(s).len() == 2 * s.len(),
    decreases s.len(),
{
    if s.len() > 0 {
        lemma_pcm_le_len(s.drop_last());
    }
}

/// The samples as raw 16-bit little-endian PCM bytes.
pub fn pcm_bytes(samples: &[i16]) -> (bytes: Vec<u8>)
    requires
        samples@.len() <= MAX_SAMPLES,
    ensures
        bytes@ == pcm_le(samples@),
        bytes@.len() == 2 * samples@.len(),
{
    let mut out: Vec<u8> = Vec::new();
    let n = samples.len();
    let mut i: usize = 0;
    while i < n
        invariant
            n == samples@.len(),
            i <= n,
            out@ == pcm_le(samples@.take(i as int)),
        decreases n - i,
    {
        let u: u16 = samples[i] as u16;
        let lo: u8 = (u & 0xff) as u8;
        let hi: u8 = (u >> 8u32) as u8;
        assert(lo == u % 256 && hi == u / 256) by (bit_vector)
            requires
                lo == (u & 0xff) as u8,
                hi == (u >> 8u32) as u8,
        ;
        out.push(lo);
        out.push(hi);
        proof {
            assert(samples@.take(i + 1).drop_last() =~= samples@.take(i as int));
        }
        i += 1;
        assert(out@ =~= pcm_le(samples@.take(i as int)));
    }
    assert(samples@.take(n as int) =~= samples@);
    proof {
        lemma_pcm_le_len(samples@);
    }
    out
}

/// A recording of at most [`MAX_SAMPLES`] samples, filled chunk by chunk
/// from captured slots.
pub struct Recording {
    buf: Vec<i16>,
    filled: usize,
}

impl View for Recording {
    type V = Seq<i16>;

    /// The samples recorded so far.
    closed spec fn view(&self) -> Seq<i16> {
        self.buf@.take(self.filled as int)
    }
}

/// The samples carried by a sequence of slots.
pub open spec fn slots_samples(words: Seq<i32>) -> Seq<i16> {
    words.map_values(|w: i32| slot_sample(w))
}

impl Recording {
    /// The buffer holds [`MAX_SAMPLES`] samples, of which a prefix is filled.
    pub closed spec fn wf(&self) -> bool {
        &&& self.buf@.len() == MAX_SAMPLES
        &&& self.filled <= MAX_SAMPLES
    }

    /// An empty recording.
    pub fn new() -> (r: Self)
        ensures
            r.wf(),
            r@ == Seq::<i16>::empty(),
    {
        let r = Recording { buf: vec![0i16; MAX_SAMPLES], filled: 0 };
        assert(r@ =~= Seq::<i16>::empty());
        r
    }

    /// Discards the samples for a new recording.
    pub fn clear(&mut self)
        requires
            old(self).wf(),
        ensures
            final(self).wf(),
            final(self)@ == Seq::<i16>::empty(),
    {
        self.filled = 0;
        assert(self@ =~= Seq::<i16>::empty());
    }

    /// Number of samples recorded.
    pub fn len(&self) -> (n: usize)
        requires
            self.wf(),
        ensures
            n == self@.len(),
    {
        self.filled
    }

    /// How many slots the next capture reads: a full transfer of
    /// [`CHUNK_WORDS`] slots, or what is left before the buffer is full.
    pub fn chunk_len(&self) -> (n: usize)
        requires
            self.wf(),
        ensures
            n == min_usize(CHUNK_WORDS as int, MAX_SAMPLES - self@.len()),
    {
        let left = MAX_SAMPLES - self.filled;
        if CHUNK_WORDS < left {
            CHUNK_WORDS
        } else {
            left
        }
    }

    /// Appends the samples carried by the captured slots `words`.
    pub fn store_chunk(&mut self, words: &[i32])
        requires
            old(self).wf(),
            old(self)@.len() + words@.len() <= MAX_SAMPLES,
        ensures
            final(self).wf(),
            final(self)@ == old(self)@ + slots_samples(words@),
    {
        let n = words.len();
        let start = self.filled;
        let mut i: usize = 0;
        assert(slots_samples(words@).take(0) =~= Seq::<i16>::empty());
        assert(old(self)@ + Seq::<i16>::empty() =~= old(self)@);
        while i < n
            invariant
                self.wf(),
                n == words@.len(),
                start + n <= MAX_SAMPLES,
                start == old(self)@.len(),
                i <= n,
                self.filled == start + i,
                self@ == old(self)@ + slots_samples(words@).take(i as int),
            decreases n - i,
        {
            let s = slot_to_sample(words[i]);
            let ghost before = self.buf@;
            self.buf.set(start + i, s);
            self.filled = start + i + 1;
            proof {
                let sl = slots_samples(words@);
                let prev = old(self)@ + sl.take(i as int);
                let target = old(self)@ + sl.take(i + 1);
                assert(old(self)@.len() == start);
                assert(sl.len() == n);
                assert(sl[i as int] == s);
                assert(before.take(start + i) == prev);
                assert(self.buf@ == before.update(start + i, s));
                assert(target.len() == start + i + 1);
                assert forall|k: int| 0 <= k < start + i + 1 implies self.buf@[k] == target[k] by {
                    if k < start + i {
                        assert(before.take(start + i)[k] == before[k]);
                        assert(prev[k] == target[k]);
                    }
                }
                assert(self@ =~= target);
            }
            i += 1;
        }
        assert(slots_samples(words@).take(n as int) =~= slots_samples(words@));
    }

    /// The recorded samples.
    pub fn samples(&self) -> (s: &[i16])
        requires
            self.wf(),
        ensures
            s@ == self@,
    {
        let all = self.buf.as_slice();
        &all[0..self.filled]
    }
}

/// The smaller of an integer bound and a count.
pub open spec fn min_usize(a: int, b: int) -> int {
    if a <= b {
        a
    } else {
        b
    }
}

/// Samples in half a period of a square wave of `freq_hz` (at least one).
pub open spec fn tone_half_period(freq_hz: u32) -> int {
    let h = (SAMPLE_RATE / freq_hz / 2) as int;
    if h < 1 {
        1
    } else {
        h
    }
}

/// Samples in `ms` milliseconds.
pub open spec fn tone_length(ms: u32) -> int {
    (SAMPLE_RATE as int) * (ms as int) / 1000
}

/// Sample `k` of a square wave whose half period is `half` samples: the
/// first half of each period is high, the second low.
pub open spec fn tone_sample(half: int, k: int) -> i16 {
    if k % (2 * half) < half {
        TONE_AMPLITUDE
    } else {
        (-TONE_AMPLITUDE) as i16
    }
}

/// Produces a square test tone chunk by chunk as 32-bit slots.
pub struct ToneGenerator {
    half: u32,
    total: usize,
    done: usize,
    phase: u32,
}

impl ToneGenerator {
    /// Samples per half period.
    pub closed spec fn half(&self) -> int {
        self.half as int
    }

    /// Samples in the whole tone.
    pub closed spec fn total(&self) -> int {
        self.total as int
    }

    /// Samples produced so far.
    pub closed spec fn done(&self) -> int {
        self.done as int
    }

    /// The phase counter follows the samples produced.
    pub closed spec fn wf(&self) -> bool {
        &&& 1 <= self.half <= SAMPLE_RATE / 2
        &&& self.done <= self.total
        &&& self.phase as int == (self.done as int) % (2 * self.half as int)
    }

    /// A tone of `freq_hz` Hz lasting `ms` milliseconds.
    pub fn new(freq_hz: u32, ms: u32) -> (g: Self)
        requires
            freq_hz > 0,
            tone_length(ms) <= usize::MAX,
        ensures
            g.wf(),
            g.half() == tone_half_period(freq_hz),
            g.total() == tone_length(ms),
            g.done() == 0,
    {
        let h = SAMPLE_RATE / freq_hz / 2;
        assert(h <= 8000) by (nonlinear_arith)
            requires
                h == 16000int / (freq_hz as int) / 2,
                freq_hz >= 1,
        ;
        let half = if h < 1 {
            1
        } else {
            h
        };
        let total64: u64 = SAMPLE_RATE as u64 * ms as u64 / 1000;
        assert(0int % (2 * half as int) == 0) by (nonlinear_arith)
            requires
                half >= 1,
        ;
        ToneGenerator { half, total: total64 as usize, done: 0, phase: 0 }
    }

    /// Whether every sample has been produced.
    pub fn finished(&self) -> (f: bool)
        ensures
            f == (self.done() >= self.total()),
    {
        self.done >= self.total
    }

    /// The next chunk of the tone: the slots of the following samples, at
    /// most [`CHUNK_WORDS`] of them; empty once the tone is complete.
    pub fn next_chunk(&mut self) -> (chunk: Vec<i32>)
        requires
            old(self).wf(),
        ensures
            final(self).wf(),
            final(self).half() == old(self).half(),
            final(self).total() == old(self).total(),
            chunk@.len() == min_usize(CHUNK_WORDS as int, old(self).total() - old(self).done()),
            final(self).done() == old(self).done() + chunk@.len(),
            forall|j: int|
                0 <= j < chunk@.len() ==> chunk@[j] == sample_slot(
                    #[trigger] tone_sample(old(self).half(), old(self).done() + j),
                ),
    {
        let left = self.total - self.done;
        let n = if CHUNK_WORDS < left {
            CHUNK_WORDS
        } else {
            left
        };
        let mut chunk: Vec<i32> = Vec::new();
        let half = self.half;
        let start = self.done;
        let mut phase = self.phase;
        let mut j: usize = 0;
        while j < n
            invariant
                1 <= half <= SAMPLE_RATE / 2,
                half == old(self).half,
                start == old(self).done,
                start + n <= old(self).total,
                j <= n,
                chunk@.len() == j,
                phase as int == (start + j) % (2 * half as int),
                forall|q: int|
                    0 <= q < j ==> chunk@[q] == sample_slot(
                        #[trigger] tone_sample(half as int, start + q),
                    ),
            decreases n - j,
        {
            let s: i16 = if phase < half {
                TONE_AMPLITUDE
            } else {
                -TONE_AMPLITUDE
            };
            let word: i32 = sample_to_slot(s);
            assert(tone_sample(half as int, start + j) == s);
            chunk.push(word);
            proof {
                let k = start + j;
                let p = 2 * half as int;
                assert((k + 1) % p == if k % p + 1 >= p {
                    0
                } else {
                    k % p + 1
                }) by (nonlinear_arith)
                    requires
                        k >= 0,
                        p >= 2,
                ;
            }
            phase = phase + 1;
            if phase >= half * 2 {
                phase = 0;
            }
            j += 1;
        }
        self.done = start + n;
        self.phase = phase;
        chunk
    }
}

/// The test tone is a square wave: it repeats every two half periods, and
/// within a period it is high for exactly the first half.
pub proof fn lemma_tone_square(half: int, k: int)
    requires
        half >= 1,
        k >= 0,
    ensures
        tone_sample(half, k + 2 * half) == tone_sample(half, k),
        0 <= k < half ==> tone_sample(half, k) == TONE_AMPLITUDE,
        half <= k < 2 * half ==> tone_sample(half, k) == -TONE_AMPLITUDE as int,
{
    assert((k + 2 * half) % (2 * half) == k % (2 * half)) by (nonlinear_arith)
        requires
            half >= 1,
            k >= 0,
    ;
    assert(0 <= k < 2 * half ==> k % (2 * half) == k) by (nonlinear_arith)
        requires
            half >= 1,
    ;
}

/// Puts a sample into the upper half of a 32-bit slot.
pub fn sample_to_slot(s: i16) -> (word: i32)
    ensures
        word == sample_slot(s),
        word as int == s as int * 65536,
{
    let word: i32 = (s as i32) << 16u32;
    assert(word as int == s as int * 65536) by (bit_vector)
        requires
            word == (s as i32) << 16u32,
    ;
    word
}

/// The sample whose little-endian bytes are `lo`, `hi`.
pub open spec fn le_sample(lo: u8, hi: u8) -> i16 {
    ((lo as int + 256 * (hi as int)) as u16) as i16
}

/// The samples of 16-bit little-endian PCM bytes; an odd last byte is
/// ignored.
pub open spec fn pcm_decode(b: Seq<u8>) -> Seq<i16> {
    Seq::new(b.len() / 2, |i: int| le_sample(b[2 * i], b[2 * i + 1]))
}

/// Decodes 16-bit little-endian PCM bytes into samples.
pub fn pcm_samples(bytes: &[u8]) -> (samples: Vec<i16>)
    ensures
        samples@ == pcm_decode(bytes@),
{
    let n = bytes.len() / 2;
    let mut out: Vec<i16> = Vec::new();
    let mut i: usize = 0;
    while i < n
        invariant
            n == bytes@.len() / 2,
            n == bytes.len() / 2,
            i <= n,
            out@.len() == i,
            forall|k: int| 0 <= k < i ==> out@[k] == le_sample(bytes@[2 * k], bytes@[2 * k + 1]),
        decreases n - i,
    {
        let lo = bytes[2 * i];
        let hi = bytes[2 * i + 1];
        let v: u16 = lo as u16 + 256 * (hi as u16);
        out.push(v as i16);
        i += 1;
    }
    assert(out@ =~= pcm_decode(bytes@));
    out
}

proof fn lemma_pcm_le_bytes(s: Seq<i16>, i: int)
    requires
        0 <= i < s.len(),
    ensures
        pcm_le(s).len() == 2 * s.len(),
        pcm_le(s)[2 * i] == ((s[i] as u16) % 256) as u8,
        pcm_le(s)[2 * i + 1] == ((s[i] as u16) / 256) as u8,
    decreases s.len(),
{
    lemma_pcm_le_len(s);
    lemma_pcm_le_len(s.drop_last());
    if i < s.len() - 1 {
        lemma_pcm_le_bytes(s.drop_last(), i);
    }
}

/// Decoding the PCM bytes of a recording gives back its samples: what is
/// recorded is played back unchanged.
pub proof fn lemma_pcm_roundtrip(s: Seq<i16>)
    ensures
        pcm_decode(pcm_le(s)) == s,
{
    lemma_pcm_le_len(s);
    assert forall|i: int| 0 <= i < s.len() implies pcm_decode(pcm_le(s))[i] == s[i] by {
        lemma_pcm_le_bytes(s, i);
        let x = s[i];
        let lo = ((x as u16) % 256) as u8;
        let hi = ((x as u16) / 256) as u8;
        assert(((lo as int + 256 * (hi as int)) as u16) as i16 == x) by (bit_vector)
            requires
                lo == ((x as u16) % 256) as u8,
                hi == ((x as u16) / 256) as u8,
        ;
    }
    assert(pcm_decode(pcm_le(s)) =~= s);
}

/// Silent transfers that start the transmitter before real output, so
/// that the first sound starts without a glitch.
pub const PRIME_TRANSFERS: u32 = 4;

/// Counts the silent transfers that prime the transmitter; priming stops
/// after [`PRIME_TRANSFERS`] of them or at the first that fails.
pub struct Primer {
    done: u32,
    failed: bool,
}

impl Primer {
    /// Silent transfers written so far.
    pub closed spec fn written(&self) -> int {
        self.done as int
    }

    /// A transfer has failed.
    pub closed spec fn has_failed(&self) -> bool {
        self.failed
    }

    /// Whether another silent transfer is due.
    pub open spec fn spec_due(&self) -> bool {
        !self.has_failed() && self.written() < PRIME_TRANSFERS
    }

    /// Nothing written yet.
    pub fn new() -> (p: Self)
        ensures
            p.written() == 0,
            !p.has_failed(),
    {
        Primer { done: 0, failed: false }
    }

    /// Whether another silent transfer is due.
    pub fn due(&self) -> (d: bool)
        ensures
            d == self.spec_due(),
    {
        !self.failed && self.done < PRIME_TRANSFERS
    }

    /// Reports the outcome of the due transfer: success counts it, a
    /// failure ends priming.
    pub fn complete(&mut self, ok: bool)
        requires
            old(self).spec_due(),
        ensures
            ok ==> final(self).written() == old(self).written() + 1 && !final(self).has_failed(),
            !ok ==> final(self).written() == old(self).written() && final(self).has_failed(),
    {
        if ok {
            self.done = self.done + 1;
        } else {
            self.failed = true;
        }
    }
}

/// Priming writes at most [`PRIME_TRANSFERS`] silent transfers, and none
/// after a failure.
pub proof fn lemma_priming_ends(p: Primer)
    ensures
        p.spec_due() ==> p.written() < PRIME_TRANSFERS,
        p.has_failed() ==> !p.spec_due(),
        p.written() >= PRIME_TRANSFERS ==> !p.spec_due(),
{
}

} // verus!
