use vstd::prelude::*;
use vstd::arithmetic::div_mod::lemma_fundamental_div_mod_converse;

verus! {

/// The fewest buckets a waveform has.
pub const MIN_BUCKETS: u32 = 8;

/// The most buckets a waveform has.
pub const MAX_BUCKETS: u32 = 4096;

/// The largest magnitude of a decoded sample.
pub const SAMPLE_MAGNITUDE: i64 = 32768;

/// The requested bucket count limited to `MIN_BUCKETS ..= MAX_BUCKETS`.
pub open spec fn clamped_buckets(n: nat) -> nat {
    if n < MIN_BUCKETS {
        MIN_BUCKETS as nat
    } else if n > MAX_BUCKETS {
        MAX_BUCKETS as nat
    } else {
        n
    }
}

/// Limits a requested bucket count to `MIN_BUCKETS ..= MAX_BUCKETS`.
pub fn clamp_buckets(n: u32) -> (r: u32)
    ensures
        r == clamped_buckets(n as nat),
{
    if n < MIN_BUCKETS {
        MIN_BUCKETS
    } else if n > MAX_BUCKETS {
        MAX_BUCKETS
    } else {
        n
    }
}

/// The number of frames that a track of `duration_ns` nanoseconds holds at
/// `sample_rate`, rounded to the nearest whole frame, at least one, and
/// saturating at `u64::MAX`. An unknown duration counts as zero, so that the
/// whole track is taken as one frame long.
pub open spec fn frames_in(duration_ns: Option<u64>, sample_rate: nat) -> nat {
    let d: nat = match duration_ns {
        Some(d) => d as nat,
        None => 0,
    };
    let frames = (d * sample_rate + 500_000_000) / 1_000_000_000;
    if frames < 1 {
        1
    } else if frames > u64::MAX {
        u64::MAX as nat
    } else {
        frames
    }
}

/// The estimated frame count of a track: see `frames_in`.
pub fn total_frames(duration_ns: Option<u64>, sample_rate: u32) -> (r: u64)
    ensures
        r == frames_in(duration_ns, sample_rate as nat),
        r >= 1,
{
    let d: u64 = match duration_ns {
        Some(d) => d,
        None => 0,
    };
    assert(d as int * sample_rate as int <= u64::MAX as int * u32::MAX as int) by (nonlinear_arith)
        requires
            0 <= d <= u64::MAX,
            0 <= sample_rate <= u32::MAX,
    ;
    let scaled: u128 = d as u128 * sample_rate as u128;
    let frames: u128 = (scaled + 500_000_000) / 1_000_000_000;
    if frames < 1 {
        1
    } else if frames > u64::MAX as u128 {
        u64::MAX
    } else {
        frames as u64
    }
}

/// The bucket of frame `frame` when `total` frames are spread over `buckets`
/// buckets in proportion, the last bucket taking any frames past `total`.
pub open spec fn bucket_of(frame: nat, buckets: nat, total: nat) -> nat {
    let b = frame * buckets / total;
    if b < buckets - 1 {
        b
    } else {
        (buckets - 1) as nat
    }
}

/// The bucket of a frame: see `bucket_of`.
pub fn bucket_index(frame: u64, buckets: u32, total: u64) -> (r: u32)
    requires
        buckets >= 1,
        total >= 1,
    ensures
        r == bucket_of(frame as nat, buckets as nat, total as nat),
        r < buckets,
{
    assert(frame as int * buckets as int <= u64::MAX as int * u32::MAX as int) by (nonlinear_arith)
        requires
            0 <= frame <= u64::MAX,
            0 <= buckets <= u32::MAX,
    ;
    let b: u128 = frame as u128 * buckets as u128 / total as u128;
    if b < (buckets - 1) as u128 {
        b as u32
    } else {
        buckets - 1
    }
}

/// The sum of `s[lo..hi]`.
pub open spec fn sum_range(s: Seq<i16>, lo: int, hi: int) -> int
    decreases hi - lo,
{
    if hi <= lo {
        0
    } else {
        sum_range(s, lo, hi - 1) + s[hi - 1] as int
    }
}

/// The first sample of frame `f` in interleaved samples of `channels` channels.
pub open spec fn frame_start(f: nat, channels: nat) -> int {
    (f * channels) as int
}

/// The end of frame `f`: a full frame, or what is left of the samples.
pub open spec fn frame_end(len: nat, f: nat, channels: nat) -> int {
    if f * channels + channels <= len {
        (f * channels + channels) as int
    } else {
        len as int
    }
}

/// The sum of the samples of frame `f`: its channels mixed down to one value,
/// before the division by the channel count.
pub open spec fn frame_sum(s: Seq<i16>, channels: nat, f: nat) -> int {
    sum_range(s, frame_start(f, channels), frame_end(s.len(), f, channels))
}

/// The number of frames, the last one possibly partial, that `len`
/// interleaved samples of `channels` channels make.
pub open spec fn frame_count(len: nat, channels: nat) -> nat {
    ((len + channels - 1) / channels as int) as nat
}

/// The sum of the squared frame sums of the first `k` frames that fall into
/// bucket `b`.
pub open spec fn bucket_energy(
    s: Seq<i16>,
    channels: nat,
    buckets: nat,
    total: nat,
    b: nat,
    k: nat,
) -> nat
    decreases k,
{
    if k == 0 {
        0
    } else {
        let prev = bucket_energy(s, channels, buckets, total, b, (k - 1) as nat);
        if bucket_of((k - 1) as nat, buckets, total) == b {
            prev + (frame_sum(s, channels, (k - 1) as nat) * frame_sum(
                s,
                channels,
                (k - 1) as nat,
            )) as nat
        } else {
            prev
        }
    }
}

/// How many of the first `k` frames fall into bucket `b`.
pub open spec fn bucket_frames(buckets: nat, total: nat, b: nat, k: nat) -> nat
    decreases k,
{
    if k == 0 {
        0
    } else {
        bucket_frames(buckets, total, b, (k - 1) as nat) + if bucket_of(
            (k - 1) as nat,
            buckets,
            total,
        ) == b {
            1nat
        } else {
            0nat
        }
    }
}

/// What one bucket of a waveform holds: the sum of the squares of its frames'
/// channel sums, and how many frames it has.
///
/// A frame's mono value is its channel sum divided by the channel count and
/// by the sample range, so the bucket's mean square is
/// `sum_sq / (frames * channels² * 32767²)`.
#[derive(Debug, Clone, Copy, PartialEq, Eq, Structural)]
pub struct BucketEnergy {
    pub sum_sq: u128,
    pub frames: u64,
}

/// The energy of every bucket: what `get_waveform` computes from decoded
/// samples.
pub open spec fn energies_of(
    s: Seq<i16>,
    channels: nat,
    buckets: nat,
    total: nat,
) -> Seq<BucketEnergy> {
    Seq::new(
        buckets,
        |b: int|
            BucketEnergy {
                sum_sq: bucket_energy(s, channels, buckets, total, b as nat, frame_count(s.len(), channels)) as u128,
                frames: bucket_frames(buckets, total, b as nat, frame_count(s.len(), channels)) as u64,
            },
    )
}

/// The largest square of a frame's channel sum: `u16::MAX` channels of
/// magnitude at most `SAMPLE_MAGNITUDE` sum to under `2^31`.
pub const SQUARE_BOUND: u128 = 4_611_686_018_427_387_904;

proof fn lemma_frame_count(len: int, channels: int, f: int)
    requires
        channels >= 1,
        len >= 0,
        f >= 0,
        f * channels >= len,
        f * channels - channels < len,
    ensures
        frame_count(len as nat, channels as nat) == f,
{
    let x = len + channels - 1;
    let r = x - f * channels;
    lemma_fundamental_div_mod_converse(x, channels, f, r);
}

proof fn lemma_square_bound(x: int)
    requires
        -2147450880 <= x <= 2147450880,
    ensures
        0 <= x * x <= SQUARE_BOUND,
{
    assert(0 <= x * x <= 2147450880 * 2147450880) by (nonlinear_arith)
        requires
            -2147450880 <= x <= 2147450880,
    ;
}

/// Spreads the frames of `samples`, interleaved over `channels` channels,
/// over `buckets` buckets in proportion to an estimate of `total` frames, and
/// sums in each bucket the squares of its frames' channel sums.
pub fn bucket_energies(samples: &Vec<i16>, channels: u16, buckets: u32, total: u64) -> (r: Vec<
    BucketEnergy,
>)
    requires
        channels >= 1,
        buckets >= 1,
        total >= 1,
    ensures
        r@ == energies_of(samples@, channels as nat, buckets as nat, total as nat),
{
    let ghost s = samples@;
    let ghost ch = channels as nat;
    let ghost nb = buckets as nat;
    let ghost tf = total as nat;
    let len = samples.len();
    let mut out: Vec<BucketEnergy> = Vec::new();
    let mut i: u32 = 0;
    while i < buckets
        invariant
            i <= buckets,
            out@.len() == i,
            forall|b: int| 0 <= b < i ==> out@[b] == (BucketEnergy { sum_sq: 0, frames: 0 }),
        decreases buckets - i,
    {
        out.push(BucketEnergy { sum_sq: 0, frames: 0 });
        i = i + 1;
    }
    let mut pos: u128 = 0;
    let mut f: u64 = 0;
    while pos < len as u128
        invariant
            len == s.len(),
            samples@ == s,
            ch == channels,
            nb == buckets,
            tf == total,
            channels >= 1,
            buckets >= 1,
            total >= 1,
            pos == f * ch,
            f <= pos,
            pos <= len + ch,
            f > 0 ==> pos - ch < len,
            out@.len() == nb,
            forall|b: int|
                #![trigger out@[b]]
                0 <= b < nb ==> out@[b].sum_sq == bucket_energy(s, ch, nb, tf, b as nat, f as nat)
                    && out@[b].frames == bucket_frames(nb, tf, b as nat, f as nat)
                    && out@[b].sum_sq <= f * SQUARE_BOUND
                    && out@[b].frames <= f,
        decreases len + ch - pos,
    {
        let start = pos as usize;
        let end: usize = if len - start >= channels as usize {
            start + channels as usize
        } else {
            len
        };
        assert(end == frame_end(s.len(), f as nat, ch));
        let mut acc: i64 = 0;
        let mut j: usize = start;
        while j < end
            invariant
                start <= j <= end,
                end <= len,
                len == s.len(),
                samples@ == s,
                end - start <= u16::MAX,
                acc == sum_range(s, start as int, j as int),
                -(j - start) * SAMPLE_MAGNITUDE <= acc <= (j - start) * SAMPLE_MAGNITUDE,
            decreases end - j,
        {
            acc = acc + samples[j] as i64;
            j = j + 1;
        }
        assert(acc == frame_sum(s, ch, f as nat));
        proof {
            lemma_square_bound(acc as int);
        }
        let sq: u128 = (acc as i128 * acc as i128) as u128;
        let b = bucket_index(f, buckets, total);
        let e = out[b as usize];
        assert(e.sum_sq + sq <= (f + 1) * SQUARE_BOUND) by (nonlinear_arith)
            requires
                e.sum_sq <= f * SQUARE_BOUND,
                sq <= SQUARE_BOUND,
        ;
        assert((f + 1) * SQUARE_BOUND <= u128::MAX) by (nonlinear_arith)
            requires
                f < u64::MAX,
        ;
        out.set(b as usize, BucketEnergy { sum_sq: e.sum_sq + sq, frames: e.frames + 1 });
        assert((f + 1) * ch == f * ch + ch) by (nonlinear_arith);
        pos = pos + channels as u128;
        f = f + 1;
    }
    proof {
        lemma_frame_count(len as int, ch as int, f as int);
    }
    assert(out@ =~= energies_of(s, ch, nb, tf));
    out
}

/// A decoded track: interleaved samples with their channel count and rate,
/// and the duration that the decoder reported, if any.
pub struct DecodedAudio {
    pub samples: Vec<i16>,
    pub channels: u16,
    pub sample_rate: u32,
    pub duration_ns: Option<u64>,
}

/// The waveform of a track before perceptual scaling: its duration and the
/// energy of each bucket.
pub struct WaveformEnergy {
    pub duration_ns: u64,
    pub channels: u16,
    pub buckets: Vec<BucketEnergy>,
}

/// The channel count that frames are split by: a decoder that reports no
/// channels is taken to give mono samples.
pub open spec fn frame_width(channels: u16) -> nat {
    if channels == 0 {
        1
    } else {
        channels as nat
    }
}

/// Reduces a decoded track to `clamped_buckets(buckets)` buckets of energy.
/// Any bucket count may be asked for, and it never fails.
pub fn get_waveform(audio: &DecodedAudio, buckets: u32) -> (w: WaveformEnergy)
    ensures
        w.buckets@ == energies_of(
            audio.samples@,
            frame_width(audio.channels),
            clamped_buckets(buckets as nat),
            frames_in(audio.duration_ns, audio.sample_rate as nat),
        ),
        w.buckets@.len() == clamped_buckets(buckets as nat),
        w.channels as nat == frame_width(audio.channels),
        w.duration_ns == match audio.duration_ns {
            Some(d) => d,
            None => 0,
        },
{
    let channels: u16 = if audio.channels == 0 {
        1
    } else {
        audio.channels
    };
    let n = clamp_buckets(buckets);
    let total = total_frames(audio.duration_ns, audio.sample_rate);
    let energies = bucket_energies(&audio.samples, channels, n, total);
    let duration_ns: u64 = match audio.duration_ns {
        Some(d) => d,
        None => 0,
    };
    WaveformEnergy { duration_ns, channels, buckets: energies }
}

/// A silent track gives a waveform of exactly `clamped_buckets(buckets)`
/// buckets, none of which holds any energy, whatever the bucket count asked
/// for, the channel count, rate and duration.
pub proof fn lemma_silent_waveform(
    s: Seq<i16>,
    channels: u16,
    buckets: nat,
    total: nat,
)
    requires
        forall|i: int| 0 <= i < s.len() ==> s[i] == 0,
    ensures
        energies_of(s, frame_width(channels), clamped_buckets(buckets), total).len()
            == clamped_buckets(buckets),
        forall|b: int|
            0 <= b < clamped_buckets(buckets) ==> #[trigger] energies_of(
                s,
                frame_width(channels),
                clamped_buckets(buckets),
                total,
            )[b].sum_sq == 0,
{
    lemma_silence_has_no_energy(s, frame_width(channels), clamped_buckets(buckets), total);
}

proof fn lemma_sum_of_silence(s: Seq<i16>, lo: int, hi: int)
    requires
        forall|i: int| 0 <= i < s.len() ==> s[i] == 0,
        0 <= lo,
        hi <= s.len(),
    ensures
        sum_range(s, lo, hi) == 0,
    decreases hi - lo,
{
    if hi > lo {
        lemma_sum_of_silence(s, lo, hi - 1);
    }
}

proof fn lemma_energy_of_silence(s: Seq<i16>, channels: nat, buckets: nat, total: nat, b: nat, k: nat)
    requires
        forall|i: int| 0 <= i < s.len() ==> s[i] == 0,
    ensures
        bucket_energy(s, channels, buckets, total, b, k) == 0,
    decreases k,
{
    if k > 0 {
        lemma_energy_of_silence(s, channels, buckets, total, b, (k - 1) as nat);
        let f = (k - 1) as nat;
        if f * channels <= s.len() {
            lemma_sum_of_silence(s, frame_start(f, channels), frame_end(s.len(), f, channels));
        }
    }
}

/// A silent track, whose samples are all zero, has no energy in any bucket,
/// whatever the channel count, bucket count and frame estimate.
pub proof fn lemma_silence_has_no_energy(s: Seq<i16>, channels: nat, buckets: nat, total: nat)
    requires
        forall|i: int| 0 <= i < s.len() ==> s[i] == 0,
    ensures
        forall|b: int|
            0 <= b < buckets ==> #[trigger] energies_of(s, channels, buckets, total)[b].sum_sq == 0,
{
    assert forall|b: int| 0 <= b < buckets implies #[trigger] energies_of(
        s,
        channels,
        buckets,
        total,
    )[b].sum_sq == 0 by {
        lemma_energy_of_silence(s, channels, buckets, total, b as nat, frame_count(s.len(), channels));
    }
}

proof fn lemma_sum_range_bounded(s: Seq<i16>, lo: int, hi: int)
    requires
        0 <= lo,
        hi <= s.len(),
    ensures
        hi >= lo ==> -(hi - lo) * SAMPLE_MAGNITUDE <= sum_range(s, lo, hi) <= (hi - lo)
            * SAMPLE_MAGNITUDE,
    decreases hi - lo,
{
    if hi > lo {
        lemma_sum_range_bounded(s, lo, hi - 1);
    }
}

proof fn lemma_frame_sum_bounded(s: Seq<i16>, channels: nat, f: nat)
    ensures
        -(channels * SAMPLE_MAGNITUDE) <= frame_sum(s, channels, f) <= channels * SAMPLE_MAGNITUDE,
{
    let lo = frame_start(f, channels);
    let hi = frame_end(s.len(), f, channels);
    if lo <= hi {
        lemma_sum_range_bounded(s, lo, hi);
        assert(hi - lo <= channels);
        assert((hi - lo) * SAMPLE_MAGNITUDE <= channels * SAMPLE_MAGNITUDE) by (nonlinear_arith)
            requires
                0 <= hi - lo <= channels,
        ;
    }
}

proof fn lemma_square_le(x: int, m: int)
    requires
        -m <= x <= m,
    ensures
        x * x <= m * m,
{
    assert(x * x <= m * m) by (nonlinear_arith)
        requires
            -m <= x <= m,
    ;
}

/// No bucket holds more energy than full-scale samples would give: the sum
/// of the squared channel sums of a bucket is at most its frame count times
/// the square of `channels * SAMPLE_MAGNITUDE`. So a bucket's mean square,
/// once divided by `channels²` and the squared sample range, stays near 1.
pub proof fn lemma_energy_bounded(
    s: Seq<i16>,
    channels: nat,
    buckets: nat,
    total: nat,
    b: nat,
    k: nat,
)
    ensures
        bucket_energy(s, channels, buckets, total, b, k) <= bucket_frames(buckets, total, b, k) * (
        channels * SAMPLE_MAGNITUDE) * (channels * SAMPLE_MAGNITUDE),
    decreases k,
{
    let m = channels * SAMPLE_MAGNITUDE;
    if k > 0 {
        let f = (k - 1) as nat;
        lemma_energy_bounded(s, channels, buckets, total, b, f);
        lemma_frame_sum_bounded(s, channels, f);
        lemma_square_le(frame_sum(s, channels, f), m);
        let n = bucket_frames(buckets, total, b, f);
        let x = frame_sum(s, channels, f);
        assert(x * x >= 0) by (nonlinear_arith);
        assert((n + 1) * m * m == n * m * m + m * m) by (nonlinear_arith);
        if bucket_of(f, buckets, total) == b {
            assert(bucket_energy(s, channels, buckets, total, b, k) == bucket_energy(
                s,
                channels,
                buckets,
                total,
                b,
                f,
            ) + x * x);
            assert(bucket_frames(buckets, total, b, k) == n + 1);
        } else {
            assert(bucket_frames(buckets, total, b, k) == n);
        }
    }
}

} // verus!
