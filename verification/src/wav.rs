//! Decoding of impulse responses stored as WAV data.
use vstd::prelude::*;
use vstd::arithmetic::div_mod::lemma_fundamental_div_mod;

verus! {

#[verifier::external_type_specification]
#[verifier::external_body]
pub struct ExHoundError(hound::Error);

/// How the samples of a WAV file are encoded.
#[derive(Clone, Copy, Debug, PartialEq, Eq, Structural)]
pub enum SampleEncoding {
    Float,
    Int,
}

/// What the header of a WAV file says about its samples.
#[derive(Clone, Copy, Debug, PartialEq, Eq, Structural)]
pub struct WavFormat {
    pub channels: u16,
    pub sample_rate: u32,
    pub bits_per_sample: u16,
    pub encoding: SampleEncoding,
}

/// The format that the `hound` WAV reader reads from the header of `bytes`,
/// or `None` where it rejects them.
pub uninterp spec fn hound_wav_format(bytes: Seq<u8>) -> Option<WavFormat>;

/// Every sample of `bytes`, channels interleaved, as `hound` decodes them into
/// `i32`, or `None` where it reports an error.
pub uninterp spec fn hound_int_samples(bytes: Seq<u8>) -> Option<Seq<i32>>;

/// Parses the header of `bytes` with `hound::WavReader::new` and returns what
/// `WavReader::spec` reports. Trusted: the format is a function of the bytes,
/// and `hound` refuses a header with zero channels or zero bits per sample.
#[verifier::external_body]
fn read_wav_format(bytes: &[u8]) -> (r: Result<WavFormat, hound::Error>)
    ensures
        r is Ok <==> hound_wav_format(bytes@) is Some,
        r matches Ok(f) ==> hound_wav_format(bytes@) == Some(f) && f.channels >= 1
            && f.bits_per_sample >= 1,
{
    let spec = hound::WavReader::new(bytes)?.spec();
    let encoding = match spec.sample_format {
        hound::SampleFormat::Float => SampleEncoding::Float,
        hound::SampleFormat::Int => SampleEncoding::Int,
    };
    Ok(WavFormat {
        channels: spec.channels,
        sample_rate: spec.sample_rate,
        bits_per_sample: spec.bits_per_sample,
        encoding,
    })
}

/// Parses `bytes` with `hound::WavReader::new` and collects
/// `WavReader::samples::<i32>`. Trusted: the samples are a function of the
/// bytes; a reader exists only where the header parses, and it yields exactly
/// as many samples as the data chunk holds, a multiple of the channel count.
#[verifier::external_body]
fn read_int_samples(bytes: &[u8]) -> (r: Result<Vec<i32>, hound::Error>)
    ensures
        r is Ok <==> hound_int_samples(bytes@) is Some,
        r matches Ok(v) ==> {
            &&& hound_int_samples(bytes@) == Some(v@)
            &&& hound_wav_format(bytes@) matches Some(f)
            &&& (v@.len() as int) % (f.channels as int) == 0
        },
{
    let mut reader = hound::WavReader::new(bytes)?;
    reader.samples::<i32>().collect()
}

/// Why WAV data could not be decoded.
#[derive(Debug)]
pub enum DecodeError {
    /// The WAV reader rejected the data.
    InvalidWav(hound::Error),
    /// Integer samples wider than a 64-bit full-scale value can describe.
    UnsupportedBitDepth(u16),
}

/// The samples of a WAV file.
#[derive(Debug, PartialEq, Eq)]
pub enum SampleData<S> {
    /// Integer samples and the full-scale value `2^(bits - 1)` that maps them onto `[-1, 1)`.
    Int { samples: S, full_scale: i64 },
    /// Floating-point samples, which the caller reads itself.
    Float,
}

/// The content of a WAV file: its format and its samples, channels interleaved.
#[derive(Debug)]
pub struct WavContents {
    pub format: WavFormat,
    pub data: SampleData<Vec<i32>>,
}

/// An impulse response split into channels.
#[derive(Debug)]
pub struct DecodedWav {
    pub sample_rate: u32,
    pub num_channels: u16,
    pub data: SampleData<Vec<Vec<i32>>>,
}

/// The channels of `s`, a sequence of `n`-channel frames: channel `c` holds the
/// `c`-th sample of every frame.
pub open spec fn deinterleaved<T>(s: Seq<T>, n: nat) -> Seq<Seq<T>> {
    Seq::new(n, |c: int| Seq::new(s.len() / n, |k: int| s[k * n + c]))
}

/// The contents of each vector of `v`.
pub open spec fn channel_views<T>(v: Seq<Vec<T>>) -> Seq<Seq<T>> {
    v.map_values(|x: Vec<T>| x@)
}

/// The frames of `channels` laid out one after the other, each frame holding
/// the `k`-th sample of every channel in channel order.
pub open spec fn interleaved<T>(channels: Seq<Seq<T>>, frames: nat) -> Seq<T> {
    Seq::new(frames * channels.len(), |i: int| channels[i % (channels.len() as int)][i / (channels.len() as int)])
}

proof fn lemma_frame_index_bound(k: int, c: int, n: int, frames: int)
    requires
        0 <= k < frames,
        0 <= c < n,
    ensures
        0 <= k * n + c < frames * n,
{
    assert(0 <= k * n) by (nonlinear_arith)
        requires
            0 <= k,
            0 <= n,
    ;
    assert(k * n + n <= frames * n) by (nonlinear_arith)
        requires
            k + 1 <= frames,
            0 <= n,
    ;
}

/// Splits `samples`, a sequence of `num_channels`-channel frames, into one
/// vector per channel.
pub fn deinterleave<T: Copy>(samples: &Vec<T>, num_channels: usize) -> (r: Vec<Vec<T>>)
    requires
        num_channels > 0,
        (samples@.len() as int) % (num_channels as int) == 0,
    ensures
        channel_views(r@) == deinterleaved(samples@, num_channels as nat),
        r@.len() == num_channels,
        forall|c: int| 0 <= c < num_channels ==> #[trigger] r@[c]@.len() == (samples@.len() as int) / (num_channels as int),
        forall|c: int, k: int|
            0 <= c < num_channels && 0 <= k < (samples@.len() as int) / (num_channels as int) ==> #[trigger] r@[c]@[k]
                == samples@[k * num_channels + c],
{
    let n = num_channels;
    let len = samples.len();
    let frames = len / n;
    proof {
        lemma_fundamental_div_mod(samples@.len() as int, n as int);
        assert(frames * n == samples@.len()) by (nonlinear_arith)
            requires
                samples@.len() == n * (samples@.len() as int / n as int) + 0,
                frames == samples@.len() as int / n as int,
        ;
    }
    let mut channels: Vec<Vec<T>> = Vec::new();
    let mut c: usize = 0;
    while c < n
        invariant
            c <= n,
            frames * n == samples@.len(),
            len == samples@.len(),
            frames == (samples@.len() as int) / (n as int),
            channels@.len() == c,
            forall|j: int| 0 <= j < c ==> #[trigger] channels@[j]@.len() == frames,
            forall|j: int, k: int|
                0 <= j < c && 0 <= k < frames ==> #[trigger] channels@[j]@[k] == samples@[k * n + j],
        decreases n - c,
    {
        let mut channel: Vec<T> = Vec::new();
        let mut k: usize = 0;
        let mut idx: usize = c;
        while k < frames
            invariant
                c < n,
                k <= frames,
                frames * n == samples@.len(),
                len == samples@.len(),
                k < frames ==> idx == k * n + c,
                channel@.len() == k,
                forall|m: int| 0 <= m < k ==> #[trigger] channel@[m] == samples@[m * n + c],
            decreases frames - k,
        {
            proof {
                lemma_frame_index_bound(k as int, c as int, n as int, frames as int);
            }
            channel.push(samples[idx]);
            k = k + 1;
            if k < frames {
                proof {
                    lemma_frame_index_bound(k as int, c as int, n as int, frames as int);
                    assert((k - 1) * n + c + n == k * n + c) by (nonlinear_arith);
                }
                idx = idx + n;
            }
        }
        channels.push(channel);
        c = c + 1;
    }
    proof {
        let d = deinterleaved(samples@, n as nat);
        let v = channel_views(channels@);
        assert forall|j: int| 0 <= j < n implies #[trigger] v[j] == d[j] by {
            assert(v[j] =~= d[j]);
        }
        assert(v =~= d);
    }
    channels
}

/// Interleaving the channels of a sequence of frames gives the sequence back:
/// splitting samples into channels loses and moves none of them.
pub proof fn lemma_interleave_deinterleave<T>(s: Seq<T>, n: nat)
    requires
        n > 0,
        (s.len() as int) % (n as int) == 0,
    ensures
        interleaved(deinterleaved(s, n), s.len() / n) == s,
{
    let d = deinterleaved(s, n);
    let frames = s.len() / n;
    lemma_fundamental_div_mod(s.len() as int, n as int);
    assert(frames * n == s.len()) by (nonlinear_arith)
        requires
            s.len() == n * (s.len() as int / n as int) + 0,
            frames == s.len() as int / n as int,
    ;
    let r = interleaved(d, frames);
    assert(r.len() == s.len()) by (nonlinear_arith)
        requires
            r.len() == frames * n,
            frames * n == s.len(),
    ;
    assert forall|i: int| 0 <= i < s.len() implies #[trigger] r[i] == s[i] by {
        lemma_fundamental_div_mod(i, n as int);
        let k = i / (n as int);
        let c = i % (n as int);
        assert(k * n + c == i) by (nonlinear_arith)
            requires
                i == n * k + c,
        ;
        assert(0 <= k < frames) by (nonlinear_arith)
            requires
                i == n * k + c,
                0 <= c < n,
                0 <= i < frames * n,
        ;
    }
    assert(r =~= s);
}

/// `2` raised to the power `n`.
pub open spec fn two_pow(n: nat) -> int
    decreases n,
{
    if n == 0 {
        1
    } else {
        2 * two_pow((n - 1) as nat)
    }
}

/// Powers of two grow with their exponent.
proof fn lemma_two_pow_monotonic(a: nat, b: nat)
    requires
        a <= b,
    ensures
        1 <= two_pow(a) <= two_pow(b),
    decreases b,
{
    if b > a {
        lemma_two_pow_monotonic(a, (b - 1) as nat);
    } else if a > 0 {
        lemma_two_pow_monotonic((a - 1) as nat, (a - 1) as nat);
    }
}

/// `2^62`, the largest power of two that fits an `i64` with room to spare.
proof fn lemma_two_pow_62()
    ensures
        two_pow(62) == 0x4000_0000_0000_0000,
{
    reveal_with_fuel(two_pow, 63);
}

/// The full-scale magnitude of a signed integer sample of `bit_depth` bits:
/// `2^(bit_depth - 1)`. Integer samples are divided by it to map them onto
/// the range `[-1, 1)`.
pub fn max_value_from_bits(bit_depth: u16) -> (r: i64)
    requires
        1 <= bit_depth <= 63,
    ensures
        r == two_pow((bit_depth - 1) as nat),
{
    let mut r: i64 = 1;
    let mut i: u16 = 1;
    while i < bit_depth
        invariant
            1 <= i <= bit_depth <= 63,
            r == two_pow((i - 1) as nat),
        decreases bit_depth - i,
    {
        proof {
            lemma_two_pow_monotonic(i as nat, 62);
            lemma_two_pow_62();
        }
        r = r * 2;
        i = i + 1;
    }
    r
}

/// The full-scale value of integer samples of `bits_per_sample` bits, or
/// `None` for a depth whose full-scale value an `i64` cannot hold (or zero).
pub fn checked_full_scale(bits_per_sample: u16) -> (r: Option<i64>)
    ensures
        1 <= bits_per_sample <= 63 ==> {
            &&& r matches Some(v)
            &&& v == two_pow((bits_per_sample - 1) as nat)
        },
        !(1 <= bits_per_sample <= 63) ==> r is None,
{
    if 1 <= bits_per_sample && bits_per_sample <= 63 {
        Some(max_value_from_bits(bits_per_sample))
    } else {
        None
    }
}

/// Reads the format of WAV data and, where it holds integer samples, the
/// samples, channels interleaved, with their full-scale value.
pub fn read_wav(bytes: &[u8]) -> (r: Result<WavContents, DecodeError>)
    ensures
        r matches Ok(w) ==> w.format.channels >= 1,
        match hound_wav_format(bytes@) {
            None => r matches Err(DecodeError::InvalidWav(_)),
            Some(f) => match f.encoding {
                SampleEncoding::Float => {
                    &&& r matches Ok(w)
                    &&& w.format == f
                    &&& w.data == SampleData::<Vec<i32>>::Float
                },
                SampleEncoding::Int => if f.bits_per_sample > 63 {
                    &&& r matches Err(DecodeError::UnsupportedBitDepth(b))
                    &&& b == f.bits_per_sample
                } else {
                    match hound_int_samples(bytes@) {
                        None => r matches Err(DecodeError::InvalidWav(_)),
                        Some(s) => {
                            &&& r matches Ok(w)
                            &&& w.format == f
                            &&& w.data matches SampleData::Int { samples, full_scale }
                            &&& samples@ == s
                            &&& full_scale == two_pow((f.bits_per_sample - 1) as nat)
                            &&& (s.len() as int) % (f.channels as int) == 0
                        },
                    }
                },
            },
        },
{
    let format = match read_wav_format(bytes) {
        Ok(f) => f,
        Err(e) => return Err(DecodeError::InvalidWav(e)),
    };
    match format.encoding {
        SampleEncoding::Float => Ok(WavContents { format, data: SampleData::Float }),
        SampleEncoding::Int => {
            let full_scale = match checked_full_scale(format.bits_per_sample) {
                Some(f) => f,
                None => return Err(DecodeError::UnsupportedBitDepth(format.bits_per_sample)),
            };
            match read_int_samples(bytes) {
                Ok(samples) => Ok(WavContents { format, data: SampleData::Int { samples, full_scale } }),
                Err(e) => Err(DecodeError::InvalidWav(e)),
            }
        },
    }
}

/// Decodes WAV data into one vector of samples per channel. Integer samples
/// come with the full-scale value that maps them onto `[-1, 1)`; for
/// floating-point data only the format is read.
pub fn decode_samples(bytes: &[u8]) -> (r: Result<DecodedWav, DecodeError>)
    ensures
        match hound_wav_format(bytes@) {
            None => r matches Err(DecodeError::InvalidWav(_)),
            Some(f) => match f.encoding {
                SampleEncoding::Float => {
                    &&& r matches Ok(d)
                    &&& d.sample_rate == f.sample_rate
                    &&& d.num_channels == f.channels
                    &&& d.data == SampleData::<Vec<Vec<i32>>>::Float
                },
                SampleEncoding::Int => if f.bits_per_sample > 63 {
                    &&& r matches Err(DecodeError::UnsupportedBitDepth(b))
                    &&& b == f.bits_per_sample
                } else {
                    match hound_int_samples(bytes@) {
                        None => r matches Err(DecodeError::InvalidWav(_)),
                        Some(s) => {
                            &&& r matches Ok(d)
                            &&& d.sample_rate == f.sample_rate
                            &&& d.num_channels == f.channels
                            &&& d.data matches SampleData::Int { samples, full_scale }
                            &&& channel_views(samples@) == deinterleaved(s, f.channels as nat)
                            &&& full_scale == two_pow((f.bits_per_sample - 1) as nat)
                        },
                    }
                },
            },
        },
        r matches Ok(d) ==> d.num_channels >= 1,
{
    let contents = read_wav(bytes)?;
    let format = contents.format;
    let data = match contents.data {
        SampleData::Float => SampleData::Float,
        SampleData::Int { samples, full_scale } => {
            let channels = deinterleave(&samples, format.channels as usize);
            SampleData::Int { samples: channels, full_scale }
        },
    };
    Ok(DecodedWav { sample_rate: format.sample_rate, num_channels: format.channels, data })
}

} // verus!
