//! Guest audio playback: recognizing WAV and MP3 data, reading WAV PCM,
//! and the playback state and bounded output queue of stereo samples.
//!
//! Decoding MP3 and resampling to the output rate work on floating point
//! and happen outside this crate; the engine takes the decoded stereo PCM.
use std::collections::VecDeque;

use vstd::prelude::*;

use crate::bytes::{crc32_hash, read_u16_le, read_u32_le, spec_crc32, spec_u16_le, spec_u32_le};

verus! {

/// Output sample rate shared by every frontend (44.1 kHz stereo).
pub const AUDIO_SAMPLE_RATE: u32 = 44_100;

/// Maximum buffered samples (about 10 seconds of stereo) before the oldest
/// are dropped.
pub const MAX_QUEUED_SAMPLES: usize = 882_000;

/// What kind of audio data was submitted.
#[derive(Debug, Clone, Copy, PartialEq, Eq, Structural)]
pub enum AudioFormat {
    Wav,
    Mp3,
}

/// Why audio data was refused.
#[derive(Debug, Clone, Copy, PartialEq, Eq, Structural)]
pub enum AudioError {
    /// Neither WAV nor MP3.
    Unrecognized,
    /// The data decoded to less than one stereo frame.
    NoSamples,
    /// Not a RIFF/WAVE file.
    NotWav,
    /// The fmt chunk runs past the end of the data.
    TruncatedFmt,
    /// A WAV format other than PCM (1).
    UnsupportedFormat(u16),
    /// A WAV sample size other than 16 bits.
    UnsupportedBitDepth(u16),
    /// The fmt chunk declares no channels or a zero sample rate.
    ZeroChannelsOrRate,
    /// The fmt or the data chunk is missing.
    MissingChunk,
    /// The MP3 decoder failed.
    DecodeFailed,
    /// MP3 data, which this engine cannot decode.
    Mp3Unsupported,
    /// The track, resampled to the output rate, would not fit in memory.
    TooLong,
}

/// 16-bit PCM read from a WAV file, interleaved by channel.
#[derive(Debug)]
pub struct WavPcm {
    pub samples: Vec<i16>,
    pub channels: u32,
    pub sample_rate: u32,
}

/// Whether the data is a RIFF/WAVE file.
pub open spec fn spec_is_wav(data: Seq<u8>) -> bool {
    &&& data.len() >= 12
    &&& data[0] == 0x52 && data[1] == 0x49 && data[2] == 0x46 && data[3] == 0x46
    &&& data[8] == 0x57 && data[9] == 0x41 && data[10] == 0x56 && data[11] == 0x45
}

/// Whether the data looks like MP3: an ID3 tag or an MPEG frame sync.
pub open spec fn spec_is_mp3(data: Seq<u8>) -> bool {
    data.len() >= 2 && ((data.len() >= 3 && data[0] == 0x49 && data[1] == 0x44 && data[2] == 0x33) || (data[0]
        == 0xFF && data[1] & 0xE0 == 0xE0))
}

/// Whether the data is a RIFF/WAVE file.
pub fn is_wav(data: &[u8]) -> (res: bool)
    ensures
        res == spec_is_wav(data@),
{
    data.len() >= 12 && data[0] == 0x52 && data[1] == 0x49 && data[2] == 0x46 && data[3] == 0x46 && data[8]
        == 0x57 && data[9] == 0x41 && data[10] == 0x56 && data[11] == 0x45
}

/// Whether the data looks like MP3.
pub fn is_mp3(data: &[u8]) -> (res: bool)
    ensures
        res == spec_is_mp3(data@),
{
    data.len() >= 2 && ((data.len() >= 3 && data[0] == 0x49 && data[1] == 0x44 && data[2] == 0x33) || (data[0]
        == 0xFF && data[1] & 0xE0 == 0xE0))
}

/// Where the chunk after a chunk body of `size` bytes at `body` starts
/// (bodies are padded to even length; the sum saturates).
pub open spec fn spec_next_chunk(body: int, size: int) -> int {
    let a = if body + size > usize::MAX {
        usize::MAX as int
    } else {
        body + size
    };
    let pad = size % 2;
    if a + pad > usize::MAX {
        usize::MAX as int
    } else {
        a + pad
    }
}

/// `count` little-endian 16-bit samples at `from`.
pub open spec fn spec_pcm_samples(data: Seq<u8>, from: int, count: int) -> Seq<i16> {
    Seq::new(count as nat, |i: int| spec_u16_le(data, from + 2 * i) as u16 as i16)
}

/// Whether the four bytes at `p` spell the given tag.
pub open spec fn spec_tag(data: Seq<u8>, p: int, tag: Seq<u8>) -> bool {
    data.subrange(p, p + 4) == tag
}

/// "fmt "
pub open spec fn spec_fmt_tag() -> Seq<u8> {
    seq![0x66u8, 0x6d, 0x74, 0x20]
}

/// "data"
pub open spec fn spec_data_tag() -> Seq<u8> {
    seq![0x64u8, 0x61, 0x74, 0x61]
}

/// The WAV chunk walk from `cursor`, given the format read so far: the
/// samples of the first data chunk (cut to the bytes present), the channel
/// count and rate of the last fmt chunk before it, and whether a fmt and a
/// data chunk were found. A fmt chunk must be PCM with 16-bit samples and
/// non-zero channels and rate.
pub open spec fn spec_wav_chunks(data: Seq<u8>, cursor: int, channels: u32, rate: u32, found_fmt: bool) -> Result<
    (Seq<i16>, u32, u32, bool, bool),
    AudioError,
>
    decreases data.len() - cursor,
{
    if cursor < 0 || cursor + 8 > data.len() {
        Ok((Seq::empty(), channels, rate, found_fmt, false))
    } else {
        let size = spec_u32_le(data, cursor + 4);
        let body = cursor + 8;
        let next = spec_next_chunk(body, size);
        if spec_tag(data, cursor, spec_fmt_tag()) {
            if body + 16 > data.len() {
                Err(AudioError::TruncatedFmt)
            } else if spec_u16_le(data, body) != 1 {
                Err(AudioError::UnsupportedFormat(spec_u16_le(data, body) as u16))
            } else if spec_u16_le(data, body + 14) != 16 {
                Err(AudioError::UnsupportedBitDepth(spec_u16_le(data, body + 14) as u16))
            } else if spec_u16_le(data, body + 2) == 0 || spec_u32_le(data, body + 4) == 0 {
                Err(AudioError::ZeroChannelsOrRate)
            } else if cursor < next <= data.len() {
                spec_wav_chunks(
                    data,
                    next,
                    spec_u16_le(data, body + 2) as u32,
                    spec_u32_le(data, body + 4) as u32,
                    true,
                )
            } else {
                Ok((Seq::empty(), spec_u16_le(data, body + 2) as u32, spec_u32_le(data, body + 4) as u32, true, false))
            }
        } else if spec_tag(data, cursor, spec_data_tag()) {
            let available = data.len() - body;
            let count = if size / 2 < available / 2 {
                size / 2
            } else {
                available / 2
            };
            Ok((spec_pcm_samples(data, body, count), channels, rate, found_fmt, true))
        } else if cursor < next <= data.len() {
            spec_wav_chunks(data, next, channels, rate, found_fmt)
        } else {
            Ok((Seq::empty(), channels, rate, found_fmt, false))
        }
    }
}

/// The PCM of a WAV file: samples, channel count and sample rate.
pub open spec fn spec_parse_wav(data: Seq<u8>) -> Result<(Seq<i16>, u32, u32), AudioError> {
    if !spec_is_wav(data) {
        Err(AudioError::NotWav)
    } else {
        match spec_wav_chunks(data, 12, 0, 0, false) {
            Err(e) => Err(e),
            Ok((samples, channels, rate, found_fmt, found_data)) => if !found_fmt || !found_data {
                Err(AudioError::MissingChunk)
            } else {
                Ok((samples, channels, rate))
            },
        }
    }
}

/// Samples read from the same bytes after different prefixes are equal.
proof fn lemma_pcm_shift(p: Seq<u8>, q: Seq<u8>, t: Seq<u8>, body: int, count: int)
    requires
        0 <= body,
        0 <= count,
        body + 2 * count <= t.len(),
    ensures
        spec_pcm_samples(p + t, p.len() + body, count) == spec_pcm_samples(q + t, q.len() + body, count),
{
    let a = p + t;
    let b = q + t;
    let pa = p.len() as int;
    let qb = q.len() as int;
    assert forall|i: int| 0 <= i < count implies #[trigger] spec_pcm_samples(a, pa + body, count)[i]
        == spec_pcm_samples(b, qb + body, count)[i] by {
        assert(a[pa + body + 2 * i] == t[body + 2 * i]);
        assert(a[pa + body + 2 * i + 1] == t[body + 2 * i + 1]);
        assert(b[qb + body + 2 * i] == t[body + 2 * i]);
        assert(b[qb + body + 2 * i + 1] == t[body + 2 * i + 1]);
    }
    assert(spec_pcm_samples(a, pa + body, count) =~= spec_pcm_samples(b, qb + body, count));
}

/// The chunk walk reads only from its cursor on: the same bytes after
/// different prefixes give the same result, cursor for cursor.
#[verifier::rlimit(40)]
#[verifier::spinoff_prover]
proof fn lemma_wav_walk_shift(
    p: Seq<u8>,
    q: Seq<u8>,
    t: Seq<u8>,
    j: int,
    channels: u32,
    rate: u32,
    found_fmt: bool,
)
    requires
        0 <= j,
        (p + t).len() < usize::MAX,
        (q + t).len() < usize::MAX,
    ensures
        spec_wav_chunks(p + t, p.len() + j, channels, rate, found_fmt) == spec_wav_chunks(
            q + t,
            q.len() + j,
            channels,
            rate,
            found_fmt,
        ),
    decreases t.len() - j,
{
    let a = p + t;
    let b = q + t;
    let pa = p.len() as int;
    let qb = q.len() as int;
    if j + 8 <= t.len() {
        assert forall|k: int| j <= k < t.len() implies a[pa + k] == #[trigger] t[k] && b[qb + k] == t[k] by {}
        let size = spec_u32_le(a, pa + j + 4);
        assert(size == spec_u32_le(b, qb + j + 4));
        assert(a.subrange(pa + j, pa + j + 4) =~= b.subrange(qb + j, qb + j + 4));
        let body = j + 8;
        if body + 16 <= t.len() {
            assert(spec_u16_le(a, pa + body) == spec_u16_le(b, qb + body));
            assert(spec_u16_le(a, pa + body + 2) == spec_u16_le(b, qb + body + 2));
            assert(spec_u16_le(a, pa + body + 14) == spec_u16_le(b, qb + body + 14));
            assert(spec_u32_le(a, pa + body + 4) == spec_u32_le(b, qb + body + 4));
        }
        let available = t.len() - body;
        let count = if size / 2 < available / 2 {
            size / 2
        } else {
            available / 2
        };
        lemma_pcm_shift(p, q, t, body, count);
        let u = body + size + size % 2;
        if u <= t.len() {
            assert(spec_next_chunk(pa + body, size) == pa + u);
            assert(spec_next_chunk(qb + body, size) == qb + u);
            lemma_wav_walk_shift(p, q, t, u, channels, rate, found_fmt);
            if body + 16 <= t.len() {
                lemma_wav_walk_shift(
                    p,
                    q,
                    t,
                    u,
                    spec_u16_le(a, pa + body + 2) as u32,
                    spec_u32_le(a, pa + body + 4) as u32,
                    true,
                );
            }
        } else {
            assert(spec_next_chunk(pa + body, size) > a.len());
            assert(spec_next_chunk(qb + body, size) > b.len());
        }
    }
}

/// A well-formed chunk of any kind but `fmt ` and `data` (an 8-byte header
/// with its tag and body length, the body, and a pad byte after an odd
/// body) inserted where the chunk walk stands is skipped: the walk gives
/// the same result as without it.
pub proof fn lemma_wav_skips_unknown_chunk(
    d: Seq<u8>,
    c: int,
    header: Seq<u8>,
    body: Seq<u8>,
    pad: Seq<u8>,
    channels: u32,
    rate: u32,
    found_fmt: bool,
)
    requires
        0 <= c <= d.len(),
        header.len() == 8,
        header.subrange(0, 4) != spec_fmt_tag(),
        header.subrange(0, 4) != spec_data_tag(),
        spec_u32_le(header, 4) == body.len(),
        pad.len() == body.len() % 2,
        d.len() + header.len() + body.len() + pad.len() < usize::MAX,
    ensures
        spec_wav_chunks(
            d.subrange(0, c) + header + body + pad + d.subrange(c, d.len() as int),
            c,
            channels,
            rate,
            found_fmt,
        ) == spec_wav_chunks(d, c, channels, rate, found_fmt),
{
    let pre = d.subrange(0, c);
    let post = d.subrange(c, d.len() as int);
    let chunk = header + body + pad;
    let d2 = pre + header + body + pad + post;
    assert(d2 =~= (pre + chunk) + post);
    assert(d =~= pre + post);
    let size = body.len() as int;
    assert forall|i: int| 0 <= i < 8 implies d2[c + i] == #[trigger] header[i] by {}
    assert(spec_u32_le(d2, c + 4) == spec_u32_le(header, 4));
    assert(d2.subrange(c, c + 4) =~= header.subrange(0, 4));
    assert(spec_next_chunk(c + 8, size) == c + chunk.len());
    lemma_wav_walk_shift(pre + chunk, pre, post, 0, channels, rate, found_fmt);
}

/// Inserting a well-formed chunk of another kind than `fmt ` and `data`
/// right after the RIFF header leaves what a WAV file decodes to unchanged.
pub proof fn lemma_parse_wav_skips_unknown_chunk(d: Seq<u8>, header: Seq<u8>, body: Seq<u8>, pad: Seq<u8>)
    requires
        d.len() >= 12,
        header.len() == 8,
        header.subrange(0, 4) != spec_fmt_tag(),
        header.subrange(0, 4) != spec_data_tag(),
        spec_u32_le(header, 4) == body.len(),
        pad.len() == body.len() % 2,
        d.len() + header.len() + body.len() + pad.len() < usize::MAX,
    ensures
        spec_parse_wav(d.subrange(0, 12) + header + body + pad + d.subrange(12, d.len() as int)) == spec_parse_wav(d),
{
    let d2 = d.subrange(0, 12) + header + body + pad + d.subrange(12, d.len() as int);
    assert forall|i: int| 0 <= i < 12 implies #[trigger] d2[i] == d[i] by {}
    lemma_wav_skips_unknown_chunk(d, 12, header, body, pad, 0, 0, false);
}

/// Read the 16-bit PCM of a WAV file.
pub fn parse_wav(data: &[u8]) -> (res: Result<WavPcm, AudioError>)
    ensures
        match res {
            Ok(pcm) => spec_parse_wav(data@) == Ok::<(Seq<i16>, u32, u32), AudioError>(
                (pcm.samples@, pcm.channels, pcm.sample_rate),
            ),
            Err(e) => spec_parse_wav(data@) == Err::<(Seq<i16>, u32, u32), AudioError>(e),
        },
{
    if !is_wav(data) {
        return Err(AudioError::NotWav);
    }
    let n = data.len();
    let mut cursor: usize = 12;
    let mut channels: u32 = 0;
    let mut rate: u32 = 0;
    let mut found_fmt = false;
    while cursor <= n && n - cursor >= 8
        invariant
            n == data@.len(),
            spec_is_wav(data@),
            12 <= cursor,
            spec_wav_chunks(data@, 12, 0, 0, false) == spec_wav_chunks(data@, cursor as int, channels, rate, found_fmt),
        decreases usize::MAX - cursor,
    {
        let size = read_u32_le(data, cursor + 4) as usize;
        let body = cursor + 8;
        let is_fmt = data[cursor] == 0x66 && data[cursor + 1] == 0x6d && data[cursor + 2] == 0x74 && data[cursor + 3]
            == 0x20;
        let is_data = data[cursor] == 0x64 && data[cursor + 1] == 0x61 && data[cursor + 2] == 0x74 && data[cursor + 3]
            == 0x61;
        assert(is_fmt == spec_tag(data@, cursor as int, spec_fmt_tag())) by {
            assert(is_fmt == (data@.subrange(cursor as int, cursor + 4) =~= spec_fmt_tag()));
        }
        assert(is_data == spec_tag(data@, cursor as int, spec_data_tag())) by {
            assert(is_data == (data@.subrange(cursor as int, cursor + 4) =~= spec_data_tag()));
        }
        if is_fmt {
            if n - body < 16 {
                return Err(AudioError::TruncatedFmt);
            }
            let format = read_u16_le(data, body);
            if format != 1 {
                return Err(AudioError::UnsupportedFormat(format));
            }
            let ch = read_u16_le(data, body + 2) as u32;
            let r = read_u32_le(data, body + 4);
            let bits = read_u16_le(data, body + 14);
            if bits != 16 {
                return Err(AudioError::UnsupportedBitDepth(bits));
            }
            if ch == 0 || r == 0 {
                return Err(AudioError::ZeroChannelsOrRate);
            }
            channels = ch;
            rate = r;
            found_fmt = true;
        } else if is_data {
            let available = n - body;
            let count = if size / 2 < available / 2 {
                size / 2
            } else {
                available / 2
            };
            let mut samples: Vec<i16> = Vec::new();
            let mut k: usize = 0;
            while k < count
                invariant
                    n == data@.len(),
                    body + 2 * count <= n,
                    k <= count,
                    samples@ =~= spec_pcm_samples(data@, body as int, k as int),
                decreases count - k,
            {
                let v = read_u16_le(data, body + 2 * k);
                samples.push(v as i16);
                k = k + 1;
            }
            if !found_fmt {
                return Err(AudioError::MissingChunk);
            }
            return Ok(WavPcm { samples, channels, sample_rate: rate });
        }
        let padded = if size > usize::MAX - body {
            usize::MAX
        } else {
            body + size
        };
        let pad = size % 2;
        cursor = if pad > usize::MAX - padded {
            usize::MAX
        } else {
            padded + pad
        };
    }
    Err(AudioError::MissingChunk)
}

/// The engine's state: volume, playback flags, queued samples and
/// counters.
pub ghost struct AudioView {
    pub volume: u32,
    pub playing: bool,
    pub paused: bool,
    pub samples: Seq<i16>,
    pub submitted_bytes: u64,
    pub decoded_frames: u64,
    pub nonzero_samples: u64,
    pub rejected_writes: u64,
    pub underflow_frames: u64,
    pub max_buffered_frames: u64,
}

/// `a + b`, saturating at `u64::MAX`.
pub open spec fn spec_sat_add(a: u64, b: int) -> u64 {
    if a + b > u64::MAX {
        u64::MAX
    } else {
        (a + b) as u64
    }
}

/// Number of non-zero samples.
pub open spec fn spec_nonzero_count(s: Seq<i16>) -> int
    decreases s.len(),
{
    if s.len() == 0 {
        0
    } else {
        spec_nonzero_count(s.drop_last()) + if s.last() != 0 {
            1int
        } else {
            0
        }
    }
}

/// A sample scaled by a volume percentage, rounding toward zero.
pub open spec fn spec_scale(sample: i16, volume: u32) -> i16 {
    let p = sample as int * volume as int;
    (if p >= 0 {
        p / 100
    } else {
        -((-p) / 100)
    }) as i16
}

/// The queue after appending samples and dropping the oldest beyond the
/// limit.
pub open spec fn spec_enqueue(queue: Seq<i16>, added: Seq<i16>) -> Seq<i16> {
    let all = queue + added;
    if all.len() > MAX_QUEUED_SAMPLES {
        all.subrange(all.len() - MAX_QUEUED_SAMPLES, all.len() as int)
    } else {
        all
    }
}

/// The whole stereo frames of interleaved samples: a trailing half frame
/// is left out.
pub open spec fn spec_whole_frames(samples: Seq<i16>) -> Seq<i16> {
    samples.subrange(0, 2 * (samples.len() / 2) as int)
}

/// Samples as little-endian bytes, two per sample.
pub open spec fn spec_sample_bytes(samples: Seq<i16>) -> Seq<u8>
    decreases samples.len(),
{
    if samples.len() == 0 {
        Seq::empty()
    } else {
        let u = samples.last() as u16;
        spec_sample_bytes(samples.drop_last()).push(u as u8).push((u >> 8u16) as u8)
    }
}

/// The sum of the squares of the samples.
pub open spec fn spec_sum_squares(samples: Seq<i16>) -> int
    decreases samples.len(),
{
    if samples.len() == 0 {
        0
    } else {
        spec_sum_squares(samples.drop_last()) + samples.last() * samples.last()
    }
}

/// The sum of squares is at most 2^30 per sample.
proof fn lemma_sum_squares_bound(samples: Seq<i16>)
    ensures
        0 <= spec_sum_squares(samples) <= samples.len() * 0x4000_0000,
    decreases samples.len(),
{
    if samples.len() > 0 {
        lemma_sum_squares_bound(samples.drop_last());
        let x = samples.last();
        assert(0 <= x * x <= 0x4000_0000) by (nonlinear_arith)
            requires
                -32768 <= x <= 32767,
        ;
    }
}

/// Deterministic evidence about accepted and consumed audio: the output
/// format, the volume, the counters, the CRC-32 of the queued samples as
/// little-endian bytes, and the sum of their squares with their number
/// (from which a host computes the RMS amplitude).
#[derive(Debug, Clone, Copy, PartialEq, Eq)]
pub struct AudioDiagnostics {
    pub sample_rate: u32,
    pub channels: u16,
    pub volume: u32,
    pub submitted_bytes: u64,
    pub decoded_frames: u64,
    pub nonzero_samples: u64,
    pub rejected_writes: u64,
    pub underflow_frames: u64,
    pub max_buffered_frames: u64,
    pub pcm_crc32: u32,
    pub sum_squares: u64,
    pub queued_samples: u64,
}

/// Integer division rounding toward zero, for a positive divisor.
pub open spec fn spec_div_toward_zero(a: int, d: int) -> int {
    if a >= 0 {
        a / d
    } else {
        -((-a) / d)
    }
}

/// One output sample: the linear blend of `first` and `second` at the
/// fraction `num / den` of the way between them, taken as a fraction of
/// full scale and written back at 32767 steps per full scale, rounded
/// toward zero.
pub open spec fn spec_blend(first: i16, second: i16, num: int, den: int) -> i16 {
    spec_div_toward_zero((first * den + (second - first) * num) * 32767, 32768 * den) as i16
}

/// The number of output frames for `frames` input frames: the input's
/// duration at the output rate, rounded up.
pub open spec fn spec_output_frames(frames: int, input_rate: int, output_rate: int) -> int {
    (frames * output_rate + input_rate - 1) / input_rate
}

/// Interleaved PCM with `channels` channels at `input_rate`, resampled
/// linearly to interleaved stereo at `output_rate`: output frame `f` sits
/// at input position `f * input_rate / output_rate`, blends the frame there
/// with the next one (the last frame stands for frames past the end), and
/// takes its left and right channels from the first two input channels
/// (a mono input feeds both). Empty when there is no sample, channel or
/// rate, or no whole frame.
pub open spec fn spec_resample(samples: Seq<i16>, channels: int, input_rate: int, output_rate: int) -> Seq<i16> {
    let frames: int = if channels > 0 { samples.len() as int / channels } else { 0 };
    if samples.len() == 0 || channels <= 0 || input_rate <= 0 || output_rate <= 0 || frames == 0 {
        Seq::empty()
    } else {
        Seq::new(
            (2 * spec_output_frames(frames, input_rate, output_rate)) as nat,
            |k: int|
                {
                    let f = k / 2;
                    let channel = if k % 2 < channels - 1 { k % 2 } else { channels - 1 };
                    let position = f * input_rate;
                    let source = position / output_rate;
                    let at = if source < frames - 1 { source } else { frames - 1 };
                    let next = if source + 1 < frames - 1 { source + 1 } else { frames - 1 };
                    spec_blend(
                        samples[at * channels + channel],
                        samples[next * channels + channel],
                        position % output_rate,
                        output_rate,
                    )
                },
        )
    }
}

/// One output sample (see `spec_blend`).
fn blend(first: i16, second: i16, num: u64, den: u64) -> (res: i16)
    requires
        0 < den <= u32::MAX,
        num < den,
    ensures
        res == spec_blend(first, second, num as int, den as int),
{
    let f = first as i128;
    let d = den as i128;
    let n = num as i128;
    let diff = second as i128 - f;
    assert(-0x1_0000 * 0x1_0000_0000 <= diff * n <= 0x1_0000 * 0x1_0000_0000) by (nonlinear_arith)
        requires
            -0x1_0000 <= diff <= 0x1_0000,
            0 <= n < 0x1_0000_0000,
    ;
    assert(-0x8000 * 0x1_0000_0000 <= f * d <= 0x8000 * 0x1_0000_0000) by (nonlinear_arith)
        requires
            -0x8000 <= f <= 0x8000,
            0 <= d <= 0x1_0000_0000,
    ;
    let blended = f * d + diff * n;
    assert(blended == first * den + (second - first) * num);
    let scaled = blended * 32767;
    let divisor = 32768 * d;
    let value = if scaled >= 0 {
        scaled / divisor
    } else {
        -((-scaled) / divisor)
    };
    proof {
        // The blend lies between the two samples, so the result fits.
        let fi = first as int;
        let si = second as int;
        let di = den as int;
        let ni = num as int;
        let bi = fi * di + (si - fi) * ni;
        assert(blended as int == bi);
        assert(-0x8000 * di <= bi <= 0x7fff * di) by (nonlinear_arith)
            requires
                bi == fi * di + (si - fi) * ni,
                -0x8000 <= fi <= 0x7fff,
                -0x8000 <= si <= 0x7fff,
                0 <= ni < di,
        ;
        let sc = bi * 32767;
        assert(scaled as int == sc);
        assert(divisor as int == 32768 * di);
        if sc >= 0 {
            assert(sc / (32768 * di) <= 32767) by (nonlinear_arith)
                requires
                    0 <= sc,
                    sc == bi * 32767,
                    bi <= 0x7fff * di,
                    di > 0,
            ;
        } else {
            assert((0 - sc) / (32768 * di) <= 32767) by (nonlinear_arith)
                requires
                    sc < 0,
                    sc == bi * 32767,
                    -0x8000 * di <= bi,
                    di > 0,
            ;
        }
    }
    value as i16
}

/// Resample interleaved PCM to interleaved stereo at the output rate (see
/// `spec_resample`).
pub fn resample_to_stereo(samples: &[i16], channels: usize, input_rate: u32, output_rate: u32) -> (res: Vec<i16>)
    requires
        channels > 0 && input_rate > 0 && output_rate > 0 ==> (samples@.len() as int / channels as int) * output_rate
            <= u64::MAX,
        channels > 0 && input_rate > 0 && output_rate > 0 ==> 2 * spec_output_frames(
            samples@.len() as int / channels as int,
            input_rate as int,
            output_rate as int,
        ) <= usize::MAX,
    ensures
        res@ == spec_resample(samples@, channels as int, input_rate as int, output_rate as int),
{
    if samples.len() == 0 || channels == 0 || input_rate == 0 || output_rate == 0 {
        return Vec::new();
    }
    let frames = samples.len() / channels;
    if frames == 0 {
        return Vec::new();
    }
    let sample_count: usize = samples.len();
    let ghost out_frames = spec_output_frames(frames as int, input_rate as int, output_rate as int);
    let total: u64 = frames as u64 * output_rate as u64;
    assert(total + input_rate - 1 <= u64::MAX + u32::MAX);
    assert(total as int % (input_rate as int) != 0 ==> total as int / (input_rate as int) < u64::MAX) by (nonlinear_arith)
        requires
            input_rate > 0,
            0 <= total <= u64::MAX,
    ;
    let output_frames: u64 = total / input_rate as u64 + if total % input_rate as u64 != 0 {
        1
    } else {
        0
    };
    assert(output_frames == out_frames) by (nonlinear_arith)
        requires
            total == frames * output_rate,
            out_frames == (frames * output_rate + input_rate - 1) / (input_rate as int),
            input_rate > 0,
            output_frames == total as int / (input_rate as int) + if total as int % (input_rate as int) != 0 { 1int } else { 0int },
    ;
    let ghost expected = spec_resample(samples@, channels as int, input_rate as int, output_rate as int);
    let mut output: Vec<i16> = Vec::new();
    let mut f: u64 = 0;
    while f < output_frames
        invariant
            frames == samples@.len() as int / channels as int,
            sample_count == samples@.len(),
            0 < frames,
            channels > 0,
            input_rate > 0,
            output_rate > 0,
            output_frames == out_frames,
            out_frames == spec_output_frames(frames as int, input_rate as int, output_rate as int),
            2 * out_frames <= usize::MAX,
            frames * output_rate <= u64::MAX,
            f <= output_frames,
            expected == spec_resample(samples@, channels as int, input_rate as int, output_rate as int),
            expected.len() == 2 * out_frames,
            output@ == expected.subrange(0, 2 * f as int),
        decreases output_frames - f,
    {
        assert(f * input_rate < frames * output_rate) by (nonlinear_arith)
            requires
                f < out_frames,
                out_frames == (frames * output_rate + input_rate - 1) / (input_rate as int),
                input_rate > 0,
        ;
        let position: u64 = f * input_rate as u64;
        let source: u64 = position / output_rate as u64;
        let num: u64 = position % output_rate as u64;
        let last: u64 = frames as u64 - 1;
        let at: u64 = if source < last {
            source
        } else {
            last
        };
        let next: u64 = if source + 1 < last {
            source + 1
        } else {
            last
        };
        let at_index: usize = at as usize;
        let next_index: usize = next as usize;
        let mut channel: usize = 0;
        while channel < 2
            invariant
                frames == samples@.len() as int / channels as int,
                sample_count == samples@.len(),
                0 < frames,
                channels > 0,
                output_rate > 0,
                at < frames,
                next < frames,
                at_index == at,
                next_index == next,
                num < output_rate,
                channel <= 2,
                f < out_frames,
                expected.len() == 2 * out_frames,
                2 * out_frames <= usize::MAX,
                position == f * input_rate,
                source == position as int / (output_rate as int),
                num == position as int % (output_rate as int),
                at == (if source < frames - 1 { source as int } else { frames - 1 }),
                next == (if source + 1 < frames - 1 { source + 1 } else { frames - 1 }),
                expected == spec_resample(samples@, channels as int, input_rate as int, output_rate as int),
                output@ == expected.subrange(0, 2 * f + channel),
            decreases 2 - channel,
        {
            let source_channel: usize = if channel < channels - 1 {
                channel
            } else {
                channels - 1
            };
            proof {
                let len = samples@.len() as int;
                let c = channels as int;
                assert(frames * c <= len) by (nonlinear_arith)
                    requires
                        frames == len / c,
                        c > 0,
                ;
                assert(at_index * c + source_channel < frames * c) by (nonlinear_arith)
                    requires
                        at_index < frames,
                        source_channel < c,
                ;
                assert(next_index * c + source_channel < frames * c) by (nonlinear_arith)
                    requires
                        next_index < frames,
                        source_channel < c,
                ;
            }
            let first_index: usize = at_index * channels + source_channel;
            let second_index: usize = next_index * channels + source_channel;
            let first = samples[first_index];
            let second = samples[second_index];
            let value = blend(first, second, num, output_rate as u64);
            proof {
                let k = 2 * f + channel;
                assert(k / 2 == f);
                assert(k % 2 == channel);
                assert(expected[k] == value);
            }
            output.push(value);
            assert(output@ =~= expected.subrange(0, 2 * f + channel + 1));
            channel = channel + 1;
        }
        f = f + 1;
    }
    assert(output@ =~= expected);
    output
}

/// Queueing decoded stereo PCM: less than one frame is refused and counted
/// as a rejected write; otherwise its whole frames join the queue (the
/// oldest samples dropped beyond the limit), the counters grow and the
/// engine plays.
pub open spec fn spec_queue_decoded(a: AudioView, decoded: Seq<i16>) -> (Result<(), AudioError>, AudioView) {
    if decoded.len() < 2 {
        (Err(AudioError::NoSamples), AudioView { rejected_writes: spec_sat_add(a.rejected_writes, 1), ..a })
    } else {
        let whole = spec_whole_frames(decoded);
        let queue = spec_enqueue(a.samples, whole);
        (
            Ok(()),
            AudioView {
                playing: true,
                paused: false,
                samples: queue,
                decoded_frames: spec_sat_add(a.decoded_frames, (decoded.len() / 2) as int),
                nonzero_samples: spec_sat_add(a.nonzero_samples, spec_nonzero_count(whole)),
                max_buffered_frames: if a.max_buffered_frames >= queue.len() / 2 {
                    a.max_buffered_frames
                } else {
                    (queue.len() / 2) as u64
                },
                ..a
            },
        )
    }
}

/// Whether PCM of `count` samples with `channels` channels at `rate`
/// can be resampled to the output rate within the machine's integers.
pub open spec fn spec_resample_fits(count: int, channels: int, rate: int) -> bool {
    channels > 0 && rate > 0 ==> (count / channels) * AUDIO_SAMPLE_RATE <= u64::MAX && 2 * spec_output_frames(
        count / channels,
        rate,
        AUDIO_SAMPLE_RATE as int,
    ) <= usize::MAX
}

/// Playing audio data: the submitted bytes are counted; a WAV file is
/// decoded, resampled to stereo at the output rate and queued (see
/// `spec_queue_decoded`); MP3 data gives `Mp3Unsupported`; other data is
/// refused as `Unrecognized` and counted as a rejected write. A WAV error,
/// or a track too long to resample, is returned with nothing queued.
pub open spec fn spec_play_bytes(a: AudioView, data: Seq<u8>) -> (Result<(), AudioError>, AudioView) {
    let a1 = AudioView { submitted_bytes: spec_sat_add(a.submitted_bytes, data.len() as int), ..a };
    if spec_is_wav(data) {
        match spec_parse_wav(data) {
            Err(e) => (Err(e), a1),
            Ok((samples, channels, rate)) => if !spec_resample_fits(samples.len() as int, channels as int, rate as int) {
                (Err(AudioError::TooLong), a1)
            } else {
                spec_queue_decoded(
                    a1,
                    spec_resample(samples, channels as int, rate as int, AUDIO_SAMPLE_RATE as int),
                )
            },
        }
    } else if spec_is_mp3(data) {
        (Err(AudioError::Mp3Unsupported), a1)
    } else {
        (Err(AudioError::Unrecognized), AudioView { rejected_writes: spec_sat_add(a1.rejected_writes, 1), ..a1 })
    }
}

/// Whether a resampling fits (see `spec_resample_fits`).
fn resample_fits(count: usize, channels: u32, rate: u32) -> (res: bool)
    ensures
        res == spec_resample_fits(count as int, channels as int, rate as int),
{
    if channels == 0 || rate == 0 {
        return true;
    }
    let frames = (count / channels as usize) as u128;
    assert(frames * 44_100 <= 0xffff_ffff_ffff_ffff * 44_100) by (nonlinear_arith)
        requires
            frames <= 0xffff_ffff_ffff_ffff,
    ;
    let total = frames * AUDIO_SAMPLE_RATE as u128;
    if total > u64::MAX as u128 {
        return false;
    }
    let out_frames = (total + rate as u128 - 1) / rate as u128;
    out_frames * 2 <= usize::MAX as u128
}

/// Guest audio playback state and output queue.
#[derive(Debug)]
pub struct AudioEngine {
    volume: u32,
    playing: bool,
    paused: bool,
    samples: VecDeque<i16>,
    submitted_bytes: u64,
    decoded_frames: u64,
    nonzero_samples: u64,
    rejected_writes: u64,
    underflow_frames: u64,
    max_buffered_frames: u64,
}

impl View for AudioEngine {
    type V = AudioView;

    closed spec fn view(&self) -> AudioView {
        AudioView {
            volume: self.volume,
            playing: self.playing,
            paused: self.paused,
            samples: self.samples@,
            submitted_bytes: self.submitted_bytes,
            decoded_frames: self.decoded_frames,
            nonzero_samples: self.nonzero_samples,
            rejected_writes: self.rejected_writes,
            underflow_frames: self.underflow_frames,
            max_buffered_frames: self.max_buffered_frames,
        }
    }
}

/// Number of non-zero samples.
fn count_nonzero(decoded: &Vec<i16>) -> (res: u64)
    ensures
        res == spec_nonzero_count(decoded@),
{
    let mut nonzero: u64 = 0;
    let mut k: usize = 0;
    while k < decoded.len()
        invariant
            k <= decoded@.len(),
            nonzero <= k,
            nonzero == spec_nonzero_count(decoded@.subrange(0, k as int)),
        decreases decoded@.len() - k,
    {
        assert(decoded@.subrange(0, k + 1).drop_last() =~= decoded@.subrange(0, k as int));
        if decoded[k] != 0 {
            nonzero = nonzero + 1;
        }
        k = k + 1;
    }
    assert(decoded@.subrange(0, decoded@.len() as int) =~= decoded@);
    nonzero
}

/// Append samples to the queue, dropping the oldest beyond the limit.
fn enqueue_all(queue: &mut VecDeque<i16>, added: &Vec<i16>)
    requires
        old(queue)@.len() <= MAX_QUEUED_SAMPLES,
    ensures
        final(queue)@ == spec_enqueue(old(queue)@, added@),
        final(queue)@.len() <= MAX_QUEUED_SAMPLES,
        old(queue)@.len() % 2 == 0 && added@.len() % 2 == 0 ==> final(queue)@.len() % 2 == 0,
{
    let ghost before = queue@;
    let mut i: usize = 0;
    assert(before + added@.subrange(0, 0) =~= before);
    while i < added.len()
        invariant
            i <= added@.len(),
            before == old(queue)@,
            before.len() <= MAX_QUEUED_SAMPLES,
            queue@ == spec_enqueue(before, added@.subrange(0, i as int)),
            queue@.len() <= MAX_QUEUED_SAMPLES,
        decreases added@.len() - i,
    {
        queue.push_back(added[i]);
        if queue.len() > MAX_QUEUED_SAMPLES {
            queue.pop_front();
        }
        proof {
            let all = before + added@.subrange(0, i + 1);
            let prev_all = before + added@.subrange(0, i as int);
            assert(all =~= prev_all.push(added@[i as int]));
            if prev_all.len() > MAX_QUEUED_SAMPLES {
                assert(queue@ =~= all.subrange(all.len() - MAX_QUEUED_SAMPLES, all.len() as int));
            } else if all.len() > MAX_QUEUED_SAMPLES {
                assert(queue@ =~= all.subrange(all.len() - MAX_QUEUED_SAMPLES, all.len() as int));
            } else {
                assert(queue@ =~= all);
            }
        }
        i = i + 1;
    }
    assert(added@.subrange(0, added@.len() as int) =~= added@);
}

/// A sample scaled by a volume percentage, rounding toward zero.
fn scale_sample(sample: i16, volume: u32) -> (res: i16)
    requires
        volume <= 100,
    ensures
        res == spec_scale(sample, volume),
{
    let v = volume as i32;
    assert(-3_276_800 <= sample as int * v as int <= 3_276_700) by (nonlinear_arith)
        requires
            0 <= v <= 100,
            -32768 <= sample <= 32767,
    ;
    let p = sample as i32 * v;
    let scaled = if p >= 0 {
        p / 100
    } else {
        -((-p) / 100)
    };
    scaled as i16
}

impl AudioEngine {
    /// The volume is a percentage and the queue stays within its limit.
    pub open spec fn wf(&self) -> bool {
        &&& self@.volume <= 100
        &&& self@.samples.len() <= MAX_QUEUED_SAMPLES
        &&& self@.samples.len() % 2 == 0
    }

    /// A stopped engine at full volume with an empty queue.
    pub fn new() -> (res: Self)
        ensures
            res.wf(),
            res@ == (AudioView {
                volume: 100,
                playing: false,
                paused: false,
                samples: Seq::empty(),
                submitted_bytes: 0,
                decoded_frames: 0,
                nonzero_samples: 0,
                rejected_writes: 0,
                underflow_frames: 0,
                max_buffered_frames: 0,
            }),
    {
        AudioEngine {
            volume: 100,
            playing: false,
            paused: false,
            samples: VecDeque::new(),
            submitted_bytes: 0,
            decoded_frames: 0,
            nonzero_samples: 0,
            rejected_writes: 0,
            underflow_frames: 0,
            max_buffered_frames: 0,
        }
    }

    /// Set the playback volume, clamped to 0-100.
    pub fn set_volume(&mut self, volume: u32)
        requires
            old(self).wf(),
        ensures
            final(self).wf(),
            final(self)@ == (AudioView {
                volume: if volume < 100 {
                    volume
                } else {
                    100
                },
                ..old(self)@
            }),
    {
        self.volume = if volume < 100 {
            volume
        } else {
            100
        };
    }

    /// The playback volume.
    pub fn volume(&self) -> (res: u32)
        ensures
            res == self@.volume,
    {
        self.volume
    }

    /// Count one rejected write (saturating).
    fn count_rejected(&mut self)
        requires
            old(self).wf(),
        ensures
            final(self).wf(),
            final(self)@ == (AudioView {
                rejected_writes: spec_sat_add(old(self)@.rejected_writes, 1),
                ..old(self)@
            }),
    {
        if self.rejected_writes < u64::MAX {
            self.rejected_writes = self.rejected_writes + 1;
        }
    }

    /// Play audio data (see `spec_play_bytes`): account for it, decode a
    /// WAV file, resample it to stereo at the output rate and queue it. MP3
    /// data is refused with `Mp3Unsupported`, other data with
    /// `Unrecognized`; a WAV error is returned as it is.
    pub fn play_bytes(&mut self, data: &[u8]) -> (res: Result<(), AudioError>)
        requires
            old(self).wf(),
        ensures
            final(self).wf(),
            (res, final(self)@) == spec_play_bytes(old(self)@, data@),
    {
        let format = match self.submit(data) {
            Ok(f) => f,
            Err(e) => return Err(e),
        };
        match format {
            AudioFormat::Mp3 => Err(AudioError::Mp3Unsupported),
            AudioFormat::Wav => {
                let pcm = match parse_wav(data) {
                    Ok(p) => p,
                    Err(e) => return Err(e),
                };
                if !resample_fits(pcm.samples.len(), pcm.channels, pcm.sample_rate) {
                    return Err(AudioError::TooLong);
                }
                let stereo = resample_to_stereo(
                    pcm.samples.as_slice(),
                    pcm.channels as usize,
                    pcm.sample_rate,
                    AUDIO_SAMPLE_RATE,
                );
                self.queue_decoded(stereo)
            },
        }
    }

    /// Account for submitted audio data and tell WAV from MP3; anything else
    /// is refused and counted as a rejected write (the count saturates).
    pub fn submit(&mut self, data: &[u8]) -> (res: Result<AudioFormat, AudioError>)
        requires
            old(self).wf(),
        ensures
            final(self).wf(),
            spec_is_wav(data@) ==> res == Ok::<AudioFormat, AudioError>(AudioFormat::Wav),
            !spec_is_wav(data@) && spec_is_mp3(data@) ==> res == Ok::<AudioFormat, AudioError>(AudioFormat::Mp3),
            !spec_is_wav(data@) && !spec_is_mp3(data@) ==> res == Err::<AudioFormat, AudioError>(
                AudioError::Unrecognized,
            ),
            final(self)@ == (AudioView {
                submitted_bytes: spec_sat_add(old(self)@.submitted_bytes, data@.len() as int),
                rejected_writes: if res is Err {
                    spec_sat_add(old(self)@.rejected_writes, 1)
                } else {
                    old(self)@.rejected_writes
                },
                ..old(self)@
            }),
    {
        let len = data.len() as u64;
        self.submitted_bytes = if self.submitted_bytes > u64::MAX - len {
            u64::MAX
        } else {
            self.submitted_bytes + len
        };
        if is_wav(data) {
            Ok(AudioFormat::Wav)
        } else if is_mp3(data) {
            Ok(AudioFormat::Mp3)
        } else {
            self.count_rejected();
            Err(AudioError::Unrecognized)
        }
    }

    /// Queue decoded stereo PCM (its whole frames) and start playing. Less
    /// than one frame is refused and counted as a rejected write; when the
    /// queue outgrows its limit the oldest samples are dropped, so it always
    /// holds whole frames.
    pub fn queue_decoded(&mut self, decoded: Vec<i16>) -> (res: Result<(), AudioError>)
        requires
            old(self).wf(),
        ensures
            final(self).wf(),
            (res, final(self)@) == spec_queue_decoded(old(self)@, decoded@),
    {
        let ghost old_decoded = decoded@;
        let frames = decoded.len() / 2;
        if frames == 0 {
            self.count_rejected();
            return Err(AudioError::NoSamples);
        }
        let mut decoded = decoded;
        if decoded.len() % 2 == 1 {
            decoded.pop();
        }
        assert(decoded@ =~= spec_whole_frames(old_decoded));
        let nonzero = count_nonzero(&decoded);
        self.nonzero_samples = if self.nonzero_samples > u64::MAX - nonzero {
            u64::MAX
        } else {
            self.nonzero_samples + nonzero
        };
        let frames64 = frames as u64;
        self.decoded_frames = if self.decoded_frames > u64::MAX - frames64 {
            u64::MAX
        } else {
            self.decoded_frames + frames64
        };
        enqueue_all(&mut self.samples, &decoded);
        let buffered = (self.samples.len() / 2) as u64;
        if buffered > self.max_buffered_frames {
            self.max_buffered_frames = buffered;
        }
        self.playing = true;
        self.paused = false;
        Ok(())
    }

    /// Pause playback.
    pub fn pause(&mut self)
        requires
            old(self).wf(),
        ensures
            final(self).wf(),
            final(self)@ == (AudioView { paused: true, ..old(self)@ }),
    {
        self.paused = true;
    }

    /// Resume playback.
    pub fn resume(&mut self)
        requires
            old(self).wf(),
        ensures
            final(self).wf(),
            final(self)@ == (AudioView { paused: false, ..old(self)@ }),
    {
        self.paused = false;
    }

    /// Stop playback and drop the queued samples.
    pub fn stop(&mut self)
        requires
            old(self).wf(),
        ensures
            final(self).wf(),
            final(self)@ == (AudioView { playing: false, paused: false, samples: Seq::empty(), ..old(self)@ }),
    {
        self.samples.clear();
        self.playing = false;
        self.paused = false;
    }

    /// Number of queued stereo frames.
    pub fn buffered_frames(&self) -> (res: usize)
        ensures
            res == self@.samples.len() / 2,
    {
        self.samples.len() / 2
    }

    /// Playback state: 0 stopped, 1 playing, 2 paused.
    pub fn state(&self) -> (res: u32)
        ensures
            res == spec_state(self@),
    {
        if self.paused {
            2
        } else if self.playing {
            1
        } else {
            0
        }
    }

    /// Deterministic evidence about accepted and consumed audio (see
    /// `AudioDiagnostics`).
    pub fn diagnostics(&self) -> (res: AudioDiagnostics)
        requires
            self.wf(),
        ensures
            res.sample_rate == AUDIO_SAMPLE_RATE,
            res.channels == 2,
            res.volume == self@.volume,
            res.submitted_bytes == self@.submitted_bytes,
            res.decoded_frames == self@.decoded_frames,
            res.nonzero_samples == self@.nonzero_samples,
            res.rejected_writes == self@.rejected_writes,
            res.underflow_frames == self@.underflow_frames,
            res.max_buffered_frames == self@.max_buffered_frames,
            res.pcm_crc32 == spec_crc32(spec_sample_bytes(self@.samples)),
            res.sum_squares == spec_sum_squares(self@.samples),
            res.queued_samples == self@.samples.len(),
    {
        let n = self.samples.len();
        let mut bytes: Vec<u8> = Vec::new();
        let mut sum: u64 = 0;
        let mut k: usize = 0;
        while k < n
            invariant
                n == self@.samples.len(),
                n <= MAX_QUEUED_SAMPLES,
                k <= n,
                bytes@ == spec_sample_bytes(self@.samples.subrange(0, k as int)),
                sum == spec_sum_squares(self@.samples.subrange(0, k as int)),
            decreases n - k,
        {
            let x = self.samples[k];
            proof {
                let prefix = self@.samples.subrange(0, k + 1);
                assert(prefix.drop_last() =~= self@.samples.subrange(0, k as int));
                assert(prefix.last() == x);
                assert(0 <= x * x <= 0x4000_0000) by (nonlinear_arith)
                    requires
                        -32768 <= x <= 32767,
                ;
                lemma_sum_squares_bound(prefix);
                assert(prefix.len() * 0x4000_0000 <= MAX_QUEUED_SAMPLES * 0x4000_0000) by (nonlinear_arith)
                    requires
                        prefix.len() <= MAX_QUEUED_SAMPLES,
                ;
            }
            let u = x as u16;
            bytes.push(#[verifier::truncate] (u as u8));
            bytes.push((u >> 8u16) as u8);
            let square = x as i64 * x as i64;
            sum = sum + square as u64;
            k = k + 1;
        }
        assert(self@.samples.subrange(0, n as int) =~= self@.samples);
        AudioDiagnostics {
            sample_rate: AUDIO_SAMPLE_RATE,
            channels: 2,
            volume: self.volume,
            submitted_bytes: self.submitted_bytes,
            decoded_frames: self.decoded_frames,
            nonzero_samples: self.nonzero_samples,
            rejected_writes: self.rejected_writes,
            underflow_frames: self.underflow_frames,
            max_buffered_frames: self.max_buffered_frames,
            pcm_crc32: crc32_hash(bytes.as_slice()),
            sum_squares: sum,
            queued_samples: n as u64,
        }
    }

    /// Take up to `max_frames` stereo frames from the queue, scaled by the
    /// volume. A stopped or paused engine gives nothing; an empty queue
    /// while playing counts the frames as underflow.
    pub fn pull_samples(&mut self, max_frames: usize) -> (res: Vec<i16>)
        requires
            old(self).wf(),
            2 * max_frames <= usize::MAX,
        ensures
            final(self).wf(),
            !old(self)@.playing || old(self)@.paused ==> res@.len() == 0 && final(self)@ == old(self)@,
            old(self)@.playing && !old(self)@.paused && old(self)@.samples.len() == 0 ==> res@.len() == 0
                && final(self)@ == (AudioView {
                underflow_frames: spec_sat_add(old(self)@.underflow_frames, max_frames as int),
                ..old(self)@
            }),
            old(self)@.playing && !old(self)@.paused && old(self)@.samples.len() > 0 ==> {
                let n = if 2 * max_frames < old(self)@.samples.len() {
                    2 * max_frames
                } else {
                    old(self)@.samples.len() as int
                };
                &&& res@.len() == n
                &&& forall|i: int| 0 <= i < n ==> #[trigger] res@[i] == spec_scale(old(self)@.samples[i], old(self)@.volume)
                &&& final(self)@ == (AudioView {
                    samples: old(self)@.samples.subrange(n, old(self)@.samples.len() as int),
                    ..old(self)@
                })
            },
    {
        if !self.playing || self.paused {
            return Vec::new();
        }
        if self.samples.len() == 0 {
            let m = max_frames as u64;
            self.underflow_frames = if self.underflow_frames > u64::MAX - m {
                u64::MAX
            } else {
                self.underflow_frames + m
            };
            return Vec::new();
        }
        let take = max_frames * 2;
        let ghost start = self.samples@;
        let mut output: Vec<i16> = Vec::new();
        let mut k: usize = 0;
        assert(start.subrange(0, start.len() as int) =~= start);
        assert(self@ =~= (AudioView { samples: start.subrange(0, start.len() as int), ..old(self)@ }));
        while k < take && self.samples.len() > 0
            invariant
                k <= take,
                self.volume <= 100,
                k <= start.len(),
                start == old(self)@.samples,
                self@ == (AudioView { samples: start.subrange(k as int, start.len() as int), ..old(self)@ }),
                output@.len() == k,
                forall|i: int| 0 <= i < k ==> #[trigger] output@[i] == spec_scale(start[i], self.volume),
            decreases take - k,
        {
            let sample = match self.samples.pop_front() {
                Some(s) => s,
                None => 0,
            };
            assert(sample == start[k as int]);
            output.push(scale_sample(sample, self.volume));
            k = k + 1;
            assert(self.samples@ =~= start.subrange(k as int, start.len() as int));
        }
        output
    }
}

impl Default for AudioEngine {
    fn default() -> (res: Self)
        ensures
            res.wf(),
            res@.volume == 100,
            !res@.playing && !res@.paused && res@.samples.len() == 0,
    {
        AudioEngine::new()
    }
}

/// Playback state: 0 stopped, 1 playing, 2 paused.
pub open spec fn spec_state(v: AudioView) -> u32 {
    if v.paused {
        2
    } else if v.playing {
        1
    } else {
        0
    }
}

/// Pausing reports 2, resuming a playing engine reports 1, and stopping
/// reports 0, whatever the state before.
pub proof fn lemma_state_transitions(v: AudioView)
    ensures
        spec_state(AudioView { paused: true, ..v }) == 2,
        v.playing ==> spec_state(AudioView { paused: false, ..v }) == 1,
        spec_state(AudioView { playing: false, paused: false, samples: Seq::empty(), ..v }) == 0,
{
}

/// Scaling by full volume keeps a sample; scaling never grows its
/// magnitude.
pub proof fn lemma_scale_bounds(sample: i16, volume: u32)
    requires
        volume <= 100,
    ensures
        volume == 100 ==> spec_scale(sample, volume) == sample,
        sample >= 0 ==> 0 <= spec_scale(sample, volume) <= sample,
        sample < 0 ==> sample <= spec_scale(sample, volume) <= 0,
{
    let p = sample as int * volume as int;
    if sample >= 0 {
        assert(0 <= p <= sample as int * 100) by (nonlinear_arith)
            requires
                sample >= 0,
                volume <= 100,
                p == sample as int * volume as int,
        ;
    } else {
        assert(sample as int * 100 <= p <= 0) by (nonlinear_arith)
            requires
                sample < 0,
                volume <= 100,
                p == sample as int * volume as int,
        ;
    }
}

} // verus!
