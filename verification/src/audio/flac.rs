//! Lossless FLAC encode for Cast HTTP media egress.
//!
//! A whole snapshot is encoded by [`encode_pcm_i16_to_flac`]. A live stream is the
//! bytes of [`live_stream_header_bytes`] followed by one frame per block, made by
//! [`encode_i16_block_to_frame`]. The `flacenc` crate does the coding. Which bytes a
//! frame gets depends on its floating-point prediction, so the contracts say what a
//! decoder reads from the bytes, not which bytes they are.

use flacenc::component::BitRepr;
use flacenc::error::Verify;
use flacenc::source::Fill;
use vstd::prelude::*;
use crate::audio::wav;
use crate::text;
use crate::audio::wav::alignment_message;
use crate::error::{joined, Error};
use crate::text::{chars_of, push_all, push_str, string_of, to_decimal};

verus! {

/// Fixed FLAC block size used for live streaming.
pub const FLAC_BLOCK_SIZE: usize = 4096;

/// Bits in one PCM sample.
pub const BITS_PER_SAMPLE: usize = 16;

/// Frame numbers below this bound fit in a FLAC frame header.
pub const FRAME_NUMBER_LIMIT: usize = 0x8000_0000;

/// Format of a live FLAC stream: fixed block size, unknown length.
#[derive(Debug, Clone, Copy, PartialEq, Eq, Structural)]
pub struct StreamInfo {
    /// Sample rate in Hz.
    pub sample_rate: u32,
    /// Channel count.
    pub channels: u16,
}

/// The formats that `flacenc` describes in a STREAMINFO block: at most 96 kHz and
/// one to eight channels, the channel count being read modulo 256.
pub open spec fn info_ok(sample_rate: u32, channels: u16) -> bool {
    sample_rate <= 96_000 && 1 <= channels % 256 <= 8
}

impl StreamInfo {
    /// A format that a stream of frames can have.
    pub open spec fn encodable(&self) -> bool {
        self.sample_rate <= 96_000 && 1 <= self.channels <= 8
    }
}

/// `v` as two bytes, most significant first.
pub open spec fn be16(v: nat) -> Seq<u8> {
    seq![(v / 256 % 256) as u8, (v % 256) as u8]
}

/// The start of a live stream: the `fLaC` marker and a last STREAMINFO block with
/// equal block sizes, unknown frame sizes, 16-bit samples, unknown length and no
/// checksum.
pub open spec fn stream_header(sample_rate: nat, channels: nat, block: nat) -> Seq<u8> {
    seq![0x66u8, 0x4cu8, 0x61u8, 0x43u8, 0x80u8, 0u8, 0u8, 34u8] + be16(block) + be16(block) + seq![
        0xffu8,
        0xffu8,
        0xffu8,
        0u8,
        0u8,
        0u8,
    ] + seq![
        (sample_rate / 4096) as u8,
        (sample_rate / 16 % 256) as u8,
        (sample_rate % 16 * 16 + (channels - 1) * 2) as u8,
        0xf0u8,
        0u8,
        0u8,
        0u8,
        0u8,
    ] + Seq::new(16, |i: int| 0u8)
}

/// What a FLAC decoder reads from the bytes of one frame: the frame number, the
/// channel count and the interleaved samples.
pub uninterp spec fn flac_frame_parts(frame: Seq<u8>) -> (nat, nat, Seq<i32>);

/// What a FLAC decoder reads from the bytes of a whole stream: the sample rate, the
/// channel count and the interleaved samples.
pub uninterp spec fn flac_stream_parts(stream: Seq<u8>) -> (nat, nat, Seq<i32>);

/// How a frame header states a sample rate of at most 96 kHz, in the low half of its
/// third byte: as one of the usual rates, in kHz, in tens of Hz, in Hz, or not at all.
pub open spec fn rate_tag(sample_rate: u32) -> int {
    match sample_rate {
        88_200 => 1,
        8_000 => 4,
        16_000 => 5,
        22_050 => 6,
        24_000 => 7,
        32_000 => 8,
        44_100 => 9,
        48_000 => 10,
        96_000 => 11,
        _ => if sample_rate % 1000 == 0 {
            12
        } else if sample_rate % 10 == 0 {
            14
        } else if sample_rate < 65_536 {
            13
        } else {
            0
        },
    }
}

/// The samples as 32-bit integers.
pub open spec fn widened(samples: Seq<i16>) -> Seq<i32> {
    Seq::new(samples.len(), |i: int| samples[i] as i32)
}

/// `flacenc::component::StreamInfo::new` and `StreamInfo::set_block_sizes`: a format
/// is accepted exactly when [`info_ok`] holds; the error carries the reason in words.
#[verifier::external_body]
fn accept_stream_info(sample_rate: u32, channels: u16, bits: usize, block: usize) -> (r: Result<
    (),
    String,
>)
    requires
        bits == BITS_PER_SAMPLE,
        32 <= block <= 32767,
    ensures
        r is Ok <==> info_ok(sample_rate, channels),
{
    match flacenc::component::StreamInfo::new(sample_rate as usize, channels as usize, bits) {
        Ok(mut info) => match info.set_block_sizes(block, block) {
            Ok(()) => Ok(()),
            Err(err) => Err(format!("{err:?}")),
        },
        Err(err) => Err(format!("{err:?}")),
    }
}

/// `flacenc::component::Stream::with_stream_info` written to a `ByteSink`: the bytes
/// are those of [`stream_header`], and an in-memory sink does not fail.
#[verifier::external_body]
fn write_stream_header(sample_rate: u32, channels: u16, bits: usize, block: usize) -> (r: Result<
    Vec<u8>,
    String,
>)
    requires
        info_ok(sample_rate, channels),
        bits == BITS_PER_SAMPLE,
        32 <= block <= 32767,
    ensures
        match r {
            Ok(bytes) => bytes@ == stream_header(
                sample_rate as nat,
                (channels % 256) as nat,
                block as nat,
            ),
            Err(_) => false,
        },
{
    let mut sink = flacenc::bitsink::ByteSink::new();
    let mut info = match flacenc::component::StreamInfo::new(sample_rate as usize, channels as usize, bits) {
        Ok(info) => info,
        Err(err) => return Err(format!("{err:?}")),
    };
    if let Err(err) = info.set_block_sizes(block, block) {
        return Err(format!("{err:?}"));
    }
    match flacenc::component::Stream::with_stream_info(info).write(&mut sink) {
        Ok(()) => Ok(sink.into_inner()),
        Err(err) => Err(format!("{err}")),
    }
}

/// `flacenc::encode_fixed_size_frame` with the default encoder settings, written to a
/// `ByteSink`: it succeeds exactly for frame numbers of at most 31 bits. A frame begins
/// with the sync code of a stream with fixed block size and states its sample rate as
/// [`rate_tag`] says, and the coding is lossless: a decoder reads back the frame number,
/// the channel count and the samples. Which bytes follow is not stated: that depends on
/// floating-point prediction.
#[verifier::external_body]
fn write_frame(samples: &[i32], info: &StreamInfo, bits: usize, block: usize, frame_number: usize) -> (r: Result<
    Vec<u8>,
    String,
>)
    requires
        info.encodable(),
        bits == BITS_PER_SAMPLE,
        block == FLAC_BLOCK_SIZE,
        samples@.len() > 0,
        samples@.len() % (info.channels as nat) == 0,
        samples@.len() <= block * info.channels,
        forall|i: int| 0 <= i < samples@.len() ==> i16::MIN <= #[trigger] samples@[i] <= i16::MAX,
    ensures
        r is Ok <==> frame_number < FRAME_NUMBER_LIMIT,
        r matches Ok(bytes) ==> bytes@.len() > 2 && bytes@[0] == 0xffu8 && bytes@[1] == 0xf8u8
            && bytes@[2] % 16 == rate_tag(info.sample_rate) && flac_frame_parts(bytes@) == (frame_number as nat, info.channels as nat, samples@),
{
    let config = flacenc::config::Encoder::default().into_verified().map_err(|e| format!("{:?}", e.1))?;
    let ch = info.channels as usize;
    let meta = flacenc::component::StreamInfo::new(info.sample_rate as usize, ch, bits).map_err(|e| format!("{e:?}"))?;
    let mut buf = flacenc::source::FrameBuf::with_size(ch, block).map_err(|e| format!("{e:?}"))?;
    buf.fill_interleaved(samples).map_err(|e| format!("{e:?}"))?;
    let frame = flacenc::encode_fixed_size_frame(&config, &buf, frame_number, &meta).map_err(|e| format!("{e}"))?;
    let mut sink = flacenc::bitsink::ByteSink::new();
    frame.write(&mut sink).map_err(|e| format!("{e}"))?;
    Ok(sink.into_inner())
}

/// `flacenc::encode_with_fixed_block_size` on a `MemSource` with the default encoder
/// settings, written to a `ByteSink`: rates above 96 kHz and more than eight channels
/// are refused, a stream begins with the `fLaC` marker and a STREAMINFO block, and the
/// coding is lossless: a decoder reads back the sample rate, the channel count and the
/// samples. Not stated: when it succeeds, which rests on the machine (it asks how many
/// worker threads to start, and waits for ever when the environment variable
/// `FLACENC_WORKERS` says none), and the bytes of the frames, which depend on
/// floating-point prediction.
#[verifier::external_body]
fn write_stream(samples: &[i32], channels: u16, bits: usize, sample_rate: u32) -> (r: Result<
    Vec<u8>,
    String,
>)
    requires
        channels >= 1,
        bits == BITS_PER_SAMPLE,
        samples@.len() % (channels as nat) == 0,
        forall|i: int| 0 <= i < samples@.len() ==> i16::MIN <= #[trigger] samples@[i] <= i16::MAX,
    ensures
        r is Ok ==> sample_rate <= 96_000 && channels <= 8,
        r matches Ok(bytes) ==> bytes@.len() >= 42 && bytes@[0] == 0x66u8 && bytes@[1] == 0x4cu8
            && bytes@[2] == 0x61u8 && bytes@[3] == 0x43u8 && flac_stream_parts(bytes@) == (
            sample_rate as nat,
            channels as nat,
            samples@,
        ),
{
    let config = flacenc::config::Encoder::default().into_verified().map_err(|e| format!("{:?}", e.1))?;
    let source = flacenc::source::MemSource::from_samples(samples, channels as usize, bits, sample_rate as usize);
    let stream = flacenc::encode_with_fixed_block_size(&config, source, config.block_size);
    let mut sink = flacenc::bitsink::ByteSink::new();
    stream.map_err(|e| format!("{e}"))?.write(&mut sink).map_err(|e| format!("{e}"))?;
    Ok(sink.into_inner())
}

/// The samples as 32-bit integers, which the encoder takes.
fn widen(samples: &[i16]) -> (out: Vec<i32>)
    ensures
        out@ == widened(samples@),
{
    let mut out: Vec<i32> = Vec::new();
    let mut i: usize = 0;
    while i < samples.len()
        invariant
            i <= samples.len(),
            out@.len() == i,
            forall|j: int| 0 <= j < i ==> #[trigger] out@[j] == samples@[j],
        decreases samples.len() - i,
    {
        out.push(samples[i] as i32);
        i += 1;
    }
    out
}

/// What a caller gets for the encoder's answer: its bytes, or an audio error that
/// says which step failed.
pub open spec fn encoder_answer(
    prefix: Seq<char>,
    answer: Result<Vec<u8>, String>,
    r: Result<Vec<u8>, Error>,
) -> bool {
    match answer {
        Ok(bytes) => r matches Ok(out) && out@ == bytes@,
        Err(why) => r matches Err(Error::Audio(m)) && m@ == prefix + why@,
    }
}

/// What follows a prefix does not change that it is one.
proof fn lemma_prefixed(prefix: Seq<char>, words: Seq<char>)
    ensures
        prefix.is_prefix_of(prefix + words),
{
    assert((prefix + words).subrange(0, prefix.len() as int) =~= prefix);
}

/// Turns the encoder's answer into the library's result.
pub fn from_encoder(prefix: &str, answer: Result<Vec<u8>, String>) -> (r: Result<Vec<u8>, Error>)
    ensures
        encoder_answer(prefix@, answer, r),
{
    match answer {
        Ok(bytes) => Ok(bytes),
        Err(why) => Err(Error::Audio(joined(prefix, why.as_str()))),
    }
}

/// `stream` is a FLAC stream of these samples in this format, which FLAC can hold.
pub open spec fn is_stream_of(
    stream: Seq<u8>,
    samples: Seq<i16>,
    channels: u16,
    sample_rate: u32,
) -> bool {
    &&& 1 <= channels <= 8 && 1 <= sample_rate <= 96_000
    &&& samples.len() % (channels as nat) == 0
    &&& stream.len() >= 42
    &&& stream.take(4) == seq![0x66u8, 0x4cu8, 0x61u8, 0x43u8]
    &&& flac_stream_parts(stream) == (sample_rate as nat, channels as nat, widened(samples))
}

/// `e` says why these samples in this format were not encoded: no channels, no rate,
/// an incomplete last frame, or the encoder's own reason.
pub open spec fn is_refusal_of(e: Error, samples: Seq<i16>, channels: u16, sample_rate: u32) -> bool {
    e matches Error::Audio(m) && if channels == 0 {
        m@ == wav::zero_channels()
    } else if sample_rate == 0 {
        m@ == wav::zero_rate()
    } else if samples.len() % (channels as nat) != 0 {
        m@ == wav::bad_alignment(samples.len(), channels as nat)
    } else {
        "FLAC encode failed: "@.is_prefix_of(m@)
    }
}

/// Encode interleaved 16-bit PCM to a complete FLAC bitstream.
///
/// `samples` is interleaved: `[L0, R0, L1, R1, …]` for stereo. `channels` must be at
/// least 1 and `sample_rate` (in Hz) non-zero.
pub fn encode_pcm_i16_to_flac(samples: &[i16], channels: u16, sample_rate: u32) -> (r: Result<
    Vec<u8>,
    Error,
>)
    ensures
        match r {
            Ok(bytes) => is_stream_of(bytes@, samples@, channels, sample_rate),
            Err(e) => is_refusal_of(e, samples@, channels, sample_rate),
        },
{
    if channels == 0 {
        return Err(Error::Audio("channels must be at least 1".to_owned()));
    }
    if sample_rate == 0 {
        return Err(Error::Audio("sample_rate must be non-zero".to_owned()));
    }
    let ch: usize = channels as usize;
    if samples.len() % ch != 0 {
        return Err(Error::Audio(alignment_message(samples.len(), channels)));
    }
    let wide = widen(samples);
    let answer = write_stream(wide.as_slice(), channels, BITS_PER_SAMPLE, sample_rate);
    proof {
        if answer is Err {
            lemma_prefixed("FLAC encode failed: "@, answer->Err_0@);
        }
    }
    let r = from_encoder("FLAC encode failed: ", answer);
    proof {
        if r is Ok {
            assert(r->Ok_0@.take(4) =~= seq![0x66u8, 0x4cu8, 0x61u8, 0x43u8]);
        }
    }
    r
}

/// Describe a live stream with fixed block size and unknown length.
pub fn live_stream_info(sample_rate: u32, channels: u16) -> (r: Result<StreamInfo, Error>)
    ensures
        match r {
            Ok(info) => channels != 0 && sample_rate != 0 && info_ok(sample_rate, channels)
                && info == (StreamInfo { sample_rate, channels }),
            Err(Error::Audio(m)) => {
                &&& channels == 0 || sample_rate == 0 || !info_ok(sample_rate, channels)
                &&& channels == 0 ==> m@ == wav::zero_channels()
                &&& channels != 0 && sample_rate == 0 ==> m@ == wav::zero_rate()
                &&& channels != 0 && sample_rate != 0 ==> "invalid FLAC StreamInfo: "@.is_prefix_of(
                    m@,
                )
            },
            Err(_) => false,
        },
{
    if channels == 0 {
        return Err(Error::Audio("channels must be at least 1".to_owned()));
    }
    if sample_rate == 0 {
        return Err(Error::Audio("sample_rate must be non-zero".to_owned()));
    }
    match accept_stream_info(sample_rate, channels, BITS_PER_SAMPLE, FLAC_BLOCK_SIZE) {
        Ok(()) => Ok(StreamInfo { sample_rate, channels }),
        Err(why) => {
            proof {
                lemma_prefixed("invalid FLAC StreamInfo: "@, why@);
            }
            Err(Error::Audio(joined("invalid FLAC StreamInfo: ", why.as_str())))
        },
    }
}

/// The `fLaC` marker and STREAMINFO only, for the start of a live HTTP response.
pub fn live_stream_header_bytes(stream_info: &StreamInfo) -> (r: Result<Vec<u8>, Error>)
    requires
        info_ok(stream_info.sample_rate, stream_info.channels),
    ensures
        match r {
            Ok(bytes) => bytes@ == stream_header(
                stream_info.sample_rate as nat,
                (stream_info.channels % 256) as nat,
                FLAC_BLOCK_SIZE as nat,
            ) && bytes@.len() == 42,
            Err(_) => false,
        },
{
    let answer = write_stream_header(
        stream_info.sample_rate,
        stream_info.channels,
        BITS_PER_SAMPLE,
        FLAC_BLOCK_SIZE,
    );
    from_encoder("FLAC STREAMINFO write failed: ", answer)
}

/// Message for a block that does not fill whole frames.
pub open spec fn block_misaligned(len: nat, channels: nat) -> Seq<char> {
    "FLAC block sample count "@ + text::decimal(len) + " is not a multiple of channels "@ + text::decimal(
        channels,
    )
}

/// Message for a block that is longer than the block size.
pub open spec fn block_too_long(frames: nat) -> Seq<char> {
    "FLAC block frames "@ + text::decimal(frames) + " exceed FLAC_BLOCK_SIZE "@ + text::decimal(
        FLAC_BLOCK_SIZE as nat,
    )
}

/// The channel count that a block is read with: at least one.
pub open spec fn block_channels(channels: u16) -> nat {
    if channels == 0 {
        1
    } else {
        channels as nat
    }
}

/// Encode one interleaved PCM block of at most [`FLAC_BLOCK_SIZE`] frames into a
/// single FLAC frame.
///
/// A block shorter than the block size is allowed for a preroll tail; steady-state
/// live encode passes full blocks.
pub fn encode_i16_block_to_frame(
    i16_samples: &[i16],
    channels: u16,
    frame_number: usize,
    stream_info: &StreamInfo,
) -> (r: Result<Vec<u8>, Error>)
    requires
        stream_info.encodable(),
        stream_info.channels == block_channels(channels),
    ensures
        ({
            let ch = block_channels(channels);
            let len = i16_samples@.len();
            let frames = len / ch;
            match r {
                Ok(bytes) => {
                    &&& len % ch == 0 && 1 <= frames <= FLAC_BLOCK_SIZE
                    &&& frame_number < FRAME_NUMBER_LIMIT
                    &&& bytes@.len() > 2 && bytes@[0] == 0xffu8 && bytes@[1] == 0xf8u8
                    &&& bytes@[2] % 16 == rate_tag(stream_info.sample_rate)
                    &&& flac_frame_parts(bytes@) == (
                        frame_number as nat,
                        ch,
                        widened(i16_samples@),
                    )
                },
                Err(Error::Audio(m)) => {
                    &&& len % ch != 0 || frames == 0 || frames > FLAC_BLOCK_SIZE || frame_number
                        >= FRAME_NUMBER_LIMIT
                    &&& len % ch != 0 ==> m@ == block_misaligned(len, channels as nat)
                    &&& len % ch == 0 && frames == 0 ==> m@ == "FLAC block has zero frames"@
                    &&& len % ch == 0 && frames > FLAC_BLOCK_SIZE ==> m@ == block_too_long(frames)
                    &&& len % ch == 0 && 1 <= frames <= FLAC_BLOCK_SIZE
                        ==> "FLAC frame encode failed: "@.is_prefix_of(m@)
                },
                Err(_) => false,
            }
        }),
{
    let ch: usize = if channels == 0 {
        1
    } else {
        channels as usize
    };
    if i16_samples.len() % ch != 0 {
        let mut out = chars_of("FLAC block sample count ");
        let n = to_decimal(i16_samples.len() as u64);
        let c = to_decimal(channels as u64);
        push_all(&mut out, n.as_slice());
        push_str(&mut out, " is not a multiple of channels ");
        push_all(&mut out, c.as_slice());
        return Err(Error::Audio(string_of(out.as_slice())));
    }
    let frames: usize = i16_samples.len() / ch;
    if frames == 0 {
        return Err(Error::Audio("FLAC block has zero frames".to_owned()));
    }
    if frames > FLAC_BLOCK_SIZE {
        let mut out = chars_of("FLAC block frames ");
        let n = to_decimal(frames as u64);
        let c = to_decimal(FLAC_BLOCK_SIZE as u64);
        push_all(&mut out, n.as_slice());
        push_str(&mut out, " exceed FLAC_BLOCK_SIZE ");
        push_all(&mut out, c.as_slice());
        return Err(Error::Audio(string_of(out.as_slice())));
    }
    let wide = widen(i16_samples);
    proof {
        let len = i16_samples@.len();
        assert(len <= FLAC_BLOCK_SIZE * stream_info.channels) by (nonlinear_arith)
            requires
                len / (ch as nat) <= FLAC_BLOCK_SIZE,
                len % (ch as nat) == 0,
                ch >= 1,
                ch == stream_info.channels,
        ;
        assert(len > 0) by (nonlinear_arith)
            requires
                len / (ch as nat) > 0,
                ch >= 1,
        ;
    }
    let answer = write_frame(
        wide.as_slice(),
        stream_info,
        BITS_PER_SAMPLE,
        FLAC_BLOCK_SIZE,
        frame_number,
    );
    proof {
        if answer is Err {
            lemma_prefixed("FLAC frame encode failed: "@, answer->Err_0@);
        }
    }
    from_encoder("FLAC frame encode failed: ", answer)
}

/// The least multiple of the block size that is at least `frames`.
pub open spec fn whole_blocks(frames: nat) -> nat {
    ((frames + FLAC_BLOCK_SIZE - 1) / (FLAC_BLOCK_SIZE as int) * FLAC_BLOCK_SIZE) as nat
}

/// Round a frame count up to a whole number of blocks, at most `usize::MAX`.
pub fn round_up_to_flac_blocks(frames: usize) -> (r: usize)
    ensures
        r == (if whole_blocks(frames as nat) <= usize::MAX {
            whole_blocks(frames as nat)
        } else {
            usize::MAX as nat
        }),
{
    if frames == 0 {
        return 0;
    }
    let blocks: usize = (frames - 1) / FLAC_BLOCK_SIZE + 1;
    match blocks.checked_mul(FLAC_BLOCK_SIZE) {
        Some(n) => n,
        None => usize::MAX,
    }
}

/// A live header tells the decoder the sample rate, the channel count and the fixed
/// block size of the frames that follow.
pub proof fn law_flac_header_describes_the_stream(sample_rate: nat, channels: nat, block: nat)
    requires
        sample_rate <= 96_000,
        1 <= channels <= 8,
        block <= 32767,
    ensures
        ({
            let h = stream_header(sample_rate, channels, block);
            &&& h.len() == 42
            &&& h[8] * 256 + h[9] == block
            &&& h[10] * 256 + h[11] == block
            &&& h[18] * 4096 + h[19] * 16 + h[20] / 16 == sample_rate
            &&& h[20] % 16 / 2 + 1 == channels
        }),
{
    let h = stream_header(sample_rate, channels, block);
    let b = be16(block);
    assert(h[8] == b[0] && h[9] == b[1] && h[10] == b[0] && h[11] == b[1]);
    assert(h[18] == (sample_rate / 4096) as u8);
    assert(h[19] == (sample_rate / 16 % 256) as u8);
    assert(h[20] == (sample_rate % 16 * 16 + (channels - 1) * 2) as u8);
}

/// Rounding up to whole blocks never loses a frame and adds less than one block.
pub proof fn law_whole_blocks_cover(frames: nat)
    ensures
        frames <= whole_blocks(frames) < frames + FLAC_BLOCK_SIZE,
        whole_blocks(frames) % (FLAC_BLOCK_SIZE as nat) == 0,
{
}

/// A live header starts with the stream's mark and one last block of stream data, which
/// says 16 bits to the sample and leaves the length and the checksum open.
pub proof fn law_flac_header_is_16_bit(sample_rate: nat, channels: nat, block: nat)
    requires
        sample_rate <= 96_000,
        1 <= channels <= 8,
        block <= 32767,
    ensures
        ({
            let h = stream_header(sample_rate, channels, block);
            &&& h[0] == 0x66 && h[1] == 0x4c && h[2] == 0x61 && h[3] == 0x43
            &&& h[4] == 0x80 && h[5] == 0 && h[6] == 0 && h[7] == 34
            &&& h[20] % 2 * 16 + h[21] / 16 + 1 == 16
            &&& h[21] % 16 == 0
            &&& forall|i: int| 22 <= i < 42 ==> #[trigger] h[i] == 0
        }),
{
    let h = stream_header(sample_rate, channels, block);
    assert(h[20] == (sample_rate % 16 * 16 + (channels - 1) * 2) as u8);
    assert(h[21] == 0xf0u8);
}

/// A frame's tag names the nine usual rates each by its own number; another rate is
/// written in kHz, in tens of Hz or in Hz where one of these can hold it, and is left out
/// otherwise.
pub proof fn law_rate_tag_names_the_rate(rate: u32)
    requires
        rate <= 96_000,
    ensures
        ({
            let tag = rate_tag(rate);
            &&& tag == 1 <==> rate == 88_200
            &&& tag == 4 <==> rate == 8_000
            &&& tag == 5 <==> rate == 16_000
            &&& tag == 6 <==> rate == 22_050
            &&& tag == 7 <==> rate == 24_000
            &&& tag == 8 <==> rate == 32_000
            &&& tag == 9 <==> rate == 44_100
            &&& tag == 10 <==> rate == 48_000
            &&& tag == 11 <==> rate == 96_000
            &&& tag == 12 ==> rate % 1000 == 0
            &&& tag == 14 ==> rate % 10 == 0 && rate % 1000 != 0
            &&& tag == 13 ==> rate < 65_536 && rate % 10 != 0
            &&& tag == 0 ==> rate >= 65_536 && rate % 10 != 0
            &&& 0 <= tag <= 14 && tag != 2 && tag != 3
        }),
{
}

/// Samples keep their number, their order and their values when they are widened.
pub proof fn law_widening_keeps_the_samples(samples: Seq<i16>, i: int)
    requires
        0 <= i < samples.len(),
    ensures
        widened(samples).len() == samples.len(),
        widened(samples)[i] == samples[i],
{
}

/// A live stream has one to eight channels, and at most 96 kHz. A description of one is
/// accepted for each of these, and for no other rate.
pub proof fn law_live_formats(sample_rate: u32, channels: u16)
    ensures
        (StreamInfo { sample_rate, channels }).encodable() <==> sample_rate <= 96_000 && 1 <= channels
            && channels <= 8,
        (StreamInfo { sample_rate, channels }).encodable() ==> info_ok(sample_rate, channels),
        channels < 256 ==> (info_ok(sample_rate, channels) <==> (StreamInfo {
            sample_rate,
            channels,
        }).encodable()),
        sample_rate > 96_000 ==> !info_ok(sample_rate, channels),
        channels == 0 ==> !info_ok(sample_rate, channels),
{
}

/// What the encoder answers reaches the caller: its bytes as they are, its reason behind
/// the name of the step that failed.
pub proof fn law_encoder_answer_is_passed_on(
    prefix: Seq<char>,
    bytes: Vec<u8>,
    why: String,
    r: Result<Vec<u8>, Error>,
)
    ensures
        encoder_answer(prefix, Ok(bytes), r) ==> r is Ok && r->Ok_0@ == bytes@,
        encoder_answer(prefix, Err(why), r) ==> (r matches Err(Error::Audio(m)) && m@ == prefix
            + why@),
{
}

/// A stream holds the very samples that went in, in order, under the rate and the channel
/// count that were given.
pub proof fn law_stream_holds_its_samples(
    stream: Seq<u8>,
    samples: Seq<i16>,
    channels: u16,
    sample_rate: u32,
    i: int,
)
    requires
        is_stream_of(stream, samples, channels, sample_rate),
        0 <= i < samples.len(),
    ensures
        flac_stream_parts(stream).0 == sample_rate,
        flac_stream_parts(stream).1 == channels,
        flac_stream_parts(stream).2.len() == samples.len(),
        flac_stream_parts(stream).2[i] == samples[i],
        stream[0] == 0x66 && stream[1] == 0x4c && stream[2] == 0x61 && stream[3] == 0x43,
{
    assert(stream.take(4)[0] == stream[0] && stream.take(4)[1] == stream[1] && stream.take(4)[2]
        == stream[2] && stream.take(4)[3] == stream[3]);
}

/// A refusal names the first of these that holds: no channels, no rate, samples that do
/// not fill whole frames; else it is the encoder's.
pub proof fn law_flac_refusals_say_what_is_wrong(
    message: String,
    samples: Seq<i16>,
    channels: u16,
    sample_rate: u32,
)
    requires
        is_refusal_of(Error::Audio(message), samples, channels, sample_rate),
    ensures
        channels == 0 ==> message@ == "channels must be at least 1"@,
        channels > 0 && sample_rate == 0 ==> message@ == "sample_rate must be non-zero"@,
        channels > 0 && sample_rate > 0 && samples.len() % (channels as nat) != 0 ==> message@
            == "sample count "@ + text::decimal(samples.len()) + " is not a multiple of channels "@
            + text::decimal(channels as nat),
        channels > 0 && sample_rate > 0 && samples.len() % (channels as nat) == 0
            ==> "FLAC encode failed: "@.is_prefix_of(message@),
{
}

/// A block is read with its own channel count, none being taken as one, and has 4096
/// frames at most; the refusals say so in words.
pub proof fn law_blocks_are_read_as_they_are(channels: u16, len: nat, frames: nat)
    ensures
        channels > 0 ==> block_channels(channels) == channels,
        channels == 0 ==> block_channels(channels) == 1,
        block_misaligned(len, channels as nat) == "FLAC block sample count "@ + text::decimal(len)
            + " is not a multiple of channels "@ + text::decimal(channels as nat),
        block_too_long(frames) == "FLAC block frames "@ + text::decimal(frames)
            + " exceed FLAC_BLOCK_SIZE "@ + text::decimal(4096),
        whole_blocks(frames) % 4096 == 0,
        frames <= whole_blocks(frames) < frames + 4096,
{
}

} // verus!
