//! WAV / LPCM helpers for Cast sinks that reject FLAC.

use vstd::prelude::*;
use crate::text;
use crate::error::Error;
use crate::text::{chars_of, push_all, push_str, string_of, to_decimal};

verus! {

/// Bytes in a RIFF WAVE header for PCM.
pub const WAV_HEADER_LEN: usize = 44;

/// Payload length that a continuous stream advertises so that players keep reading.
pub const CONTINUOUS_DATA_LEN: u32 = 0x7FFF_FFFF;

/// The low byte of `v` when it is divided by `unit`.
pub open spec fn byte_at(v: nat, unit: nat) -> u8 {
    ((v / unit) % 256) as u8
}

/// `v` as two bytes, least significant first.
pub open spec fn le16(v: nat) -> Seq<u8> {
    seq![byte_at(v, 1), byte_at(v, 0x100)]
}

/// `v` as four bytes, least significant first.
pub open spec fn le32(v: nat) -> Seq<u8> {
    seq![byte_at(v, 1), byte_at(v, 0x100), byte_at(v, 0x1_0000), byte_at(v, 0x100_0000)]
}

/// The two's-complement bits of a sample.
pub open spec fn sample_bits(s: i16) -> nat {
    if s < 0 {
        (s + 0x1_0000) as nat
    } else {
        s as nat
    }
}

/// The sample that two little-endian bytes write.
pub open spec fn sample_of(lo: u8, hi: u8) -> int {
    let bits = lo + 0x100 * hi;
    if bits >= 0x8000 {
        bits - 0x1_0000
    } else {
        bits
    }
}

/// Interleaved samples as little-endian bytes.
pub open spec fn pcm_bytes(samples: Seq<i16>) -> Seq<u8> {
    Seq::new(
        2 * samples.len(),
        |i: int| le16(sample_bits(samples[i / 2]))[i % 2],
    )
}

/// The smaller of a product or sum and the greatest value of its type.
pub open spec fn capped(v: int, max: int) -> nat {
    if v > max {
        max as nat
    } else {
        v as nat
    }
}

/// Bytes in one frame of 16-bit samples, at most `u16::MAX`.
pub open spec fn block_align(channels: u16) -> nat {
    capped(channels * 2, u16::MAX as int)
}

/// The 44 header bytes: RIFF chunk, PCM format chunk, data chunk header.
pub open spec fn header_bytes(channels: u16, sample_rate: u32, data_len: u32) -> Seq<u8> {
    seq![0x52u8, 0x49u8, 0x46u8, 0x46u8]  // RIFF
        + le32(capped(36 + data_len, u32::MAX as int))
        + seq![0x57u8, 0x41u8, 0x56u8, 0x45u8]  // WAVE
        + seq![0x66u8, 0x6du8, 0x74u8, 0x20u8]  // fmt
        + le32(16) + le16(1) + le16(channels as nat) + le32(sample_rate as nat)
        + le32(capped(sample_rate * block_align(channels), u32::MAX as int))
        + le16(block_align(channels)) + le16(16)
        + seq![0x64u8, 0x61u8, 0x74u8, 0x61u8]  // data
        + le32(data_len as nat)
}

/// Message for a zero channel count.
pub open spec fn zero_channels() -> Seq<char> {
    "channels must be at least 1"@
}

/// Message for a zero sample rate.
pub open spec fn zero_rate() -> Seq<char> {
    "sample_rate must be non-zero"@
}

/// Message for samples that do not fill whole frames.
pub open spec fn bad_alignment(len: nat, channels: nat) -> Seq<char> {
    "sample count "@ + text::decimal(len) + " is not a multiple of channels "@ + text::decimal(channels)
}

/// Message for a payload that a RIFF length cannot express.
pub open spec fn too_long() -> Seq<char> {
    "WAV data length exceeds u32"@
}

/// Appends `value` as two little-endian bytes.
pub fn write_u16_le(buf: &mut Vec<u8>, value: u16)
    ensures
        final(buf)@ == old(buf)@ + le16(value as nat),
{
    buf.push((value % 256) as u8);
    buf.push(((value / 0x100) % 256) as u8);
    proof {
        assert(buf@ =~= old(buf)@ + le16(value as nat));
    }
}

/// Appends `value` as four little-endian bytes.
pub fn write_u32_le(buf: &mut Vec<u8>, value: u32)
    ensures
        final(buf)@ == old(buf)@ + le32(value as nat),
{
    buf.push((value % 256) as u8);
    buf.push(((value / 0x100) % 256) as u8);
    buf.push(((value / 0x1_0000) % 256) as u8);
    buf.push(((value / 0x100_0000) % 256) as u8);
    proof {
        assert(buf@ =~= old(buf)@ + le32(value as nat));
    }
}

fn write_tag(buf: &mut Vec<u8>, a: u8, b: u8, c: u8, d: u8)
    ensures
        final(buf)@ == old(buf)@ + seq![a, b, c, d],
{
    buf.push(a);
    buf.push(b);
    buf.push(c);
    buf.push(d);
    proof {
        assert(buf@ =~= old(buf)@ + seq![a, b, c, d]);
    }
}

/// Build a standard RIFF WAVE header for PCM s16le.
///
/// `data_len` is the byte length of the PCM payload that follows, or a large
/// placeholder for continuous streams.
pub fn wav_header(channels: u16, sample_rate: u32, data_len: u32) -> (r: Result<[u8; 44], Error>)
    ensures
        match r {
            Ok(h) => channels != 0 && sample_rate != 0 && h@ == header_bytes(
                channels,
                sample_rate,
                data_len,
            ) && h@.len() == WAV_HEADER_LEN,
            Err(Error::Audio(m)) => if channels == 0 {
                m@ == zero_channels()
            } else {
                sample_rate == 0 && m@ == zero_rate()
            },
            Err(_) => false,
        },
{
    if channels == 0 {
        return Err(Error::Audio("channels must be at least 1".to_owned()));
    }
    if sample_rate == 0 {
        return Err(Error::Audio("sample_rate must be non-zero".to_owned()));
    }
    let align: u16 = if channels > 0x7FFF {
        u16::MAX
    } else {
        channels * 2
    };
    proof {
        assert(0 <= sample_rate * align <= u32::MAX * u16::MAX) by (nonlinear_arith)
            requires
                0 <= sample_rate <= u32::MAX,
                0 <= align <= u16::MAX,
        ;
    }
    let rate_product: u64 = sample_rate as u64 * align as u64;
    let byte_rate: u32 = if rate_product > u32::MAX as u64 {
        u32::MAX
    } else {
        rate_product as u32
    };
    let riff_size: u32 = if data_len > u32::MAX - 36 {
        u32::MAX
    } else {
        data_len + 36
    };
    let mut h: Vec<u8> = Vec::new();
    write_tag(&mut h, 0x52, 0x49, 0x46, 0x46);
    write_u32_le(&mut h, riff_size);
    write_tag(&mut h, 0x57, 0x41, 0x56, 0x45);
    write_tag(&mut h, 0x66, 0x6d, 0x74, 0x20);
    write_u32_le(&mut h, 16);
    write_u16_le(&mut h, 1);
    write_u16_le(&mut h, channels);
    write_u32_le(&mut h, sample_rate);
    write_u32_le(&mut h, byte_rate);
    write_u16_le(&mut h, align);
    write_u16_le(&mut h, 16);
    write_tag(&mut h, 0x64, 0x61, 0x74, 0x61);
    write_u32_le(&mut h, data_len);
    proof {
        assert(rate_product == sample_rate * block_align(channels));
        assert(Seq::<u8>::empty() + seq![0x52u8, 0x49u8, 0x46u8, 0x46u8] =~= seq![
            0x52u8,
            0x49u8,
            0x46u8,
            0x46u8,
        ]);
    }
    let mut header: [u8; 44] = [0; 44];
    let mut i: usize = 0;
    while i < 44
        invariant
            i <= 44,
            h@.len() == 44,
            forall|j: int| 0 <= j < i ==> header@[j] == h@[j],
        decreases 44 - i,
    {
        header[i] = h[i];
        i += 1;
    }
    proof {
        assert(header@ =~= h@);
    }
    Ok(header)
}

/// The two's-complement bits of a sample.
fn bits_of(s: i16) -> (b: u16)
    ensures
        b == sample_bits(s),
{
    if s < 0 {
        (s as i32 + 0x1_0000) as u16
    } else {
        s as u16
    }
}

/// Appends interleaved samples as little-endian bytes.
pub fn push_pcm(out: &mut Vec<u8>, samples: &[i16])
    ensures
        final(out)@ == old(out)@ + pcm_bytes(samples@),
{
    let mut i: usize = 0;
    proof {
        assert(old(out)@ + pcm_bytes(samples@.take(0)) =~= old(out)@);
    }
    while i < samples.len()
        invariant
            i <= samples.len(),
            out@ == old(out)@ + pcm_bytes(samples@.take(i as int)),
        decreases samples.len() - i,
    {
        let bits: u16 = bits_of(samples[i]);
        write_u16_le(out, bits);
        proof {
            let now = samples@.take(i as int + 1);
            let before = samples@.take(i as int);
            assert(pcm_bytes(now) =~= pcm_bytes(before) + le16(sample_bits(samples@[i as int])));
            assert(old(out)@ + pcm_bytes(now) =~= (old(out)@ + pcm_bytes(before)) + le16(
                sample_bits(samples@[i as int]),
            ));
        }
        i += 1;
    }
    proof {
        assert(samples@.take(samples@.len() as int) =~= samples@);
    }
}

/// The message for samples that do not fill whole frames.
pub fn alignment_message(len: usize, channels: u16) -> (r: String)
    ensures
        r@ == bad_alignment(len as nat, channels as nat),
{
    let mut out = chars_of("sample count ");
    let n = to_decimal(len as u64);
    let c = to_decimal(channels as u64);
    push_all(&mut out, n.as_slice());
    push_str(&mut out, " is not a multiple of channels ");
    push_all(&mut out, c.as_slice());
    string_of(out.as_slice())
}

/// Encode a complete finite WAV file (header and interleaved PCM body).
pub fn encode_pcm_i16_to_wav(samples: &[i16], channels: u16, sample_rate: u32) -> (r: Result<
    Vec<u8>,
    Error,
>)
    ensures
        match r {
            Ok(bytes) => {
                &&& channels != 0
                &&& sample_rate != 0
                &&& samples@.len() % (channels as nat) == 0
                &&& 2 * samples@.len() <= u32::MAX
                &&& bytes@ == header_bytes(channels, sample_rate, (2 * samples@.len()) as u32)
                    + pcm_bytes(samples@)
            },
            Err(Error::Audio(m)) => if channels == 0 {
                m@ == zero_channels()
            } else if samples@.len() % (channels as nat) != 0 {
                m@ == bad_alignment(samples@.len(), channels as nat)
            } else if 2 * samples@.len() > u32::MAX {
                m@ == too_long()
            } else {
                sample_rate == 0 && m@ == zero_rate()
            },
            Err(_) => false,
        },
{
    if channels == 0 {
        return Err(Error::Audio("channels must be at least 1".to_owned()));
    }
    if samples.len() % (channels as usize) != 0 {
        return Err(Error::Audio(alignment_message(samples.len(), channels)));
    }
    if samples.len() as u64 > 0x7FFF_FFFF {
        return Err(Error::Audio("WAV data length exceeds u32".to_owned()));
    }
    let data_len: u32 = (samples.len() as u32) * 2;
    let header = match wav_header(channels, sample_rate, data_len) {
        Ok(h) => h,
        Err(e) => {
            return Err(e);
        },
    };
    let mut out: Vec<u8> = Vec::new();
    out.extend_from_slice(header.as_slice());
    push_pcm(&mut out, samples);
    Ok(out)
}

/// Continuous-stream header using a large data size so players keep reading.
pub fn continuous_wav_header(channels: u16, sample_rate: u32) -> (r: Result<[u8; 44], Error>)
    ensures
        match r {
            Ok(h) => channels != 0 && sample_rate != 0 && h@ == header_bytes(
                channels,
                sample_rate,
                CONTINUOUS_DATA_LEN,
            ) && h@.len() == WAV_HEADER_LEN,
            Err(Error::Audio(m)) => if channels == 0 {
                m@ == zero_channels()
            } else {
                sample_rate == 0 && m@ == zero_rate()
            },
            Err(_) => false,
        },
{
    wav_header(channels, sample_rate, CONTINUOUS_DATA_LEN)
}

/// The body of a WAV file gives back the samples that went in, in order.
pub proof fn law_wav_body_is_lossless(samples: Seq<i16>, i: int)
    requires
        0 <= i < samples.len(),
    ensures
        pcm_bytes(samples).len() == 2 * samples.len(),
        sample_of(pcm_bytes(samples)[2 * i], pcm_bytes(samples)[2 * i + 1]) == samples[i],
{
    let bits = sample_bits(samples[i]);
    let b = pcm_bytes(samples);
    assert((2 * i) / 2 == i && (2 * i) % 2 == 0);
    assert((2 * i + 1) / 2 == i && (2 * i + 1) % 2 == 1);
    assert(b[2 * i] == byte_at(bits, 1));
    assert(b[2 * i + 1] == byte_at(bits, 0x100));
    assert(bits < 0x1_0000);
}

/// Two little-endian bytes determine the number that they write.
proof fn lemma_le16(v: nat)
    requires
        v < 0x1_0000,
    ensures
        le16(v).len() == 2,
        le16(v)[0] + 0x100 * le16(v)[1] == v,
{
}

/// Four little-endian bytes determine the number that they write.
proof fn lemma_le32(v: nat)
    requires
        v < 0x1_0000_0000,
    ensures
        le32(v).len() == 4,
        le32(v)[0] + 0x100 * le32(v)[1] + 0x1_0000 * le32(v)[2] + 0x100_0000 * le32(v)[3] == v,
{
}

/// Where the fields lie in a sequence made of thirteen parts of fixed lengths.
proof fn lemma_field_offsets(
    a: Seq<u8>,
    b: Seq<u8>,
    c: Seq<u8>,
    d: Seq<u8>,
    e: Seq<u8>,
    f: Seq<u8>,
    channels: Seq<u8>,
    rate: Seq<u8>,
    tail: Seq<u8>,
    data: Seq<u8>,
)
    requires
        a.len() == 4,
        b.len() == 4,
        c.len() == 4,
        d.len() == 4,
        e.len() == 4,
        f.len() == 2,
        channels.len() == 2,
        rate.len() == 4,
        tail.len() == 12,
        data.len() == 4,
    ensures
        ({
            let h = a + b + c + d + e + f + channels + rate + tail + data;
            &&& h.len() == 44
            &&& h[22] == channels[0] && h[23] == channels[1]
            &&& h[24] == rate[0] && h[25] == rate[1] && h[26] == rate[2] && h[27] == rate[3]
            &&& h[40] == data[0] && h[41] == data[1] && h[42] == data[2] && h[43] == data[3]
        }),
{
}

/// A header tells the reader the channel count, the sample rate and the payload
/// length that it was built from.
pub proof fn law_wav_header_describes_the_stream(channels: u16, sample_rate: u32, data_len: u32)
    ensures
        ({
            let h = header_bytes(channels, sample_rate, data_len);
            &&& h.len() == WAV_HEADER_LEN
            &&& h[22] + 0x100 * h[23] == channels
            &&& h[24] + 0x100 * h[25] + 0x1_0000 * h[26] + 0x100_0000 * h[27] == sample_rate
            &&& h[40] + 0x100 * h[41] + 0x1_0000 * h[42] + 0x100_0000 * h[43] == data_len
        }),
{
    let a = seq![0x52u8, 0x49u8, 0x46u8, 0x46u8];
    let b = le32(capped(36 + data_len, u32::MAX as int));
    let c = seq![0x57u8, 0x41u8, 0x56u8, 0x45u8];
    let d = seq![0x66u8, 0x6du8, 0x74u8, 0x20u8];
    let byte_rate = le32(capped(sample_rate * block_align(channels), u32::MAX as int));
    let align = le16(block_align(channels));
    let bits = le16(16);
    let tag = seq![0x64u8, 0x61u8, 0x74u8, 0x61u8];
    let tail = byte_rate + align + bits + tag;
    let head = a + b + c + d + le32(16) + le16(1) + le16(channels as nat) + le32(
        sample_rate as nat,
    );
    lemma_field_offsets(
        a,
        b,
        c,
        d,
        le32(16),
        le16(1),
        le16(channels as nat),
        le32(sample_rate as nat),
        tail,
        le32(data_len as nat),
    );
    lemma_le16(channels as nat);
    lemma_le32(sample_rate as nat);
    lemma_le32(data_len as nat);
    assert(header_bytes(channels, sample_rate, data_len) == head + byte_rate + align + bits + tag
        + le32(data_len as nat));
    assert(head + byte_rate + align + bits + tag =~= head + tail);
}

/// Each sample stands in two bytes, the low one first; a negative sample is written as
/// what it lacks to 65 536.
pub proof fn law_samples_are_little_endian(samples: Seq<i16>, i: int)
    requires
        0 <= i < samples.len(),
    ensures
        ({
            let lo = pcm_bytes(samples)[2 * i];
            let hi = pcm_bytes(samples)[2 * i + 1];
            &&& samples[i] >= 0 ==> lo + 256 * hi == samples[i]
            &&& samples[i] < 0 ==> lo + 256 * hi == samples[i] + 65_536
        }),
{
    let bits = sample_bits(samples[i]);
    let b = pcm_bytes(samples);
    assert((2 * i) / 2 == i && (2 * i) % 2 == 0);
    assert((2 * i + 1) / 2 == i && (2 * i + 1) % 2 == 1);
    assert(b[2 * i] == byte_at(bits, 1));
    assert(b[2 * i + 1] == byte_at(bits, 0x100));
    assert(bits < 0x1_0000);
}

/// Where the other fields lie in a header made of its thirteen parts.
proof fn lemma_other_fields(
    a: Seq<u8>,
    b: Seq<u8>,
    c: Seq<u8>,
    d: Seq<u8>,
    e: Seq<u8>,
    f: Seq<u8>,
    middle: Seq<u8>,
    byte_rate: Seq<u8>,
    align: Seq<u8>,
    bits: Seq<u8>,
    tag: Seq<u8>,
    data: Seq<u8>,
)
    requires
        a.len() == 4,
        b.len() == 4,
        c.len() == 4,
        d.len() == 4,
        e.len() == 4,
        f.len() == 2,
        middle.len() == 6,
        byte_rate.len() == 4,
        align.len() == 2,
        bits.len() == 2,
        tag.len() == 4,
        data.len() == 4,
    ensures
        ({
            let h = a + b + c + d + e + f + middle + byte_rate + align + bits + tag + data;
            &&& h.subrange(0, 4) == a
            &&& h.subrange(4, 8) == b
            &&& h.subrange(8, 12) == c
            &&& h.subrange(12, 16) == d
            &&& h.subrange(16, 20) == e
            &&& h.subrange(20, 22) == f
            &&& h.subrange(28, 32) == byte_rate
            &&& h.subrange(32, 34) == align
            &&& h.subrange(34, 36) == bits
            &&& h.subrange(36, 40) == tag
        }),
{
    let h = a + b + c + d + e + f + middle + byte_rate + align + bits + tag + data;
    assert(h.subrange(0, 4) =~= a);
    assert(h.subrange(4, 8) =~= b);
    assert(h.subrange(8, 12) =~= c);
    assert(h.subrange(12, 16) =~= d);
    assert(h.subrange(16, 20) =~= e);
    assert(h.subrange(20, 22) =~= f);
    assert(h.subrange(28, 32) =~= byte_rate);
    assert(h.subrange(32, 34) =~= align);
    assert(h.subrange(34, 36) =~= bits);
    assert(h.subrange(36, 40) =~= tag);
}

/// A header is that of a RIFF file of 16-bit PCM: its four marks, a format part of 16
/// bytes, the format 1, and the sizes that follow from what it is built from. A size that
/// its field cannot hold is written as the greatest that it can.
pub proof fn law_wav_header_is_16_bit_pcm(channels: u16, sample_rate: u32, data_len: u32)
    ensures
        ({
            let h = header_bytes(channels, sample_rate, data_len);
            let riff = h[4] + 256 * h[5] + 65_536 * h[6] + 16_777_216 * h[7];
            let fmt = h[16] + 256 * h[17] + 65_536 * h[18] + 16_777_216 * h[19];
            let byte_rate = h[28] + 256 * h[29] + 65_536 * h[30] + 16_777_216 * h[31];
            let align = h[32] + 256 * h[33];
            &&& h.subrange(0, 4) == seq![0x52u8, 0x49u8, 0x46u8, 0x46u8]
            &&& h.subrange(8, 12) == seq![0x57u8, 0x41u8, 0x56u8, 0x45u8]
            &&& h.subrange(12, 16) == seq![0x66u8, 0x6du8, 0x74u8, 0x20u8]
            &&& h.subrange(36, 40) == seq![0x64u8, 0x61u8, 0x74u8, 0x61u8]
            &&& data_len + 36 < 4_294_967_296 ==> riff == data_len + 36
            &&& data_len + 36 >= 4_294_967_296 ==> riff == 4_294_967_295
            &&& fmt == 16
            &&& h[20] + 256 * h[21] == 1
            &&& 2 * channels < 65_536 ==> align == 2 * channels
            &&& 2 * channels >= 65_536 ==> align == 65_535
            &&& sample_rate * align < 4_294_967_296 ==> byte_rate == sample_rate * align
            &&& sample_rate * align >= 4_294_967_296 ==> byte_rate == 4_294_967_295
            &&& h[34] + 256 * h[35] == 16
        }),
{
    let h = header_bytes(channels, sample_rate, data_len);
    let b = le32(capped(36 + data_len, u32::MAX as int));
    let product = sample_rate * block_align(channels);
    let byte_rate = le32(capped(product, u32::MAX as int));
    let align = le16(block_align(channels));
    let middle = le16(channels as nat) + le32(sample_rate as nat);
    let a = seq![0x52u8, 0x49u8, 0x46u8, 0x46u8];
    let c = seq![0x57u8, 0x41u8, 0x56u8, 0x45u8];
    let d = seq![0x66u8, 0x6du8, 0x74u8, 0x20u8];
    let tag = seq![0x64u8, 0x61u8, 0x74u8, 0x61u8];
    assert(h =~= a + b + c + d + le32(16) + le16(1) + middle + byte_rate + align + le16(16) + tag
        + le32(data_len as nat));
    lemma_other_fields(
        a,
        b,
        c,
        d,
        le32(16),
        le16(1),
        middle,
        byte_rate,
        align,
        le16(16),
        tag,
        le32(data_len as nat),
    );
    assert(product >= 0) by (nonlinear_arith)
        requires
            product == sample_rate * block_align(channels),
    ;
    lemma_le32(capped(36 + data_len, u32::MAX as int));
    lemma_le32(capped(product, u32::MAX as int));
    lemma_le32(16);
    lemma_le16(block_align(channels));
    lemma_le16(1);
    lemma_le16(16);
    assert(h[4] == h.subrange(4, 8)[0] && h[5] == h.subrange(4, 8)[1] && h[6] == h.subrange(4, 8)[2]
        && h[7] == h.subrange(4, 8)[3]);
    assert(h[16] == h.subrange(16, 20)[0] && h[17] == h.subrange(16, 20)[1] && h[18]
        == h.subrange(16, 20)[2] && h[19] == h.subrange(16, 20)[3]);
    assert(h[20] == h.subrange(20, 22)[0] && h[21] == h.subrange(20, 22)[1]);
    assert(h[28] == h.subrange(28, 32)[0] && h[29] == h.subrange(28, 32)[1] && h[30]
        == h.subrange(28, 32)[2] && h[31] == h.subrange(28, 32)[3]);
    assert(h[32] == h.subrange(32, 34)[0] && h[33] == h.subrange(32, 34)[1]);
    assert(h[34] == h.subrange(34, 36)[0] && h[35] == h.subrange(34, 36)[1]);
    assert(h[32] + 256 * h[33] == block_align(channels));
}

/// Each refusal says in words what is wrong, with the numbers in decimal digits.
pub proof fn law_audio_refusals_say_what_is_wrong(len: nat, channels: nat)
    ensures
        zero_channels() == "channels must be at least 1"@,
        zero_rate() == "sample_rate must be non-zero"@,
        too_long() == "WAV data length exceeds u32"@,
        bad_alignment(len, channels) == "sample count "@ + text::decimal(len)
            + " is not a multiple of channels "@ + text::decimal(channels),
{
}

} // verus!
