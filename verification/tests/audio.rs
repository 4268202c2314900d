//! PCM ring, WAV and FLAC.

use play_on_air::audio::flac::{
    encode_i16_block_to_frame, encode_pcm_i16_to_flac, from_encoder, live_stream_header_bytes,
    live_stream_info, round_up_to_flac_blocks, StreamInfo, FLAC_BLOCK_SIZE, FRAME_NUMBER_LIMIT,
};
use play_on_air::audio::pcm::PcmRing;
use play_on_air::audio::wav::{
    alignment_message, continuous_wav_header, encode_pcm_i16_to_wav, wav_header, write_u16_le,
    write_u32_le,
};
use play_on_air::error::Error;

fn f32_to_i16(sample: f32) -> i16 {
    (sample.clamp(-1.0, 1.0) * 32_767.0).round() as i16
}

fn push_f32(ring: &mut PcmRing, samples: &[f32]) {
    let converted: Vec<i16> = samples.iter().map(|&s| f32_to_i16(s)).collect();
    ring.push_i16(&converted);
}

fn sine_i16(frames: usize, channels: u16, freq_hz: f32, sample_rate: u32) -> Vec<i16> {
    let ch = usize::from(channels);
    let mut out = Vec::with_capacity(frames * ch);
    for n in 0..frames {
        let t = n as f32 / sample_rate as f32;
        let s = (2.0 * std::f32::consts::PI * freq_hz * t).sin();
        let v = (s * 16_000.0).round() as i16;
        for _ in 0..ch {
            out.push(v);
        }
    }
    out
}

fn decode(bytes: &[u8]) -> (u32, u32, Vec<i32>) {
    let mut reader = claxon::FlacReader::new(std::io::Cursor::new(bytes)).expect("claxon open");
    let info = reader.streaminfo();
    let samples = reader.samples().map(|r| r.expect("sample")).collect();
    (info.sample_rate, info.channels, samples)
}

#[test]
fn push_pop_roundtrip_stereo() {
    let mut ring = PcmRing::new(2, 64);
    let input: Vec<f32> = (0..32).map(|i| (i as f32) / 32.0 - 0.5).collect();
    push_f32(&mut ring, &input);
    assert_eq!(ring.available_frames(), 16);
    assert_eq!(ring.occupancy_frames(), 16);

    let mut out = Vec::new();
    let frames = ring.pop_i16(16, &mut out);
    assert_eq!(frames, 16);
    assert_eq!(out.len(), 32);
    for (i, &v) in out.iter().enumerate() {
        let expected = f32_to_i16(input[i]);
        assert_eq!(v, expected);
    }
}

#[test]
fn underrun_returns_partial() {
    let mut ring = PcmRing::new(1, 8);
    push_f32(&mut ring, &[0.1, 0.2]);
    let mut out = Vec::new();
    let frames = ring.pop_i16(8, &mut out);
    assert_eq!(frames, 2);
    assert_eq!(out.len(), 2);
    assert_eq!(ring.underrun_polls(), 0);

    let frames_empty = ring.pop_i16(1, &mut out);
    assert_eq!(frames_empty, 0);
    assert_eq!(ring.underrun_polls(), 1);
}

#[test]
fn overflow_drops_oldest() {
    let mut ring = PcmRing::new(1, 2);
    push_f32(&mut ring, &[0.1, 0.2, 0.3]);
    assert_eq!(ring.available_frames(), 2);
    assert_eq!(ring.frames_dropped_overflow(), 1);
    let mut out = Vec::new();
    let _ = ring.pop_i16(2, &mut out);
    assert_eq!(out[0], f32_to_i16(0.2));
    assert_eq!(out[1], f32_to_i16(0.3));
}

#[test]
fn bulk_push_across_wrapped_ring() {
    let mut ring = PcmRing::new(2, 8);
    push_f32(&mut ring, &[0.1; 16]);
    let mut out = Vec::new();
    assert_eq!(ring.pop_i16(3, &mut out), 3);
    push_f32(&mut ring, &[0.5; 6]);
    assert_eq!(ring.occupancy_frames(), 8);
    let frames = ring.pop_i16(8, &mut out);
    assert_eq!(frames, 8);
    assert_eq!(out.len(), 16);
}

#[test]
fn push_longer_than_the_ring_keeps_its_tail() {
    let mut ring = PcmRing::new(2, 2);
    ring.push_i16(&[9, 9]);
    ring.push_i16(&[1, 2, 3, 4, 5, 6, 7]);
    let mut out = Vec::new();
    assert_eq!(ring.copy_i16(10, &mut out), 2);
    assert_eq!(out, vec![4, 5, 6, 7]);
    assert_eq!(ring.frames_dropped_overflow(), 2);
    assert_eq!(ring.pop_i16(10, &mut out), 2);
    assert_eq!(out, vec![4, 5, 6, 7]);
}

#[test]
fn copy_leaves_the_ring_and_clear_empties_it() {
    let mut ring = PcmRing::new(0, 4);
    assert_eq!(ring.channels(), 1);
    ring.push_i16(&[1, 2, 3]);
    let mut out = vec![7];
    assert_eq!(ring.copy_i16(2, &mut out), 2);
    assert_eq!(out, vec![1, 2]);
    assert_eq!(ring.available_frames(), 3);
    assert_eq!(ring.underrun_polls(), 0);
    ring.clear();
    assert_eq!(ring.available_frames(), 0);
    assert_eq!(ring.copy_i16(2, &mut out), 0);
    assert_eq!(ring.underrun_polls(), 0);
}

#[test]
fn header_magic_and_sizes() {
    let h = wav_header(2, 44_100, 1000).expect("header");
    assert_eq!(&h[0..4], b"RIFF");
    assert_eq!(&h[8..12], b"WAVE");
    assert_eq!(&h[12..16], b"fmt ");
    assert_eq!(&h[36..40], b"data");
    assert_eq!(u16::from_le_bytes([h[22], h[23]]), 2);
    assert_eq!(u32::from_le_bytes([h[24], h[25], h[26], h[27]]), 44_100);
}

#[test]
fn wav_header_holds_every_field() {
    let h = wav_header(2, 48_000, 1000).expect("header");
    assert_eq!(u32::from_le_bytes([h[4], h[5], h[6], h[7]]), 1036);
    assert_eq!(u32::from_le_bytes([h[16], h[17], h[18], h[19]]), 16);
    assert_eq!(u16::from_le_bytes([h[20], h[21]]), 1);
    assert_eq!(u32::from_le_bytes([h[28], h[29], h[30], h[31]]), 192_000);
    assert_eq!(u16::from_le_bytes([h[32], h[33]]), 4);
    assert_eq!(u16::from_le_bytes([h[34], h[35]]), 16);
    assert_eq!(u32::from_le_bytes([h[40], h[41], h[42], h[43]]), 1000);
}

#[test]
fn continuous_header_advertises_half_the_range() {
    let h = continuous_wav_header(2, 48_000).expect("header");
    assert_eq!(u32::from_le_bytes([h[40], h[41], h[42], h[43]]), 0x7FFF_FFFF);
}

#[test]
fn encode_roundtrip_hound() {
    let samples: Vec<i16> = (0..256).map(|i| (i * 100) as i16).collect();
    let wav = encode_pcm_i16_to_wav(&samples, 1, 16_000).expect("encode");
    let cursor = std::io::Cursor::new(&wav);
    let mut reader = hound::WavReader::new(cursor).expect("hound");
    let spec = reader.spec();
    assert_eq!(spec.channels, 1);
    assert_eq!(spec.sample_rate, 16_000);
    let decoded: Vec<i16> = reader.samples::<i16>().map(|s| s.expect("s")).collect();
    assert_eq!(decoded, samples);
}

#[test]
fn wav_errors_name_their_reason() {
    match wav_header(0, 44_100, 0) {
        Err(Error::Audio(m)) => assert_eq!(m, "channels must be at least 1"),
        other => panic!("unexpected {other:?}"),
    }
    match wav_header(2, 0, 0) {
        Err(Error::Audio(m)) => assert_eq!(m, "sample_rate must be non-zero"),
        other => panic!("unexpected {other:?}"),
    }
    match encode_pcm_i16_to_wav(&[1, 2, 3], 2, 44_100) {
        Err(Error::Audio(m)) => assert_eq!(m, alignment_message(3, 2)),
        other => panic!("unexpected {other:?}"),
    }
    assert!(continuous_wav_header(0, 1).is_err());
    assert!(continuous_wav_header(1, 0).is_err());
}

#[test]
fn little_endian_writers() {
    let mut buf = vec![1];
    write_u16_le(&mut buf, 0x1234);
    write_u32_le(&mut buf, 0xA1B2_C3D4);
    assert_eq!(buf, vec![1, 0x34, 0x12, 0xD4, 0xC3, 0xB2, 0xA1]);
}

#[test]
fn encode_stereo_roundtrip_claxon() {
    let sample_rate = 44_100_u32;
    let channels = 2_u16;
    let pcm = sine_i16(4096, channels, 440.0, sample_rate);
    let flac = encode_pcm_i16_to_flac(&pcm, channels, sample_rate).expect("encode");
    assert!(flac.len() > 42, "FLAC should be non-trivial");
    assert_eq!(&flac[0..4], b"fLaC");

    let (rate, ch, decoded) = decode(&flac);
    assert_eq!(rate, sample_rate);
    assert_eq!(ch, u32::from(channels));
    assert_eq!(decoded.len(), pcm.len());
    for (i, (&orig, &dec)) in pcm.iter().zip(decoded.iter()).enumerate() {
        assert_eq!(i32::from(orig), dec, "mismatch at sample {i}");
    }
}

#[test]
fn reject_zero_channels() {
    let err = encode_pcm_i16_to_flac(&[0], 0, 44_100).unwrap_err();
    assert!(matches!(err, Error::Audio(_)));
}

#[test]
fn reject_bad_alignment() {
    let err = encode_pcm_i16_to_flac(&[0, 1, 2], 2, 44_100).unwrap_err();
    assert!(matches!(err, Error::Audio(_)));
}

#[test]
fn reject_zero_rate() {
    match encode_pcm_i16_to_flac(&[0], 1, 0) {
        Err(Error::Audio(m)) => assert_eq!(m, "sample_rate must be non-zero"),
        other => panic!("unexpected {other:?}"),
    }
}

#[test]
fn reject_what_no_flac_stream_can_hold() {
    for (channels, rate) in [(9_u16, 48_000_u32), (2, 96_001)] {
        match encode_pcm_i16_to_flac(&vec![0; 18], channels, rate) {
            Err(Error::Audio(m)) => assert!(m.starts_with("FLAC encode failed: "), "{m}"),
            other => panic!("unexpected {other:?}"),
        }
    }
    assert!(encode_pcm_i16_to_flac(&vec![0; 16], 8, 96_000).is_ok());
}

#[test]
fn live_header_is_flac_magic_plus_streaminfo() {
    let info = live_stream_info(48_000, 2).expect("stream info");
    let header = live_stream_header_bytes(&info).expect("header");
    assert_eq!(&header[0..4], b"fLaC");
    assert_eq!(header.len(), 42);
}

#[test]
fn live_header_bytes_are_exact() {
    let info = live_stream_info(44_100, 2).expect("stream info");
    let header = live_stream_header_bytes(&info).expect("header");
    let mut expected = vec![
        0x66, 0x4c, 0x61, 0x43, 0x80, 0, 0, 34, 0x10, 0x00, 0x10, 0x00, 0xff, 0xff, 0xff, 0, 0, 0,
        0x0a, 0xc4, 0x42, 0xf0, 0, 0, 0, 0,
    ];
    expected.extend_from_slice(&[0; 16]);
    assert_eq!(header, expected);
}

#[test]
fn live_formats_are_bounded() {
    assert!(live_stream_info(96_000, 8).is_ok());
    assert!(live_stream_info(96_001, 2).is_err());
    assert!(live_stream_info(48_000, 9).is_err());
    match live_stream_info(48_000, 0) {
        Err(Error::Audio(m)) => assert_eq!(m, "channels must be at least 1"),
        other => panic!("unexpected {other:?}"),
    }
    match live_stream_info(0, 2) {
        Err(Error::Audio(m)) => assert_eq!(m, "sample_rate must be non-zero"),
        other => panic!("unexpected {other:?}"),
    }
    match live_stream_info(200_000, 2) {
        Err(Error::Audio(m)) => assert!(m.starts_with("invalid FLAC StreamInfo: ")),
        other => panic!("unexpected {other:?}"),
    }
}

#[test]
fn live_block_encode_roundtrip_claxon() {
    let sample_rate = 8_000_u32;
    let channels = 1_u16;
    let info = live_stream_info(sample_rate, channels).expect("info");
    let header = live_stream_header_bytes(&info).expect("header");

    let pcm = sine_i16(FLAC_BLOCK_SIZE, channels, 440.0, sample_rate);
    let frame = encode_i16_block_to_frame(&pcm, channels, 0, &info).expect("frame");

    let mut bitstream = header;
    bitstream.extend_from_slice(&frame);

    let (_, _, decoded) = decode(&bitstream);
    assert_eq!(decoded.len(), pcm.len());
    for (i, (&orig, &dec)) in pcm.iter().zip(decoded.iter()).enumerate() {
        assert_eq!(i32::from(orig), dec, "mismatch at sample {i}");
    }
}

#[test]
fn frame_headers_state_the_rate() {
    let pcm = sine_i16(FLAC_BLOCK_SIZE, 2, 440.0, 48_000);
    for (rate, tag) in [(8_000, 4), (44_100, 9), (48_000, 10), (96_000, 11), (12_000, 12), (11_020, 14), (11_025, 13), (70_001, 0)] {
        let info = live_stream_info(rate, 2).expect("info");
        let frame = encode_i16_block_to_frame(&pcm, 2, 5, &info).expect("frame");
        assert_eq!(&frame[0..2], &[0xff, 0xf8]);
        assert_eq!(frame[2] % 16, tag, "rate {rate}");
    }
}

#[test]
fn frames_are_numbered() {
    let info = live_stream_info(8_000, 1).expect("info");
    let header = live_stream_header_bytes(&info).expect("header");
    let pcm = sine_i16(FLAC_BLOCK_SIZE, 1, 440.0, 8_000);
    let mut bitstream = header;
    for n in 0..3 {
        let frame = encode_i16_block_to_frame(&pcm, 1, n, &info).expect("frame");
        assert_eq!(usize::from(frame[4]), n);
        bitstream.extend_from_slice(&frame);
    }
    let (_, _, decoded) = decode(&bitstream);
    assert_eq!(decoded.len(), 3 * FLAC_BLOCK_SIZE);
}

#[test]
fn blocks_that_are_no_frame_are_refused() {
    let info = StreamInfo { sample_rate: 8_000, channels: 2 };
    let message = |r: Result<Vec<u8>, Error>| match r {
        Err(Error::Audio(m)) => m,
        other => panic!("unexpected {other:?}"),
    };
    assert_eq!(
        message(encode_i16_block_to_frame(&[], 2, 0, &info)),
        "FLAC block has zero frames"
    );
    assert!(encode_i16_block_to_frame(&[1, 2, 3], 2, 0, &info).is_err());
    let long = vec![0; (FLAC_BLOCK_SIZE + 1) * 2];
    assert!(encode_i16_block_to_frame(&long, 2, 0, &info).is_err());
    let full = vec![0; FLAC_BLOCK_SIZE * 2];
    assert!(encode_i16_block_to_frame(&full, 2, FRAME_NUMBER_LIMIT - 1, &info).is_ok());
    assert!(encode_i16_block_to_frame(&full, 2, FRAME_NUMBER_LIMIT, &info).is_err());
}

#[test]
fn encoder_answers_keep_their_words() {
    assert_eq!(from_encoder("p: ", Ok(vec![1, 2])).expect("ok"), vec![1, 2]);
    match from_encoder("p: ", Err("why".to_owned())) {
        Err(Error::Audio(m)) => assert_eq!(m, "p: why"),
        other => panic!("unexpected {other:?}"),
    }
}

#[test]
fn round_up_to_flac_blocks_aligns() {
    assert_eq!(round_up_to_flac_blocks(0), 0);
    assert_eq!(round_up_to_flac_blocks(1), FLAC_BLOCK_SIZE);
    assert_eq!(round_up_to_flac_blocks(FLAC_BLOCK_SIZE), FLAC_BLOCK_SIZE);
    assert_eq!(round_up_to_flac_blocks(FLAC_BLOCK_SIZE + 1), FLAC_BLOCK_SIZE * 2);
}

#[test]
fn post_decode_realtime_pcm_to_flac() {
    let sample_rate = 48_000_u32;
    let channels = 2_u16;
    let frames = 4096_usize;
    let mut ring = PcmRing::new(channels, frames * 2);
    let mut pcm_f32 = Vec::new();
    for n in 0..frames {
        let t = n as f32 / sample_rate as f32;
        let s = (2.0 * std::f32::consts::PI * 440.0 * t).sin() * 0.5;
        pcm_f32.push(s);
        pcm_f32.push(s);
    }
    push_f32(&mut ring, &pcm_f32);

    let mut i16_buf = Vec::new();
    let got = ring.pop_i16(frames, &mut i16_buf);
    assert_eq!(got, frames);

    let flac = encode_pcm_i16_to_flac(&i16_buf, channels, sample_rate).expect("encode");
    assert!(flac.len() > 42);
    assert_eq!(&flac[0..4], b"fLaC");

    let (rate, ch, _) = decode(&flac);
    assert_eq!(rate, sample_rate);
    assert_eq!(ch, u32::from(channels));
}

#[test]
fn only_polls_of_an_empty_ring_are_underruns() {
    let mut ring = PcmRing::new(1, 4);
    push_f32(&mut ring, &[0.1]);
    let mut out = vec![9];
    assert_eq!(ring.pop_i16(0, &mut out), 0);
    assert!(out.is_empty());
    assert_eq!(ring.available_frames(), 1);
    assert_eq!(ring.underrun_polls(), 0);
    assert_eq!(ring.pop_i16(1, &mut out), 1);
    assert_eq!(ring.pop_i16(0, &mut out), 0);
    assert_eq!(ring.underrun_polls(), 1);
}
