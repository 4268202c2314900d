//! Live bodies, pacing and the answers of the media server.

use play_on_air::audio::flac::{round_up_to_flac_blocks, FLAC_BLOCK_SIZE};
use play_on_air::audio::pcm::PcmRing;
use play_on_air::audio::wav::continuous_wav_header;
use play_on_air::clock::{from_millis, from_secs, Duration, Instant};
use play_on_air::media::http::{
    base_url, stream_url, GetReply, HeadReply, MediaContent, RolloverSignal, StreamState,
};
use play_on_air::media::live::{
    live_body_threshold, silence_preroll_frames, DropLog, LiveFlacBody, LiveStep, LiveWavBody,
    DROP_LOG_INTERVAL, LIVE_CHUNK_FRAMES, LIVE_CONTENT_LENGTH, LIVE_UNDERRUN_SLEEP,
};
use play_on_air::media::pace::{pace_plan, pace_realtime_shared};

const T0: Instant = 1_000_000_000_000;

fn f32_to_i16(sample: f32) -> i16 {
    (sample.clamp(-1.0, 1.0) * 32_767.0).round() as i16
}

fn push_f32(ring: &mut PcmRing, samples: &[f32]) {
    let converted: Vec<i16> = samples.iter().map(|&s| f32_to_i16(s)).collect();
    ring.push_i16(&converted);
}

fn tone(frames: usize, channels: usize, rate: f32, gain: f32) -> Vec<f32> {
    let mut samples = Vec::with_capacity(frames * channels);
    for n in 0..frames {
        let t = n as f32 / rate;
        let s = (2.0 * std::f32::consts::PI * 440.0 * t).sin() * gain;
        for _ in 0..channels {
            samples.push(s);
        }
    }
    samples
}

fn live_wav(channels: u16, sample_rate: u32) -> MediaContent<()> {
    MediaContent::LiveWav { ring: (), channels, sample_rate }
}

fn live_flac(channels: u16, sample_rate: u32) -> MediaContent<()> {
    MediaContent::LiveFlac { ring: (), channels, sample_rate }
}

fn get_wav(state: &mut StreamState, content: &MediaContent<()>) -> LiveWavBody {
    match state.serve_stream(content) {
        GetReply::Wav(head, body) => {
            assert_eq!(head.content_type, "audio/wav");
            assert_eq!(head.content_length, Some(state.max_body_bytes));
            assert!(head.accept_ranges_none);
            body
        }
        other => panic!("unexpected {other:?}"),
    }
}

fn get_flac(state: &mut StreamState, content: &MediaContent<()>) -> LiveFlacBody {
    match state.serve_stream(content) {
        GetReply::Flac(head, body) => {
            assert_eq!(head.content_type, "audio/flac");
            assert_eq!(head.content_length, None);
            assert!(head.accept_ranges_none);
            body
        }
        other => panic!("unexpected {other:?}"),
    }
}

/// Steps a WAV body until it ends or has to wait; holds advance the clock.
fn pull_wav(
    body: &mut LiveWavBody,
    ring: &mut PcmRing,
    state: &mut StreamState,
    now: &mut Instant,
) -> (Vec<Vec<u8>>, bool) {
    let mut chunks = Vec::new();
    let mut sent = 0_u64;
    loop {
        match body.step(ring, state.live_generation, *now) {
            LiveStep::End => return (chunks, true),
            LiveStep::Wait(d) => {
                assert_eq!(d, LIVE_UNDERRUN_SLEEP);
                return (chunks, false);
            }
            LiveStep::Chunk { bytes, hold, rollover } => {
                *now += hold.unwrap_or(0);
                sent += bytes.len() as u64;
                state.note_chunk(sent, rollover, *now);
                chunks.push(bytes);
            }
        }
    }
}

fn pull_flac(
    body: &mut LiveFlacBody,
    ring: &mut PcmRing,
    state: &mut StreamState,
    now: &mut Instant,
) -> (Vec<u8>, bool) {
    let mut out = Vec::new();
    loop {
        match body.step(ring, state.live_generation, *now) {
            LiveStep::End => return (out, true),
            LiveStep::Wait(_) => return (out, false),
            LiveStep::Chunk { bytes, hold, rollover } => {
                *now += hold.unwrap_or(0);
                out.extend_from_slice(&bytes);
                state.note_chunk(out.len() as u64, rollover, *now);
            }
        }
    }
}

fn claxon_decode_prefix(flac: &[u8]) -> (u32, u32, Vec<i32>) {
    let mut reader =
        claxon::FlacReader::new(std::io::Cursor::new(flac)).expect("claxon open live flac");
    let sample_rate = reader.streaminfo().sample_rate;
    let channels = reader.streaminfo().channels;
    let mut samples = Vec::new();
    for sample in reader.samples() {
        match sample {
            Ok(s) => samples.push(s),
            Err(_) => break,
        }
    }
    (sample_rate, channels, samples)
}

#[test]
fn live_body_threshold_is_full_content_length() {
    let threshold = live_body_threshold(LIVE_CONTENT_LENGTH);
    assert_eq!(threshold, LIVE_CONTENT_LENGTH);
    assert!(threshold >= 44);
    assert_eq!(LIVE_CONTENT_LENGTH, 0x7FFF_FFFF + 44);
    assert_eq!(live_body_threshold(0), 44);
}

#[test]
fn live_body_threshold_scales_for_tiny_test_caps() {
    let threshold = live_body_threshold(1_000);
    assert_eq!(threshold, 1_000);
}

#[test]
fn silence_preroll_frames_at_48k_is_two_seconds() {
    assert_eq!(silence_preroll_frames(48_000), 96_000);
    assert_eq!(silence_preroll_frames(44_100), 88_200);
    assert_eq!(silence_preroll_frames(1), 2);
    assert_eq!(silence_preroll_frames(0), 2);
}

#[test]
fn pace_plan_sleeps_when_ahead_of_schedule() {
    let origin = T0;
    let plan = pace_plan(144_000, 0, 48_000, origin, origin, from_secs(2), from_millis(50));
    assert_eq!(plan.rebaseline, None);
    let sleep_for = plan.sleep.expect("should sleep when ahead");
    assert!(
        sleep_for >= from_millis(900) && sleep_for <= from_millis(1_100),
        "sleep={sleep_for:?}"
    );
    assert_eq!(sleep_for, from_millis(1_000));
}

#[test]
fn pace_plan_rebaselines_when_late_beyond_slack() {
    let origin = T0;
    let now = origin + from_millis(100);
    let plan = pace_plan(0, 1_024, 48_000, origin, now, from_secs(2), from_millis(50));
    assert_eq!(plan.sleep, None);
    let late = plan.rebaseline.expect("should rebaseline when late");
    assert!(late >= from_secs(2), "lateness={late:?}");
    assert_eq!(late, from_millis(2_079));
}

#[test]
fn pace_plan_no_rebaseline_within_slack() {
    let origin = T0;
    let now = origin + from_millis(20);
    let plan = pace_plan(96_000, 0, 48_000, origin, now, from_secs(2), from_millis(50));
    assert_eq!(plan.sleep, None);
    assert_eq!(plan.rebaseline, None);
}

#[test]
fn pace_plan_slack_is_inclusive() {
    let late = |d: Duration| {
        pace_plan(96_000, 0, 48_000, T0, T0 + d, from_secs(2), from_millis(50)).rebaseline
    };
    assert_eq!(late(from_millis(50)), None);
    assert_eq!(late(from_millis(50) + 1), Some(from_millis(50) + 1));
}

#[test]
fn pace_plan_rebaseline_then_pacing_reengages() {
    let origin = T0;
    let rate = 48_000_u32;
    let lead = from_secs(2);
    let slack = from_millis(50);
    let frames = 96_000_u64;
    let stall = from_millis(500);
    let now = origin + stall;

    let plan = pace_plan(frames, 1_024, rate, origin, now, lead, slack);
    assert_eq!(plan.sleep, None, "late tick must not sleep");
    let late = plan.rebaseline.expect("late beyond slack must rebaseline");
    assert!(late >= from_millis(450), "lateness={late:?}");

    let new_origin = origin + late;
    let plan_after = pace_plan(frames, 1_024, rate, new_origin, now, lead, slack);
    assert_eq!(plan_after.rebaseline, None, "rebaselined origin must be current");
    let plan_next = pace_plan(frames + 1_024, 1_024, rate, new_origin, now, lead, slack);
    let sleep_for = plan_next.sleep.expect("pacing re-engages after rebaseline");
    assert!(
        sleep_for > from_millis(10) && sleep_for < from_millis(50),
        "sleep={sleep_for:?}"
    );
}

#[test]
fn pace_plan_without_rebaseline_drains_backlog_unpaced() {
    let origin = T0;
    let rate = 48_000_u32;
    let lead = from_secs(2);
    let slack = from_millis(50);
    let mut frames = 96_000_u64;
    let now = origin + from_millis(500);

    let mut unpaced = 0_u32;
    let mut reengaged = false;
    for _ in 0..64 {
        let plan = pace_plan(frames, 1_024, rate, origin, now, lead, slack);
        if plan.sleep.is_some() {
            reengaged = true;
            break;
        }
        frames = frames.saturating_add(1_024);
        unpaced += 1;
    }
    assert!(unpaced >= 20, "expected multi-chunk unpaced catch-up, got {unpaced}");
    assert!(reengaged, "pacing re-engages after unpaced catch-up");
}

#[test]
fn pace_realtime_shared_holds_origin_with_backlog_then_rebaselines() {
    let rate = 48_000_u32;
    let next_frames = LIVE_CHUNK_FRAMES;
    let backlog_threshold = LIVE_CHUNK_FRAMES;
    let mut ring = PcmRing::new(1, backlog_threshold * 4);
    push_f32(&mut ring, &vec![0.0_f32; backlog_threshold]);
    assert!(ring.occupancy_frames() >= backlog_threshold);

    let now = T0;
    let origin = now - from_millis(300);
    let mut pace_origin = Some(origin);
    let frames_emitted = 96_000_u64;

    let hold = pace_realtime_shared(
        frames_emitted,
        &mut pace_origin,
        rate,
        next_frames,
        ring.occupancy_frames(),
        backlog_threshold,
        now,
    );
    assert_eq!(pace_origin, Some(origin), "origin must be held while ring has backlog");
    assert_eq!(hold, None, "late+backlog must be unpaced");

    let mut drain = Vec::new();
    let drained = ring.pop_i16(backlog_threshold * 4, &mut drain);
    assert!(drained >= backlog_threshold, "drained={drained}");
    assert!(ring.occupancy_frames() < backlog_threshold);

    let before = pace_origin.expect("origin set");
    let empty = pace_realtime_shared(
        frames_emitted,
        &mut pace_origin,
        rate,
        next_frames,
        ring.occupancy_frames(),
        backlog_threshold,
        now,
    );
    assert_eq!(empty, None, "late+empty rebaseline tick is unpaced");
    let after = pace_origin.expect("origin set");
    assert!(after > before, "late+empty must advance origin");

    let frames = frames_emitted + u64::from(rate) * 80 / 1_000;
    let paced = pace_realtime_shared(
        frames,
        &mut pace_origin,
        rate,
        next_frames,
        ring.occupancy_frames(),
        backlog_threshold,
        now,
    )
    .expect("pacing must re-engage");
    assert!(paced >= from_millis(20) && paced < from_millis(200), "hold={paced:?}");
}

#[test]
fn pace_starts_at_the_first_paced_chunk() {
    let mut pace_origin = None;
    let hold = pace_realtime_shared(96_000, &mut pace_origin, 48_000, 1_024, 0, 1, T0);
    assert_eq!(pace_origin, Some(T0));
    assert_eq!(hold, Some(from_millis(21)));
}

#[test]
fn wait_past_does_not_lose_wakeup_under_concurrent_signal() {
    let mut signal = RolloverSignal::new();
    for seen in 0..64_u64 {
        assert_eq!(signal.past(seen), None);
        signal.signal();
        let advanced = signal.past(seen).expect("a signal before the wait is seen");
        assert!(advanced > seen, "count must advance past {seen}, got {advanced}");
    }
    assert_eq!(signal.count(), 64);
}

#[test]
fn serves_static_flac_bytes() {
    let payload = b"fLaCtest".to_vec();
    let content: MediaContent<()> = MediaContent::Static {
        content_type: "audio/flac".to_owned(),
        body: payload.clone(),
    };
    let mut state = StreamState::new();
    match state.serve_stream(&content) {
        GetReply::Whole(head) => {
            assert_eq!(head.content_type, "audio/flac");
            assert_eq!(head.content_length, Some(8));
            assert!(!head.accept_ranges_none);
        }
        other => panic!("unexpected {other:?}"),
    }
    assert_eq!(state.live_generation, 0);
    match content {
        MediaContent::Static { body, .. } => assert_eq!(body, payload),
        other => panic!("unexpected {other:?}"),
    }
}

#[test]
fn empty_content_returns_404() {
    let mut state = StreamState::new();
    let content: MediaContent<()> = MediaContent::Empty;
    assert!(matches!(state.serve_stream(&content), GetReply::NotFound("no stream")));
    assert!(matches!(state.serve_stream_head(&content), HeadReply::NotFound("no stream")));
}

#[test]
fn live_wav_serves_wav_magic_when_ring_has_samples() {
    let mut ring = PcmRing::new(2, 48_000);
    push_f32(&mut ring, &tone(4_800, 2, 48_000.0, 0.25));
    let base = base_url("127.0.0.1", 8090);
    assert!(base.starts_with("http://127.0.0.1:"));
    assert_eq!(stream_url(&base), "http://127.0.0.1:8090/stream");

    let mut state = StreamState::new();
    let mut body = get_wav(&mut state, &live_wav(2, 48_000));
    let mut now = T0;
    let (chunks, ended) = pull_wav(&mut body, &mut ring, &mut state, &mut now);
    assert!(!ended);
    let bytes = chunks.concat();
    assert!(bytes.len() >= 44, "expected at least WAV header, got {}", bytes.len());
    assert_eq!(&bytes[0..4], b"RIFF");
    assert_eq!(&bytes[8..12], b"WAVE");
    assert_eq!(&bytes[36..40], b"data");
    assert_eq!(bytes.len(), 44 + 96_000 * 4 + 4_800 * 4);
}

#[test]
fn live_wav_byte_stream_ends_at_exact_threshold_and_signals_rollover() {
    let mut ring = PcmRing::new(2, 4_096);
    let mut state = StreamState::new();
    state.live_generation = 1;
    let header = continuous_wav_header(2, 48_000).expect("header");
    let threshold = live_body_threshold(800);
    let mut body = LiveWavBody::new(header, 2, 48_000, 4_096, 1, threshold);
    let mut now = T0;
    let (chunks, ended) = pull_wav(&mut body, &mut ring, &mut state, &mut now);
    assert!(ended);
    let total: u64 = chunks.iter().map(|c| c.len() as u64).sum();
    assert!(chunks[0].len() >= 44);
    assert_eq!(&chunks[0][..4], b"RIFF");
    assert_eq!(total, threshold, "body must end at exact Content-Length");
    assert_eq!(state.rollover.count(), 1, "exactly one rollover signal when body ends at cap");
    assert_eq!(state.bytes_served, total);
    assert!(state.last_body_write.is_some(), "progress must record last body write");
}

#[test]
fn live_wav_does_not_discard_pcm_when_nearing_threshold() {
    let mut ring = PcmRing::new(2, 16_384);
    let frames_pushed = 1_000_usize;
    let mut samples = Vec::with_capacity(frames_pushed * 2);
    for _ in 0..frames_pushed {
        samples.push(0.25);
        samples.push(-0.25);
    }
    push_f32(&mut ring, &samples);

    let mut state = StreamState::new();
    state.live_generation = 1;
    let header = continuous_wav_header(2, 48_000).expect("header");
    let threshold = 44 + 100;
    let mut body = LiveWavBody::new(header, 2, 48_000, 0, 1, threshold);
    let mut now = T0;
    let (chunks, ended) = pull_wav(&mut body, &mut ring, &mut state, &mut now);
    assert!(ended);
    let total: u64 = chunks.iter().map(|c| c.len() as u64).sum();
    assert_eq!(total, threshold, "exact Content-Length including pad");
    assert_eq!(state.rollover.count(), 1);
    let left = ring.available_frames();
    assert!(
        left > 500,
        "nearing threshold must pop only what fits; discarded PCM left ring empty-ish (left={left})"
    );
    assert_eq!(left, 975);
}

#[test]
fn live_wav_pads_less_than_a_frame() {
    let mut ring = PcmRing::new(2, 64);
    ring.push_i16(&[5; 16]);
    let mut state = StreamState::new();
    state.live_generation = 1;
    let header = continuous_wav_header(2, 48_000).expect("header");
    let mut body = LiveWavBody::new(header, 2, 48_000, 0, 1, 44 + 6);
    let mut now = T0;
    let (chunks, ended) = pull_wav(&mut body, &mut ring, &mut state, &mut now);
    assert!(ended);
    let sizes: Vec<usize> = chunks.iter().map(Vec::len).collect();
    assert_eq!(sizes, vec![44, 4, 2]);
    assert_eq!(chunks[1], vec![5, 0, 5, 0]);
    assert_eq!(chunks[2], vec![0, 0]);
    assert_eq!(ring.available_frames(), 7);
}

#[test]
fn live_wav_http_with_tiny_cap_signals_rollover() {
    let mut ring = PcmRing::new(2, 4_096);
    push_f32(&mut ring, &[0.0; 4_096 * 2]);
    let mut state = StreamState::new();
    state.set_max_body_bytes(800);
    let before = state.rollover.count();
    let mut body = get_wav(&mut state, &live_wav(2, 48_000));
    let mut now = T0;
    let (chunks, ended) = pull_wav(&mut body, &mut ring, &mut state, &mut now);
    assert!(ended);
    assert!(
        state.rollover.past(before).is_some(),
        "HTTP LiveWav must signal rollover under tiny cap"
    );
    assert!(state.bytes_served > 0, "server must have emitted at least the WAV header");
    assert_eq!(state.bytes_served, live_body_threshold(800));
    assert_eq!(
        chunks.concat().len() as u64,
        live_body_threshold(800),
        "HTTP body matches Content-Length"
    );
}

#[test]
fn head_does_not_supersede_live_get() {
    let mut ring = PcmRing::new(2, 48_000);
    push_f32(&mut ring, &tone(24_000, 2, 48_000.0, 0.1));
    let content = live_wav(2, 48_000);
    let mut state = StreamState::new();
    let mut body = get_wav(&mut state, &content);
    let mut served = 0_u64;
    while served < 512 {
        match body.step(&mut ring, state.live_generation, T0) {
            LiveStep::Chunk { bytes, rollover, .. } => {
                served += bytes.len() as u64;
                state.note_chunk(served, rollover, T0);
            }
            other => panic!("GET body must produce bytes, got {other:?}"),
        }
    }
    let served_before = state.bytes_served;
    assert!(served_before > 0);
    let generation = state.live_generation;

    match state.serve_stream_head(&content) {
        HeadReply::Found(head) => {
            assert_eq!(head.content_type, "audio/wav");
            assert_eq!(head.content_length, Some(LIVE_CONTENT_LENGTH));
            assert!(head.accept_ranges_none);
        }
        other => panic!("HEAD status: {other:?}"),
    }
    assert_eq!(state.live_generation, generation);
    assert_eq!(state.bytes_served, served_before);

    let mut now = T0;
    let (more, _ended) = pull_wav(&mut body, &mut ring, &mut state, &mut now);
    assert!(!more.is_empty(), "GET body must keep flowing after HEAD");
}

#[test]
fn progress_tracks_bytes_and_last_write() {
    let mut ring = PcmRing::new(2, 8_192);
    push_f32(&mut ring, &[0.0; 4_096 * 2]);
    let mut state = StreamState::new();
    assert_eq!(state.progress(), (0, None));
    state.set_max_body_bytes(2_048);
    let mut body = get_wav(&mut state, &live_wav(2, 48_000));
    let mut now = T0;
    pull_wav(&mut body, &mut ring, &mut state, &mut now);
    let (bytes, last) = state.progress();
    assert!(bytes > 0);
    assert!(last.is_some());
    assert_eq!(bytes, state.bytes_served);
    get_wav(&mut state, &live_wav(2, 48_000));
    assert_eq!(state.progress(), (0, None));
}

#[test]
fn second_live_get_ends_first_body() {
    let mut ring = PcmRing::new(2, 4096);
    let content = live_wav(2, 48_000);
    let mut state = StreamState::new();
    let mut first = get_wav(&mut state, &content);
    assert!(matches!(
        first.step(&mut ring, state.live_generation, T0),
        LiveStep::Chunk { .. }
    ));
    let mut second = get_wav(&mut state, &content);
    assert!(matches!(
        second.step(&mut ring, state.live_generation, T0),
        LiveStep::Chunk { .. }
    ));
    ring.push_i16(&[1; 64]);
    assert!(
        matches!(first.step(&mut ring, state.live_generation, T0), LiveStep::End),
        "superseded LiveWav body must end"
    );
    assert_eq!(ring.available_frames(), 32, "a superseded body takes no PCM");
    assert_eq!(state.rollover.count(), 0, "supersede must not signal rollover");
}

#[test]
fn live_wav_sends_no_silence_mid_stream() {
    let mut ring = PcmRing::new(2, 4_096);
    ring.push_i16(&[7; 20]);
    let mut state = StreamState::new();
    state.live_generation = 1;
    let header = continuous_wav_header(2, 48_000).expect("header");
    let mut body = LiveWavBody::new(header, 2, 48_000, 0, 1, LIVE_CONTENT_LENGTH);
    let mut now = T0;
    let (chunks, ended) = pull_wav(&mut body, &mut ring, &mut state, &mut now);
    assert!(!ended);
    assert_eq!(chunks[1..].concat(), [7_u8, 0].repeat(20));
    assert_eq!(ring.underrun_polls(), 1);
}

#[test]
fn live_wav_path_is_lossless() {
    let mut ring = PcmRing::new(2, 4_096);
    let mut state = StreamState::new();
    state.live_generation = 1;
    let header = continuous_wav_header(2, 48_000).expect("header");
    let mut body = LiveWavBody::new(header, 2, 48_000, 3, 1, LIVE_CONTENT_LENGTH);
    let mut now = T0;
    let mut pushed = Vec::new();
    let mut sent = Vec::new();
    for round in 0_i16..6 {
        let samples: Vec<i16> = (0..2 * (round + 1)).map(|n| 1_000 * round - n).collect();
        ring.push_i16(&samples);
        pushed.extend_from_slice(&samples);
        if round % 2 == 1 {
            let (chunks, ended) = pull_wav(&mut body, &mut ring, &mut state, &mut now);
            assert!(!ended);
            sent.extend(chunks.concat());
        }
    }
    let mut expected = header.to_vec();
    expected.extend_from_slice(&[0; 12]);
    for sample in pushed {
        expected.extend_from_slice(&sample.to_le_bytes());
    }
    assert_eq!(sent, expected);
    assert_eq!(ring.available_frames(), 0);
    assert_eq!(ring.frames_dropped_overflow(), 0);
}

#[test]
fn live_flac_path_is_lossless() {
    let mut ring = PcmRing::new(1, 2 * FLAC_BLOCK_SIZE);
    let mut state = StreamState::new();
    let mut flac = get_flac(&mut state, &live_flac(1, 8_000));
    let preroll = round_up_to_flac_blocks(silence_preroll_frames(8_000));
    let mut now = T0;
    let mut sent = Vec::new();
    let mut pushed: Vec<i32> = Vec::new();
    for round in 0..5_i32 {
        let samples: Vec<i16> =
            (0..1_000_i32).map(|n| ((n * 37 + round * 911) % 20_000 - 10_000) as i16).collect();
        ring.push_i16(&samples);
        pushed.extend(samples.iter().map(|&s| i32::from(s)));
        let (bytes, ended) = pull_flac(&mut flac, &mut ring, &mut state, &mut now);
        assert!(!ended);
        sent.extend(bytes);
    }
    let (_, _, decoded) = claxon_decode_prefix(&sent);
    let taken = decoded.len() - preroll;
    assert_eq!(taken, pushed.len() / FLAC_BLOCK_SIZE * FLAC_BLOCK_SIZE);
    assert!(decoded[..preroll].iter().all(|&s| s == 0));
    assert_eq!(decoded[preroll..], pushed[..taken]);
    assert_eq!(ring.available_frames(), pushed.len() - taken);
}

#[test]
fn live_flac_preroll_then_bit_exact_pcm() {
    let sample_rate = 8_000_u32;
    let channels = 1_u16;
    let preroll = round_up_to_flac_blocks(silence_preroll_frames(sample_rate));
    assert!(preroll >= silence_preroll_frames(sample_rate));
    assert_eq!(preroll % FLAC_BLOCK_SIZE, 0);

    let pattern_frames = FLAC_BLOCK_SIZE;
    let pattern_f32 = tone(pattern_frames, 1, sample_rate as f32, 0.5);
    let mut probe = PcmRing::new(channels, pattern_frames);
    push_f32(&mut probe, &pattern_f32);
    let mut expected_i16 = Vec::new();
    assert_eq!(probe.pop_i16(pattern_frames, &mut expected_i16), pattern_frames);

    let mut ring = PcmRing::new(channels, pattern_frames * 4);
    push_f32(&mut ring, &pattern_f32);
    let mut state = StreamState::new();
    let mut flac = get_flac(&mut state, &live_flac(channels, sample_rate));
    let mut now = T0;
    let (body, ended) = pull_flac(&mut flac, &mut ring, &mut state, &mut now);
    assert!(!ended);
    assert!(body.len() > 42, "expected STREAMINFO + frames, got {}", body.len());
    assert_eq!(&body[0..4], b"fLaC");

    let (got_rate, got_ch, decoded) = claxon_decode_prefix(&body);
    assert_eq!(got_rate, sample_rate);
    assert_eq!(got_ch, u32::from(channels));
    let need = preroll + pattern_frames;
    assert!(decoded.len() >= need, "decoded {} samples, need at least {need}", decoded.len());
    for (i, &s) in decoded.iter().take(preroll).enumerate() {
        assert_eq!(s, 0, "preroll sample {i} must be silence, got {s}");
    }
    let bare_preroll = silence_preroll_frames(sample_rate);
    for (i, &s) in decoded.iter().take(bare_preroll).enumerate() {
        assert_eq!(s, 0, "bare preroll sample {i} must be silence");
    }
    let after = &decoded[preroll..preroll + pattern_frames];
    for (i, (&orig, &dec)) in expected_i16.iter().zip(after.iter()).enumerate() {
        assert_eq!(i32::from(orig), dec, "PCM mismatch at sample {i}");
    }
}

#[test]
fn live_flac_stereo_channel_order_bit_exact() {
    let sample_rate = 8_000_u32;
    let channels = 2_u16;
    let preroll = round_up_to_flac_blocks(silence_preroll_frames(sample_rate));
    let preroll_samples = preroll * usize::from(channels);
    let pattern_frames = FLAC_BLOCK_SIZE;
    let mut pattern_f32 = Vec::with_capacity(pattern_frames * 2);
    for _ in 0..pattern_frames {
        pattern_f32.push(0.5);
        pattern_f32.push(-0.5);
    }
    let mut probe = PcmRing::new(channels, pattern_frames);
    push_f32(&mut probe, &pattern_f32);
    let mut expected_i16 = Vec::new();
    assert_eq!(probe.pop_i16(pattern_frames, &mut expected_i16), pattern_frames);
    assert_ne!(expected_i16[0], expected_i16[1], "L/R must differ");

    let mut ring = PcmRing::new(channels, pattern_frames * 4);
    push_f32(&mut ring, &pattern_f32);
    let mut state = StreamState::new();
    let mut flac = get_flac(&mut state, &live_flac(channels, sample_rate));
    let mut now = T0;
    let (body, _ended) = pull_flac(&mut flac, &mut ring, &mut state, &mut now);
    assert!(body.len() > 42, "expected STREAMINFO + frames, got {}", body.len());
    assert_eq!(&body[0..4], b"fLaC");

    let (got_rate, got_ch, decoded) = claxon_decode_prefix(&body);
    assert_eq!(got_rate, sample_rate);
    assert_eq!(got_ch, u32::from(channels));
    let need = preroll_samples + expected_i16.len();
    assert!(decoded.len() >= need, "decoded {} samples, need at least {need}", decoded.len());
    for (i, &s) in decoded.iter().take(preroll_samples).enumerate() {
        assert_eq!(s, 0, "preroll sample {i} must be silence, got {s}");
    }
    let after = &decoded[preroll_samples..preroll_samples + expected_i16.len()];
    for (i, (&orig, &dec)) in expected_i16.iter().zip(after.iter()).enumerate() {
        assert_eq!(i32::from(orig), dec, "PCM mismatch at sample {i}");
    }
    for frame in 0..pattern_frames {
        let left = after[frame * 2];
        let right = after[frame * 2 + 1];
        assert!(left > 0, "L must be positive at frame {frame}, got {left}");
        assert!(right < 0, "R must be negative at frame {frame}, got {right}");
    }
}

#[test]
fn live_flac_second_get_reemits_header_and_supersedes() {
    let sample_rate = 8_000_u32;
    let mut ring = PcmRing::new(1, 48_000);
    push_f32(&mut ring, &tone(16_000, 1, sample_rate as f32, 0.1));
    let content = live_flac(1, sample_rate);
    let mut state = StreamState::new();

    let mut first = get_flac(&mut state, &content);
    match first.step(&mut ring, state.live_generation, T0) {
        LiveStep::Chunk { bytes, .. } => {
            assert_eq!(&bytes[0..4], b"fLaC", "first GET must start with fLaC");
        }
        other => panic!("unexpected {other:?}"),
    }
    let mut second = get_flac(&mut state, &content);
    match second.step(&mut ring, state.live_generation, T0) {
        LiveStep::Chunk { bytes, .. } => {
            assert_eq!(&bytes[0..4], b"fLaC", "second GET must re-emit fLaC header");
        }
        other => panic!("unexpected {other:?}"),
    }
    assert!(
        matches!(first.step(&mut ring, state.live_generation, T0), LiveStep::End),
        "superseded LiveFlac body must end"
    );
    let mut now = T0;
    pull_flac(&mut second, &mut ring, &mut state, &mut now);
    assert_eq!(state.rollover.count(), 0, "LiveFlac must not signal rollover");
}

#[test]
fn live_flac_headers_are_audio_flac_chunked_no_content_length() {
    let content = live_flac(1, 8_000);
    let mut state = StreamState::new();
    get_flac(&mut state, &content);
    let generation = state.live_generation;
    match state.serve_stream_head(&content) {
        HeadReply::Found(head) => {
            assert_eq!(head.content_type, "audio/flac");
            assert_eq!(head.content_length, None);
            assert!(head.accept_ranges_none);
        }
        other => panic!("HEAD: {other:?}"),
    }
    assert_eq!(state.live_generation, generation);
}

#[test]
fn live_flac_that_no_encoder_takes_fails() {
    let mut state = StreamState::new();
    let reply = state.serve_stream(&live_flac(9, 48_000));
    assert!(matches!(reply, GetReply::Failed(_)), "{reply:?}");
}

#[test]
fn live_flac_waits_for_a_full_block() {
    let mut ring = PcmRing::new(1, 48_000);
    ring.push_i16(&[1; FLAC_BLOCK_SIZE - 1]);
    let mut state = StreamState::new();
    let mut body = get_flac(&mut state, &live_flac(1, 8_000));
    let mut now = T0;
    pull_flac(&mut body, &mut ring, &mut state, &mut now);
    assert_eq!(ring.available_frames(), FLAC_BLOCK_SIZE - 1);
    ring.push_i16(&[1]);
    let (frame, _ended) = pull_flac(&mut body, &mut ring, &mut state, &mut now);
    assert!(!frame.is_empty());
    assert_eq!(ring.available_frames(), 0);
}

#[test]
fn ring_drops_are_reported_once_a_second() {
    let mut log = DropLog::new();
    assert_eq!(log.maybe_log_ring_drops(0, T0), None);
    assert_eq!(log.maybe_log_ring_drops(5, T0), Some(5));
    assert_eq!(log.maybe_log_ring_drops(9, T0 + DROP_LOG_INTERVAL - 1), None);
    assert_eq!(log.maybe_log_ring_drops(9, T0 + DROP_LOG_INTERVAL), Some(4));
}
