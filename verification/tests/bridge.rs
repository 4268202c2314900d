//! Bridge sessions: starting, pausing, re-loading and ending.

use play_on_air::airplay::AirPlaySessionEvent;
use play_on_air::audio::pcm::PcmRing;
use play_on_air::audio::wav::alignment_message;
use play_on_air::bridge::reload::{stop_after_load, ReloadAction, ReloadEvent, ReloadLoop};
use play_on_air::bridge::start::{
    SessionStart, StartAction, StartEvent, PREBUFFER_FRAMES, PREBUFFER_POLL, PREBUFFER_POLLS,
};
use play_on_air::bridge::{
    buffered_wav_request, call_for, encode_session_snapshot_flac, join_budget, session_content,
    session_end_steps, session_format, should_pause_cast, static_flac_content, teardown_steps, verify_flac_snapshot,
    volume_after_load, Bridge, BridgeCall, DeliverAction, Delivery, LoadVolumePolicy, PauseCall,
    PauseSkipReason, SessionEndStep, SnapshotReport, TeardownStep, INFLIGHT_LOAD_JOIN_TIMEOUT,
    PAUSE_GRACE, PAUSE_RING_PCM_THRESHOLD, ROLLOVER_TASK_JOIN_TIMEOUT,
};
use play_on_air::cast::pool::COMMAND_TIMEOUT;
use play_on_air::cast::{CastStreamKind, MediaSessionRef};
use play_on_air::clock::{from_millis, from_secs, Instant};
use play_on_air::error::Error;
use play_on_air::media::http::MediaContent;
use play_on_air::registry::Device;

const NOW: Instant = 1_000_000_000_000;

fn device(id: &str) -> Device {
    Device::new(
        id.to_owned(),
        "Test".to_owned(),
        "127.0.0.1".to_owned(),
        "test.local".to_owned(),
        9,
        id.to_owned(),
        NOW,
    )
}

#[test]
fn session_end_steps_media_before_cast_stop() {
    let steps = session_end_steps();
    assert_eq!(steps.len(), 2);
    assert_eq!(steps[0], SessionEndStep::MediaShutdown);
    assert_eq!(steps[1], SessionEndStep::CastStopBestEffort);
}

#[test]
fn teardown_marks_dead_then_joins_then_ends() {
    assert_eq!(
        teardown_steps(),
        [
            TeardownStep::MarkDead,
            TeardownStep::CancelReload,
            TeardownStep::JoinReload(ROLLOVER_TASK_JOIN_TIMEOUT),
            TeardownStep::JoinLoad(INFLIGHT_LOAD_JOIN_TIMEOUT),
            TeardownStep::End(SessionEndStep::MediaShutdown),
            TeardownStep::End(SessionEndStep::CastStopBestEffort),
        ]
    );
}

#[test]
fn volume_after_load_preserve_device_and_rollover() {
    assert_eq!(volume_after_load::<f32>(LoadVolumePolicy::PreserveDevice), None);
    assert_eq!(volume_after_load::<f32>(LoadVolumePolicy::Rollover { last_volume: None }), None);
    assert_eq!(
        volume_after_load(LoadVolumePolicy::Rollover { last_volume: Some(0.42) }),
        Some(0.42)
    );
}

#[test]
fn should_pause_cast_skips_within_grace_when_ring_empty() {
    let now = NOW;
    let eligible = now + from_secs(2);
    assert_eq!(
        should_pause_cast(now, eligible, 0, PAUSE_RING_PCM_THRESHOLD),
        Err(PauseSkipReason::WithinGrace)
    );
}

#[test]
fn should_pause_cast_skips_when_ring_has_pcm_even_after_grace() {
    let now = NOW;
    let eligible = now;
    assert_eq!(
        should_pause_cast(now, eligible, PAUSE_RING_PCM_THRESHOLD + 1, PAUSE_RING_PCM_THRESHOLD),
        Err(PauseSkipReason::RingHasPcm)
    );
    let future_eligible = now + from_secs(2);
    assert_eq!(
        should_pause_cast(now, future_eligible, PAUSE_RING_PCM_THRESHOLD + 1, PAUSE_RING_PCM_THRESHOLD),
        Err(PauseSkipReason::RingHasPcm)
    );
}

#[test]
fn should_pause_cast_allows_when_eligible_and_ring_drained() {
    let now = NOW;
    let eligible = now;
    assert_eq!(should_pause_cast(now, eligible, 0, PAUSE_RING_PCM_THRESHOLD), Ok(()));
    assert_eq!(
        should_pause_cast(now, eligible, PAUSE_RING_PCM_THRESHOLD, PAUSE_RING_PCM_THRESHOLD),
        Ok(())
    );
    assert_eq!(should_pause_cast(eligible, eligible, 0, PAUSE_RING_PCM_THRESHOLD), Ok(()));
}

#[test]
fn should_pause_cast_table() {
    let t0 = NOW;
    let cases = [
        (0, PAUSE_GRACE, 0, 256, Err(PauseSkipReason::WithinGrace)),
        (PAUSE_GRACE, PAUSE_GRACE, 0, 256, Ok(())),
        (PAUSE_GRACE + from_millis(1), PAUSE_GRACE, 0, 256, Ok(())),
        (0, PAUSE_GRACE, 257, 256, Err(PauseSkipReason::RingHasPcm)),
        (PAUSE_GRACE, PAUSE_GRACE, 257, 256, Err(PauseSkipReason::RingHasPcm)),
        (PAUSE_GRACE, PAUSE_GRACE, 256, 256, Ok(())),
        (PAUSE_GRACE, PAUSE_GRACE, 1, 0, Err(PauseSkipReason::RingHasPcm)),
        (PAUSE_GRACE, PAUSE_GRACE, 0, 0, Ok(())),
    ];
    for (i, (now_off, elig_off, frames, threshold, expected)) in cases.iter().enumerate() {
        let now = t0 + *now_off;
        let eligible = t0 + *elig_off;
        assert_eq!(
            should_pause_cast(now, eligible, *frames, *threshold),
            *expected,
            "case {i}: now_off={now_off:?} elig_off={elig_off:?} frames={frames} thr={threshold}"
        );
    }
    assert_eq!(PauseSkipReason::WithinGrace.as_str(), "grace");
    assert_eq!(PauseSkipReason::RingHasPcm.as_str(), "ring_has_pcm");
}

#[test]
fn handle_pause_skips_within_grace_without_cast_call() {
    let mut bridge: Bridge<u8, f32> = Bridge::new();
    assert!(bridge.activate("dev-grace".to_owned(), 1, None, NOW).is_none());
    assert_eq!(
        bridge.handle_pause("dev-grace", 0, NOW),
        PauseCall::Skip(PauseSkipReason::WithinGrace)
    );
    assert!(bridge.has_session("dev-grace"));
    assert!(bridge.end_session("dev-grace").is_some());
}

#[test]
fn handle_pause_skips_when_ring_has_pcm() {
    let mut bridge: Bridge<u8, f32> = Bridge::new();
    let mut ring = PcmRing::new(2, 1024);
    ring.push_i16(&vec![328; (PAUSE_RING_PCM_THRESHOLD + 10) * 2]);
    assert!(ring.available_frames() > PAUSE_RING_PCM_THRESHOLD);
    bridge.activate("dev-pcm".to_owned(), 1, None, NOW);
    let later = NOW + PAUSE_GRACE;
    assert_eq!(
        bridge.handle_pause("dev-pcm", ring.available_frames(), later),
        PauseCall::Skip(PauseSkipReason::RingHasPcm)
    );
    assert!(bridge.has_session("dev-pcm"));
    assert_eq!(bridge.handle_pause("dev-pcm", 0, later), PauseCall::Pause);
    assert_eq!(bridge.handle_pause("other", 0, later), PauseCall::NoSession);
    assert!(bridge.handle_resume("dev-pcm"));
    assert!(!bridge.handle_resume("other"));
}

#[test]
fn inflight_load_join_timeout_covers_cast_command_timeout() {
    assert!(INFLIGHT_LOAD_JOIN_TIMEOUT >= from_secs(25));
    assert!(INFLIGHT_LOAD_JOIN_TIMEOUT > COMMAND_TIMEOUT);
}

#[test]
fn handle_volume_updates_last_volume_on_active_session() {
    let mut bridge: Bridge<u8, f32> = Bridge::new();
    assert!(!bridge.handle_volume("dev-vol", 1.0));
    bridge.activate("dev-vol".to_owned(), 5, None, NOW);
    assert!(bridge.handle_volume("dev-vol", 1.0));
    let session = bridge.session("dev-vol").expect("session");
    assert_eq!(session.last_volume, Some(1.0));
    assert_eq!(session.media, 5);
    assert_eq!(session.pause_eligible_at, NOW + PAUSE_GRACE);
    let stored = session.last_volume;
    assert_eq!(volume_after_load::<f32>(LoadVolumePolicy::PreserveDevice), None);
    assert_eq!(volume_after_load(LoadVolumePolicy::Rollover { last_volume: stored }), Some(1.0));
    assert_eq!(
        volume_after_load(LoadVolumePolicy::Rollover { last_volume: Some(0.25) }),
        Some(0.25)
    );
    assert!(bridge.end_session("dev-vol").is_some());
    assert!(bridge.session_ids().is_empty());
}

#[test]
fn stale_session_start_skips_without_prebuffer_or_session() {
    let (mut start, first) = SessionStart::new("dev-1".to_owned());
    assert!(matches!(first, StartAction::LookAtRing));
    let action = start.step(StartEvent::Ring { current: false, frames: PREBUFFER_FRAMES });
    assert!(matches!(action, StartAction::Skip));
}

#[test]
fn session_start_with_receiver_gone_skips() {
    let (mut start, _) = SessionStart::new("dev-1".to_owned());
    assert!(matches!(
        start.step(StartEvent::Ring { current: false, frames: 0 }),
        StartAction::Skip
    ));
    assert!(start.device().is_none());
}

fn to_prebuffer() -> SessionStart {
    let (mut start, _) = SessionStart::new("dev-1".to_owned());
    assert!(matches!(
        start.step(StartEvent::Ring { current: true, frames: 0 }),
        StartAction::EndPrevious
    ));
    assert!(matches!(start.step(StartEvent::PreviousEnded), StartAction::FindDevice));
    assert!(matches!(
        start.step(StartEvent::Found(Some(device("dev-1")))),
        StartAction::LookAtRing
    ));
    start
}

fn to_media() -> SessionStart {
    let mut start = to_prebuffer();
    assert!(matches!(
        start.step(StartEvent::Ring { current: true, frames: PREBUFFER_FRAMES }),
        StartAction::EncodeSnapshot
    ));
    assert!(matches!(start.step(StartEvent::SnapshotDone), StartAction::LookAtRing));
    assert!(matches!(
        start.step(StartEvent::Ring { current: true, frames: 0 }),
        StartAction::StartMedia
    ));
    start
}

#[test]
fn session_start_loads_then_activates() {
    let mut start = to_media();
    assert_eq!(start.device().map(|d| d.host.as_str()), Some("127.0.0.1"));
    match start.step(StartEvent::MediaStarted(Ok("http://h:1/stream".to_owned()))) {
        StartAction::Load(request) => {
            assert_eq!(request.content_url, "http://h:1/stream");
            assert_eq!(request.content_type, "audio/wav");
            assert_eq!(request.stream_kind, CastStreamKind::Buffered);
            assert_eq!(request.title.as_deref(), Some("Test"));
        }
        other => panic!("unexpected {other:?}"),
    }
    let session = MediaSessionRef::new("t".to_owned(), 4);
    assert!(matches!(start.step(StartEvent::Loaded(Ok(session))), StartAction::ReadVolume));
    assert!(matches!(start.step(StartEvent::VolumeRead), StartAction::Activate));
}

#[test]
fn session_start_waits_a_bounded_time_for_pcm() {
    let mut start = to_prebuffer();
    for n in 0..PREBUFFER_POLLS {
        match start.step(StartEvent::Ring { current: true, frames: PREBUFFER_FRAMES - 1 }) {
            StartAction::Sleep(d) => assert_eq!(d, PREBUFFER_POLL, "poll {n}"),
            other => panic!("unexpected {other:?}"),
        }
        assert!(matches!(start.step(StartEvent::Slept), StartAction::LookAtRing));
    }
    match start.step(StartEvent::Ring { current: false, frames: 23_999 }) {
        StartAction::Fail(Error::Bridge(m)) => assert_eq!(
            m,
            "prebuffer timeout after 8s: 23999 frames available, need 24000"
        ),
        other => panic!("unexpected {other:?}"),
    }
}

#[test]
fn session_start_failures() {
    let (mut unknown, _) = SessionStart::new("gone".to_owned());
    unknown.step(StartEvent::Ring { current: true, frames: 0 });
    unknown.step(StartEvent::PreviousEnded);
    match unknown.step(StartEvent::Found(None)) {
        StartAction::Fail(Error::Bridge(m)) => assert_eq!(m, "unknown device gone"),
        other => panic!("unexpected {other:?}"),
    }
    let mut restarted = to_prebuffer();
    assert!(matches!(
        restarted.step(StartEvent::Ring { current: false, frames: PREBUFFER_FRAMES }),
        StartAction::Skip
    ));
    let mut no_media = to_media();
    match no_media.step(StartEvent::MediaStarted(Err(Error::Media("bind".to_owned())))) {
        StartAction::Fail(Error::Media(m)) => assert_eq!(m, "bind"),
        other => panic!("unexpected {other:?}"),
    }
    let mut no_load = to_media();
    no_load.step(StartEvent::MediaStarted(Ok("u".to_owned())));
    match no_load.step(StartEvent::Loaded(Err(Error::Cast("offline".to_owned())))) {
        StartAction::ShutDownMedia(Error::Cast(m)) => assert_eq!(m, "offline"),
        other => panic!("unexpected {other:?}"),
    }
}

#[test]
fn session_end_cancels_rollover_reload_loop() {
    let (mut task, first) = ReloadLoop::new::<f32>();
    assert!(matches!(first, ReloadAction::WaitPast(0)));
    assert!(matches!(
        task.step::<f32>(ReloadEvent::Cancelled, true, None),
        ReloadAction::Stop
    ));
}

#[test]
fn rollover_signal_invokes_reload_path_without_panic() {
    let (mut task, _) = ReloadLoop::new::<f32>();
    assert!(matches!(
        task.step(ReloadEvent::RolledOver(1), true, Some(0.5)),
        ReloadAction::LockSlot
    ));
    match task.step(ReloadEvent::SlotLocked, true, Some(0.5)) {
        ReloadAction::Load(policy) => assert_eq!(volume_after_load(policy), Some(0.5)),
        other => panic!("unexpected {other:?}"),
    }
    assert!(matches!(
        task.step::<f32>(ReloadEvent::LoadDone, true, None),
        ReloadAction::WaitPast(1)
    ));
}

#[test]
fn dead_session_is_not_reloaded() {
    for event in [ReloadEvent::RolledOver(3), ReloadEvent::Cancelled] {
        let (mut task, _) = ReloadLoop::new::<f32>();
        assert!(matches!(task.step::<f32>(event, false, None), ReloadAction::Stop));
    }
    let (mut late, _) = ReloadLoop::new::<f32>();
    late.step::<f32>(ReloadEvent::RolledOver(1), true, None);
    assert!(matches!(
        late.step::<f32>(ReloadEvent::SlotLocked, false, None),
        ReloadAction::Stop
    ));
    let (mut dropped, _) = ReloadLoop::new::<f32>();
    dropped.step::<f32>(ReloadEvent::RolledOver(1), true, None);
    dropped.step::<f32>(ReloadEvent::SlotLocked, true, None);
    assert!(matches!(
        dropped.step::<f32>(ReloadEvent::LoadDropped, true, None),
        ReloadAction::Stop
    ));
    assert!(stop_after_load(false));
    assert!(!stop_after_load(true));
}

#[test]
fn events_become_calls() {
    let d = || "dev".to_owned();
    let call = |e: AirPlaySessionEvent<u8, i32>| call_for(e);
    let (id, start) = call(AirPlaySessionEvent::Started { device_id: d(), sample_rate: 44_100, ring: 3 });
    assert_eq!(id, "dev");
    assert!(matches!(start, BridgeCall::Start { sample_rate: 44_100, ring: 3 }));
    assert!(matches!(call(AirPlaySessionEvent::Ended { device_id: d() }).1, BridgeCall::End));
    assert!(matches!(call(AirPlaySessionEvent::Paused { device_id: d() }).1, BridgeCall::Pause));
    assert!(matches!(call(AirPlaySessionEvent::Flushed { device_id: d() }).1, BridgeCall::Pause));
    assert!(matches!(call(AirPlaySessionEvent::Resumed { device_id: d() }).1, BridgeCall::Resume));
    assert!(matches!(
        call(AirPlaySessionEvent::Volume { device_id: d(), volume: -6 }).1,
        BridgeCall::Volume(-6)
    ));
}

#[test]
fn dead_workers_are_replaced_once() {
    let (mut known, first) = Delivery::new(true);
    assert_eq!(first, DeliverAction::Send);
    assert_eq!(known.answer(false), DeliverAction::SpawnAndSend);
    assert_eq!(known.answer(false), DeliverAction::GiveUp);
    let (mut fresh, spawn) = Delivery::new(false);
    assert_eq!(spawn, DeliverAction::SpawnAndSend);
    assert_eq!(fresh.answer(true), DeliverAction::Delivered);
    assert_eq!(join_budget(10, 4), Some(6));
    assert_eq!(join_budget(10, 10), None);
}

#[test]
fn encode_session_snapshot_flac_roundtrip() {
    let mut ring = PcmRing::new(2, 8192);
    let mut samples = Vec::with_capacity(4096);
    for n in 0..2048 {
        let t = n as f32 / 48_000.0;
        let s = (2.0 * std::f32::consts::PI * 440.0 * t).sin() * 0.4;
        let v = (s * 32_767.0).round() as i16;
        samples.push(v);
        samples.push(v);
    }
    ring.push_i16(&samples);
    assert!(matches!(
        verify_flac_snapshot(&ring, 2, 48_000),
        SnapshotReport::Encoded { frames: 2048, .. }
    ));

    let flac = encode_session_snapshot_flac(&mut ring, 2, 48_000, 2048).expect("snapshot");
    assert!(flac.len() > 42);
    assert_eq!(&flac[0..4], b"fLaC");
    assert_eq!(ring.available_frames(), 0);
    assert!(matches!(verify_flac_snapshot(&ring, 2, 48_000), SnapshotReport::Skipped));

    let content: MediaContent<u8> = static_flac_content(flac);
    match content {
        MediaContent::Static { content_type, body } => {
            assert_eq!(content_type, "audio/flac");
            assert!(body.len() > 42);
        }
        MediaContent::LiveWav { .. } | MediaContent::LiveFlac { .. } | MediaContent::Empty => {
            panic!("expected Static media content");
        }
    }
}

#[test]
fn encode_session_snapshot_empty_errors() {
    let mut ring = PcmRing::new(2, 64);
    let err = encode_session_snapshot_flac(&mut ring, 2, 48_000, 128).unwrap_err();
    assert!(matches!(err, Error::Bridge(_)));
}

#[test]
fn snapshot_that_cannot_be_encoded_fails() {
    let mut ring = PcmRing::new(2, 64);
    ring.push_i16(&[1, 2]);
    let reason = |channels: u16, rate: u32| match verify_flac_snapshot(&ring, channels, rate) {
        SnapshotReport::Failed(Error::Audio(m)) => m,
        other => panic!("unexpected {other:?}"),
    };
    assert_eq!(reason(0, 48_000), "channels must be at least 1");
    assert_eq!(reason(2, 0), "sample_rate must be non-zero");
    assert_eq!(reason(3, 48_000), alignment_message(2, 3));
    assert!(reason(2, 96_001).starts_with("FLAC encode failed: "));
    match encode_session_snapshot_flac(&mut ring, 3, 48_000, 64) {
        Err(Error::Audio(m)) => assert_eq!(m, alignment_message(2, 3)),
        other => panic!("unexpected {other:?}"),
    }
    assert_eq!(ring.available_frames(), 0);
    assert_eq!(ring.underrun_polls(), 0);
}

#[test]
fn sessions_serve_live_wav() {
    let format = |channels: u16, rate: u32| match session_content("ring", channels, rate) {
        MediaContent::LiveWav { ring, channels, sample_rate } => (ring, channels, sample_rate),
        other => panic!("unexpected {other:?}"),
    };
    assert_eq!(format(2, 44_100), ("ring", 2, 44_100));
    assert_eq!(format(0, 0), ("ring", 1, 1));
    assert_eq!(session_format(0, 48_000), (1, 48_000));
}

#[test]
fn wav_requests_are_buffered() {
    let r = buffered_wav_request("u", "t");
    assert_eq!(r.content_type, "audio/wav");
    assert_eq!(r.stream_kind, CastStreamKind::Buffered);
}
