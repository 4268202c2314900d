//! Cast payloads, ownership policy, warm workers.

use play_on_air::cast::pool::{
    call_error, cast_transport_still_owned, classify_cast_probe_error, drain_goes_on,
    jitter_seed, ownership_action, probe_media_session, reconnect_backoff_delay, CallFailure,
    CastClientError, CastPool, Drained, EnsureWorker, IdleReasonKind, MediaProbe, MediaReply,
    OwnershipAction, OwnershipInputs, PoolCall, ProbeFailureKind, COMMAND_TIMEOUT,
    HEARTBEAT_INTERVAL, VOLUME_TIMEOUT,
};
use play_on_air::cast::worker::{
    Action, Command, Event, Notice, Phase, Reply, Stage, Step, Worker, WorkerError,
    MIN_LOOP_WAIT,
};
use play_on_air::cast::{
    media_session_id_from_status, CastStreamKind, IdleReason, MediaLoadRequest, MediaSessionRef,
    PlayerState, Status, StatusEntry, CONTENT_TYPE_FLAC, CONTENT_TYPE_WAV,
};
use play_on_air::clock::{from_secs, Duration, Instant, NANOS_PER_MILLI};
use play_on_air::error::Error;
use play_on_air::registry::Device;

const T0: Instant = 1_000_000_000_000;

fn sample_device(id: &str) -> Device {
    Device::new(
        id.to_owned(),
        "Test".to_owned(),
        "127.0.0.1".to_owned(),
        "test.local".to_owned(),
        9,
        id.to_owned(),
        T0,
    )
}

fn as_millis(d: Duration) -> u128 {
    d / NANOS_PER_MILLI
}

fn base_inputs() -> OwnershipInputs {
    OwnershipInputs {
        transport_listed: true,
        media_session_present: Some(true),
        idle_reason: None,
        buffering: false,
        buffering_streak: 0,
        media_failure: None,
        reload_attempted: false,
        load_within_guard: false,
    }
}

fn entry(id: i32, state: PlayerState, idle: Option<IdleReason>) -> StatusEntry {
    StatusEntry { media_session_id: id, player_state: state, idle_reason: idle }
}

#[test]
fn builds_flac_live_payload() {
    let req = MediaLoadRequest::flac("http://192.168.1.2:8090/x.flac", CastStreamKind::Live)
        .with_title("Nest");
    let media = req.to_media();
    assert_eq!(media.content_id, "http://192.168.1.2:8090/x.flac");
    assert_eq!(media.content_type, CONTENT_TYPE_FLAC);
    assert!(matches!(media.stream_type, CastStreamKind::Live));
    assert!(media.metadata.is_some());
    assert_eq!(media.metadata.map(|m| m.title).as_deref(), Some("Nest"));
}

#[test]
fn builds_wav_live_payload() {
    let req = MediaLoadRequest::wav("http://10.0.0.1/s.wav", CastStreamKind::Live);
    let media = req.to_media();
    assert_eq!(media.content_type, CONTENT_TYPE_WAV);
    assert!(matches!(media.stream_type, CastStreamKind::Live));
    assert!(media.metadata.is_none());
}

#[test]
fn media_session_id_from_status_reads_first_entry() {
    let status = Status { entries: vec![entry(42, PlayerState::Playing, None)] };
    assert_eq!(media_session_id_from_status(&status).unwrap(), 42);
}

#[test]
fn media_session_id_from_empty_status_errors() {
    let status = Status { entries: vec![] };
    match media_session_id_from_status(&status) {
        Err(Error::Cast(m)) => assert_eq!(m, "LOAD status had no media session entries"),
        other => panic!("unexpected {other:?}"),
    }
}

#[test]
fn cast_transport_still_owned_true_when_present() {
    let apps = ["receiver-0", "our-transport", "other"];
    assert!(cast_transport_still_owned(&apps, "our-transport"));
}

#[test]
fn cast_transport_still_owned_false_when_absent() {
    let apps = ["youtube-app", "receiver-0"];
    assert!(!cast_transport_still_owned(&apps, "our-transport"));
}

#[test]
fn cast_transport_still_owned_false_when_empty() {
    assert!(!cast_transport_still_owned(&[], "our-transport"));
}

#[test]
fn ownership_interrupted_is_lost_signal() {
    let mut i = base_inputs();
    i.idle_reason = Some(IdleReasonKind::Interrupted);
    assert_eq!(ownership_action(i), OwnershipAction::LostSignal);
}

#[test]
fn ownership_playing_is_owned() {
    assert_eq!(ownership_action(base_inputs()), OwnershipAction::Owned);
}

#[test]
fn ownership_missing_session_is_lost() {
    let mut i = base_inputs();
    i.media_session_present = Some(false);
    assert_eq!(ownership_action(i), OwnershipAction::LostSignal);
}

#[test]
fn ownership_parse_failure_is_inconclusive() {
    let mut i = base_inputs();
    i.media_session_present = None;
    i.media_failure = Some(ProbeFailureKind::Parse);
    assert_eq!(ownership_action(i), OwnershipAction::Inconclusive);
}

#[test]
fn ownership_transport_failure_is_suspect() {
    let mut i = base_inputs();
    i.media_session_present = None;
    i.media_failure = Some(ProbeFailureKind::Transport);
    assert_eq!(ownership_action(i), OwnershipAction::SuspectReconnect);
}

#[test]
fn ownership_recoverable_idle_attempts_reload_once() {
    let mut i = base_inputs();
    i.idle_reason = Some(IdleReasonKind::Recoverable);
    assert_eq!(ownership_action(i), OwnershipAction::AttemptReload);
    i.reload_attempted = true;
    assert_eq!(ownership_action(i), OwnershipAction::LostSignal);
}

#[test]
fn ownership_recoverable_skips_reload_when_load_recent() {
    let mut i = base_inputs();
    i.idle_reason = Some(IdleReasonKind::Recoverable);
    i.load_within_guard = true;
    assert_eq!(ownership_action(i), OwnershipAction::LostSignal);
}

#[test]
fn ownership_buffering_stuck_attempts_reload() {
    let mut i = base_inputs();
    i.buffering = true;
    i.buffering_streak = 2;
    assert_eq!(ownership_action(i), OwnershipAction::Owned);
    i.buffering_streak = 3;
    assert_eq!(ownership_action(i), OwnershipAction::AttemptReload);
}

#[test]
fn ownership_transport_not_listed_is_lost() {
    let mut i = base_inputs();
    i.transport_listed = false;
    i.media_session_present = None;
    assert_eq!(ownership_action(i), OwnershipAction::LostSignal);
}

#[test]
fn reconnect_backoff_doubles_and_caps() {
    let d0 = as_millis(reconnect_backoff_delay(0, 42));
    let d1 = as_millis(reconnect_backoff_delay(1, 42));
    let d2 = as_millis(reconnect_backoff_delay(2, 42));
    let d_big = as_millis(reconnect_backoff_delay(20, 42));
    assert!(d0 >= 800 && d0 <= 1200, "d0={d0:?}");
    assert!(d1 >= 1600 && d1 <= 2400, "d1={d1:?}");
    assert!(d2 >= 3200 && d2 <= 4800, "d2={d2:?}");
    assert!(d_big <= 72_000, "cap with jitter d_big={d_big:?}");
    assert!(d_big >= 48_000, "near cap d_big={d_big:?}");
}

#[test]
fn reconnect_backoff_jitter_varies_with_seed() {
    let a = reconnect_backoff_delay(3, 1);
    let b = reconnect_backoff_delay(3, 99999);
    assert_eq!(reconnect_backoff_delay(3, 1), a);
    assert!(as_millis(a) >= 6400 && as_millis(a) <= 9600);
    assert!(as_millis(b) >= 6400 && as_millis(b) <= 9600);
}

#[test]
fn reconnect_backoff_of_zero_seed() {
    assert_eq!(as_millis(reconnect_backoff_delay(0, 0)), 800);
    assert_eq!(as_millis(reconnect_backoff_delay(u32::MAX, 0)) / 1_000, {
        let mix = u64::from(u32::MAX).wrapping_mul(0x85EB_CA6B);
        u128::from(60 * (800 + (mix % 1000) * 400 / 1000) / 1000)
    });
    assert_eq!(jitter_seed(""), 0);
    assert_eq!(jitter_seed("ab"), 97 * 31 + 98);
    assert_eq!(jitter_seed("\u{e9}"), 0xC3 * 31 + 0xA9);
}

#[test]
fn classify_io_is_transport() {
    assert_eq!(classify_cast_probe_error(&CastClientError::Io), ProbeFailureKind::Transport);
}

#[test]
fn classify_timeout_variant_is_transport() {
    assert_eq!(classify_cast_probe_error(&CastClientError::Timeout), ProbeFailureKind::Transport);
}

#[test]
fn classify_parsing_is_parse() {
    assert_eq!(classify_cast_probe_error(&CastClientError::Parsing), ProbeFailureKind::Parse);
}

#[test]
fn classify_internal_unknown_state_is_parse() {
    let err = CastClientError::Internal("Unknown player state FOO".into());
    assert_eq!(classify_cast_probe_error(&err), ProbeFailureKind::Parse);
}

#[test]
fn classify_the_rest() {
    for words in ["Timed Out", "TIMEOUT", "broken pipe", "lost Connection"] {
        let err = CastClientError::Internal(words.to_owned());
        assert_eq!(classify_cast_probe_error(&err), ProbeFailureKind::Transport, "{words}");
    }
    for err in [CastClientError::Dns, CastClientError::Tls, CastClientError::Protobuf] {
        assert_eq!(classify_cast_probe_error(&err), ProbeFailureKind::Transport, "{err:?}");
    }
    for err in [CastClientError::Serialization, CastClientError::Namespace] {
        assert_eq!(classify_cast_probe_error(&err), ProbeFailureKind::Parse, "{err:?}");
    }
}

#[test]
fn media_status_is_read_for_our_session() {
    let status = |state, idle| {
        MediaReply::Status(Status {
            entries: vec![entry(1, PlayerState::Buffering, None), entry(2, state, idle)],
        })
    };
    let present = MediaProbe {
        session_present: Some(true),
        idle_reason: None,
        buffering: false,
        failure: None,
    };
    assert_eq!(probe_media_session(&status(PlayerState::Playing, None), 2), present);
    assert_eq!(
        probe_media_session(&status(PlayerState::Idle, Some(IdleReason::Interrupted)), 2),
        MediaProbe { idle_reason: Some(IdleReasonKind::Interrupted), ..present }
    );
    assert_eq!(
        probe_media_session(&status(PlayerState::Idle, None), 2),
        MediaProbe { idle_reason: Some(IdleReasonKind::Recoverable), ..present }
    );
    assert_eq!(
        probe_media_session(&status(PlayerState::Paused, Some(IdleReason::Error)), 1),
        MediaProbe { buffering: true, ..present }
    );
    assert_eq!(
        probe_media_session(&status(PlayerState::Playing, None), 3),
        MediaProbe { session_present: Some(false), ..present }
    );
    let failed = |kind| MediaProbe {
        session_present: None,
        idle_reason: None,
        buffering: false,
        failure: Some(kind),
    };
    assert_eq!(
        probe_media_session(&MediaReply::NotConnected, 2),
        failed(ProbeFailureKind::Transport)
    );
    assert_eq!(
        probe_media_session(&MediaReply::Failed(CastClientError::Serialization), 2),
        failed(ProbeFailureKind::Parse)
    );
}

#[test]
fn draining_stops_at_the_limit() {
    assert!(drain_goes_on(7, Drained::Answered));
    assert!(drain_goes_on(0, Drained::Other));
    assert!(!drain_goes_on(8, Drained::Other));
    assert!(!drain_goes_on(1, Drained::PongFailed));
    assert!(!drain_goes_on(1, Drained::Failed(ProbeFailureKind::Parse)));
}

#[test]
fn worker_shutdown_joins_without_panic() {
    let mut pool: CastPool<u8> = CastPool::new();
    let device = sample_device("nest-shutdown-test");
    assert_eq!(pool.ensure(&device), EnsureWorker::Spawn);
    assert!(pool.started(&device, 1).is_none());
    assert!(pool.device_ids().contains(&device.id));
    assert!(pool.remove(&device.id).is_some());
    assert!(!pool.device_ids().contains(&device.id));
    let (mut worker, _) = connected_worker();
    let end = worker.handle(Event::Command(Command::Shutdown), T0);
    assert!(matches!(end.action, Action::Exit));
}

#[test]
fn load_without_worker_errors() {
    let pool: CastPool<u8> = CastPool::new();
    let err = pool.worker("missing-device").unwrap_err();
    let msg = err.message();
    assert!(msg.contains("no warm Cast worker"), "expected missing-worker error, got: {msg}");
}

#[test]
fn stop_best_effort_without_worker_is_noop() {
    let pool: CastPool<u8> = CastPool::new();
    assert!(pool.worker("no-such").is_err());
    assert!(pool.device_ids().is_empty());
}

#[test]
fn ensure_idempotent_same_endpoint() {
    let mut pool: CastPool<u8> = CastPool::new();
    let device = sample_device("nest-idempotent");
    assert_eq!(pool.ensure(&device), EnsureWorker::Spawn);
    pool.started(&device, 1);
    assert_eq!(pool.ensure(&device), EnsureWorker::Unchanged);
    assert_eq!(pool.device_ids().len(), 1);
    for id in pool.device_ids() {
        pool.remove(&id);
    }
    assert!(pool.device_ids().is_empty());
}

#[test]
fn ensure_moves_the_endpoint() {
    let mut pool: CastPool<u8> = CastPool::new();
    let mut device = sample_device("d");
    pool.started(&device, 7);
    device.host = "127.0.0.2".to_owned();
    assert_eq!(pool.ensure(&device), EnsureWorker::Update);
    assert_eq!(pool.ensure(&device), EnsureWorker::Unchanged);
    let worker = pool.worker("d").expect("worker");
    assert_eq!(worker.host, "127.0.0.2");
    assert_eq!(worker.handle, 7);
}

#[test]
fn remove_unknown_is_ok() {
    let mut pool: CastPool<u8> = CastPool::new();
    assert!(pool.remove("never-existed").is_none());
}

#[test]
fn unanswered_calls_say_why() {
    let text = |call, failure| call_error(call, failure, "d").message();
    assert_eq!(
        text(PoolCall::Load, CallFailure::Disconnected),
        "cast error: warm Cast worker for d disconnected"
    );
    assert_eq!(
        text(PoolCall::Load, CallFailure::TimedOut),
        "cast error: warm Cast load timed out after 6s for d"
    );
    assert_eq!(
        text(PoolCall::SetVolume, CallFailure::TimedOut),
        "cast error: warm Cast set_volume timed out for d"
    );
    assert_eq!(
        text(PoolCall::Pause, CallFailure::ReplyDropped),
        "cast error: warm Cast pause reply dropped for d"
    );
    assert_eq!(PoolCall::Play.timeout(), COMMAND_TIMEOUT);
    assert_eq!(PoolCall::GetVolume.timeout(), VOLUME_TIMEOUT);
}

fn connected_worker() -> (Worker<i32>, Step<i32>) {
    let (mut worker, first) = Worker::new(
        "dev".to_owned(),
        "10.0.0.5".to_owned(),
        "x.local".to_owned(),
        8009,
        T0,
    );
    assert!(matches!(first.action, Action::Connect));
    assert!(!worker.core.reload_attempted && !worker.core.reachable);
    assert_eq!(worker.core.reconnect_attempt, 0);
    assert_eq!((worker.core.next_ping_at, worker.core.next_reconnect_at), (T0, T0));
    let idle = worker.handle(Event::Connected, T0);
    assert!(matches!(idle.action, Action::Receive { wait: HEARTBEAT_INTERVAL }));
    (worker, idle)
}

fn loaded() -> Event<i32> {
    Event::Loaded {
        transport_id: "web-1".to_owned(),
        status: Status { entries: vec![entry(4, PlayerState::Playing, None)] },
    }
}

fn is_ours(session: &MediaSessionRef) -> bool {
    session.transport_id == "web-1" && session.media_session_id == 4
}

fn wav() -> MediaLoadRequest {
    MediaLoadRequest::wav("http://h/s", CastStreamKind::Buffered)
}

fn playing_worker() -> Worker<i32> {
    let (mut worker, _) = connected_worker();
    let load = worker.handle(Event::Command(Command::Load(wav())), T0);
    assert!(matches!(load.action, Action::Load(_)));
    assert!(load.reply.is_none());
    let done = worker.handle(loaded(), T0);
    match done.reply {
        Some(Reply::Loaded(Ok(session))) => {
            assert!(is_ours(&session));
        }
        other => panic!("unexpected {other:?}"),
    }
    worker
}

/// Runs one idle tick up to the probe and answers it.
fn probe(worker: &mut Worker<i32>, now: Instant, media: MediaProbe) -> Step<i32> {
    let tick = worker.handle(Event::Timeout, now);
    assert!(matches!(tick.action, Action::Drain));
    let ping = worker.handle(Event::Drained, now);
    assert!(matches!(ping.action, Action::Ping));
    let ask = worker.handle(Event::Pinged, now);
    assert!(matches!(&ask.action, Action::Probe(s) if is_ours(s)));
    worker.handle(Event::Probed { listed: true, media }, now)
}

fn stolen() -> MediaProbe {
    MediaProbe {
        session_present: Some(true),
        idle_reason: Some(IdleReasonKind::Interrupted),
        buffering: false,
        failure: None,
    }
}

#[test]
fn session_is_lost_after_two_probes() {
    let mut worker = playing_worker();
    let first = probe(&mut worker, T0 + from_secs(4), stolen());
    assert_eq!(first.notice, None);
    assert!(worker.core.active.is_some());
    let second = probe(&mut worker, T0 + from_secs(8), stolen());
    assert_eq!(second.notice, Some(Notice::OwnershipLost));
    assert!(worker.core.active.is_none());
}

#[test]
fn parse_errors_never_lose_a_session() {
    let mut worker = playing_worker();
    let quirk = MediaProbe {
        session_present: None,
        idle_reason: None,
        buffering: false,
        failure: Some(ProbeFailureKind::Parse),
    };
    for n in 1..6_u64 {
        let step = probe(&mut worker, T0 + from_secs(4 * n), quirk);
        assert_eq!(step.notice, None);
        assert!(!step.drop_link);
    }
    assert!(worker.core.active.is_some());
    assert_eq!(worker.core.ownership_loss_streak, 0);
}

#[test]
fn idle_player_is_reloaded_once() {
    let mut worker = playing_worker();
    let idle = MediaProbe { idle_reason: Some(IdleReasonKind::Recoverable), ..stolen() };
    let at = T0 + from_secs(12);
    let step = probe(&mut worker, at, idle);
    assert!(matches!(step.action, Action::Load(_)), "{step:?}");
    let done = worker.handle(loaded(), at);
    assert!(done.reply.is_none());
    assert_eq!(done.notice, Some(Notice::MediaRecovered));
}

#[test]
fn load_retries_once_after_reconnecting() {
    let (mut worker, _) = connected_worker();
    worker.handle(Event::Command(Command::Load(wav())), T0);
    let failed = |w: &mut Worker<i32>| {
        w.handle(Event::LoadFailed { stage: Stage::MediaLoad, text: "reset".to_owned() }, T0)
    };
    let again = failed(&mut worker);
    assert!(again.drop_link);
    assert!(matches!(again.action, Action::Connect));
    let retry = worker.handle(Event::Connected, T0);
    assert!(matches!(retry.action, Action::Load(_)));
    let end = failed(&mut worker);
    match end.reply {
        Some(Reply::Loaded(Err(e))) => {
            assert_eq!(e.to_error().message(), "cast error: warm media load: reset");
        }
        other => panic!("unexpected {other:?}"),
    }
    assert!(matches!(worker.phase, Phase::Idle));
}

#[test]
fn only_the_newest_volume_is_sent() {
    let (mut worker, _) = connected_worker();
    let first = worker.handle(Event::Command(Command::SetVolume(1)), T0);
    assert!(matches!(first.action, Action::TryReceive));
    worker.handle(Event::Queued(Command::SetVolume(2)), T0);
    let other = worker.handle(Event::Queued(Command::Pause), T0);
    assert!(matches!(other.action, Action::SetVolume(2)));
    let set = worker.handle(Event::VolumeSet, T0);
    assert!(matches!(set.reply, Some(Reply::VolumeSet(Ok(())))));
    assert!(matches!(set.action, Action::Proceed));
    let pause = worker.handle(Event::Proceed, T0);
    assert!(matches!(pause.reply, Some(Reply::Done(Err(WorkerError::NoActiveSession)))));
}

#[test]
fn stop_ends_the_session_and_keeps_the_link() {
    let mut worker = playing_worker();
    let stop = worker.handle(Event::Command(Command::Stop), T0);
    assert!(matches!(&stop.action, Action::Stop(s) if is_ours(s)));
    assert!(worker.core.active.is_none());
    let done = worker.handle(Event::TransportDone, T0);
    assert!(matches!(done.reply, Some(Reply::Done(Ok(())))));
    assert!(!done.drop_link);
    assert!(worker.core.connected);
}

#[test]
fn volume_reading_is_answered() {
    let (mut worker, _) = connected_worker();
    let ask = worker.handle(Event::Command(Command::GetVolume), T0);
    assert!(matches!(ask.action, Action::GetVolume));
    let got = worker.handle(Event::Volume(30), T0);
    assert!(matches!(got.reply, Some(Reply::Volume(Ok(30)))));
}

#[test]
fn unreachable_device_is_retried_later() {
    let (mut worker, _) = Worker::<i32>::new(
        "dev".to_owned(),
        "10.0.0.5".to_owned(),
        String::new(),
        8009,
        T0,
    );
    let step = worker.handle(
        Event::ConnectFailed { stage: Stage::Connect, text: "refused".to_owned() },
        T0,
    );
    match step.action {
        Action::Receive { wait } => {
            assert!(wait >= from_secs(1) * 8 / 10 && wait <= from_secs(1) * 12 / 10, "{wait}");
        }
        other => panic!("unexpected {other:?}"),
    }
    assert_eq!(worker.core.next_loop_wait(T0 + from_secs(60)), MIN_LOOP_WAIT);
    let early = worker.handle(Event::Timeout, T0 + 1);
    assert!(matches!(early.action, Action::Receive { .. }));
    let late = worker.handle(Event::Timeout, T0 + from_secs(2));
    assert!(matches!(late.action, Action::Connect));
}

#[test]
fn endpoint_update_reconnects_only_when_it_changes() {
    let mut worker = playing_worker();
    let update = |host: &str| {
        Event::Command(Command::UpdateEndpoint {
            host: host.to_owned(),
            hostname: "x.local".to_owned(),
            port: 8009,
        })
    };
    let same = worker.handle(update("10.0.0.5"), T0);
    assert!(matches!(same.action, Action::Receive { .. }));
    assert!(worker.core.active.is_some());
    let moved = worker.handle(update("10.0.0.6"), T0);
    assert!(matches!(moved.action, Action::Connect));
    assert!(moved.drop_link);
    assert_eq!(worker.core.host, "10.0.0.6");
}

#[test]
fn refreshed_address_is_taken_over() {
    let (mut worker, _) = connected_worker();
    assert!(!worker.core.refresh_host(None));
    assert!(!worker.core.refresh_host(Some("10.0.0.5".to_owned())));
    assert!(worker.core.refresh_host(Some("10.0.0.9".to_owned())));
    assert_eq!(worker.core.host, "10.0.0.9");
}
