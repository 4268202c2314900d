//! AirPlay identity, pause detection and advertised receivers.

use std::collections::hash_map::DefaultHasher;
use std::hash::{Hash, Hasher};

use play_on_air::airplay::{
    audio_init, format_hwaddr, hash_device_id, hwaddr_from_hash, raop_port_from_hash,
    short_device_id, should_emit_idle_pause, stable_hwaddr, stable_raop_port, AirPlayManager,
    AirPlaySessionEvent, EnsurePlan, RingSession, StreamNotice, DEFAULT_RING_FRAMES, PAUSE_IDLE,
    PAUSE_IDLE_MILLIS,
};
use play_on_air::clock::from_millis;

#[test]
fn stable_hwaddr_is_locally_administered_unicast() {
    let mac = stable_hwaddr("cast-device-abc");
    assert_eq!(mac[0] & 0x01, 0, "must be unicast");
    assert_eq!(mac[0] & 0x02, 0x02, "must be locally administered");
}

#[test]
fn stable_hwaddr_deterministic() {
    assert_eq!(stable_hwaddr("x"), stable_hwaddr("x"));
    assert_ne!(stable_hwaddr("a"), stable_hwaddr("b"));
}

#[test]
fn stable_raop_port_in_range() {
    let p = stable_raop_port("device-1");
    assert!((5100..6100).contains(&p));
    assert_eq!(stable_raop_port("device-1"), stable_raop_port("device-1"));
}

#[test]
fn device_hash_is_that_of_the_standard_hasher() {
    for id in ["", "x", "device-1", "cafe-\u{e9}\u{1f3b5}"] {
        let mut hasher = DefaultHasher::new();
        id.hash(&mut hasher);
        let expected = hasher.finish();
        assert_eq!(hash_device_id(id), expected);
        assert_eq!(stable_hwaddr(id), hwaddr_from_hash(expected));
        assert_eq!(stable_raop_port(id), raop_port_from_hash(expected));
    }
}

#[test]
fn addresses_and_ports_from_hashes() {
    assert_eq!(
        hwaddr_from_hash(0xAABB_FDEE_DDCC_BBAA),
        [0xFE, 0xEE, 0xDD, 0xCC, 0xBB, 0xAA]
    );
    assert_eq!(hwaddr_from_hash(0), [2, 0, 0, 0, 0, 0]);
    for h in [0_u64, 1, 0x0123_4567_89AB_CDEF, u64::MAX] {
        assert_eq!(hwaddr_from_hash(h)[0], (((h >> 40) as u8) & 0xFE) | 0x02);
    }
    assert_eq!(raop_port_from_hash(0), 5100);
    assert_eq!(raop_port_from_hash(1_999), 6099);
    assert_eq!(format_hwaddr([2, 0xAB, 0, 0x9F, 0x10, 0xFF]), "02:ab:00:9f:10:ff");
    assert_eq!(short_device_id("123456789"), "12345678");
    assert_eq!(short_device_id("1234"), "1234");
}

#[test]
fn should_emit_idle_pause_requires_idle_and_empty_ring() {
    let threshold = 2_500_u64;
    assert!(!should_emit_idle_pause(3_000, threshold, 1));
    assert!(!should_emit_idle_pause(threshold, threshold, 100));
    assert!(!should_emit_idle_pause(749, threshold, 0));
    assert!(!should_emit_idle_pause(2_499, threshold, 0));
    assert!(should_emit_idle_pause(threshold, threshold, 0));
    assert!(should_emit_idle_pause(threshold + 1, threshold, 0));
}

#[test]
fn pause_idle_is_above_typical_buffered_gaps() {
    assert!(PAUSE_IDLE >= from_millis(2_000));
    assert_eq!(PAUSE_IDLE, from_millis(PAUSE_IDLE_MILLIS));
}

#[test]
fn ring_handler_rebuilds_ring_for_format_channels() {
    let (rate, mut ring) = audio_init(44_100, 1);
    assert_eq!(rate, 44_100);
    assert_eq!(ring.channels(), 1);
    let mut session = RingSession::new(0);
    assert_eq!(session.audio_process(&mut ring, &[3277, 6553, 9830], 10), None);
    assert_eq!(ring.available_frames(), 3);
    assert_eq!(
        session.audio_flush(&mut ring, 20),
        vec![StreamNotice::Flushed, StreamNotice::Paused]
    );
    assert_eq!(ring.available_frames(), 0);
}

#[test]
fn stream_formats_are_clamped() {
    let (rate, ring) = audio_init(0, 0);
    assert_eq!(rate, 1);
    assert_eq!(ring.channels(), 1);
    let (_, six) = audio_init(96_000, 6);
    assert_eq!(six.channels(), 2);
    let (_, mut small) = audio_init(8_000, 1);
    small.push_i16(&vec![1; DEFAULT_RING_FRAMES + 1]);
    assert_eq!(small.available_frames(), DEFAULT_RING_FRAMES);
    let (_, mut big) = audio_init(96_000, 1);
    big.push_i16(&vec![1; 192_001]);
    assert_eq!(big.available_frames(), 192_000);
}

#[test]
fn stream_pauses_and_resumes_once() {
    let (_, mut ring) = audio_init(48_000, 2);
    let mut s = RingSession::new(1_000);
    assert_eq!(s.poll_idle(0, 100_000), None);
    assert_eq!(s.audio_process(&mut ring, &[1, 1], 2_000), None);
    assert_eq!(s.poll_idle(1, 9_000), None);
    assert_eq!(s.poll_idle(0, 4_499), None);
    assert_eq!(s.poll_idle(0, 4_500), Some(StreamNotice::Paused));
    assert_eq!(s.poll_idle(0, 9_000), None);
    assert_eq!(s.note_pcm(9_100), Some(StreamNotice::Resumed));
    assert_eq!(s.note_pcm(9_200), None);
    assert_eq!(
        s.audio_flush(&mut ring, 9_300),
        vec![StreamNotice::Flushed, StreamNotice::Paused]
    );
    assert_eq!(s.audio_flush(&mut ring, 9_400), vec![StreamNotice::Flushed]);
    assert_eq!(s.audio_process(&mut ring, &[1, 1], 9_500), Some(StreamNotice::Resumed));
}

#[test]
fn events_know_their_device() {
    let d = || "dev".to_owned();
    let events: Vec<AirPlaySessionEvent<u8, i32>> = vec![
        AirPlaySessionEvent::Started { device_id: d(), sample_rate: 1, ring: 0 },
        AirPlaySessionEvent::Ended { device_id: d() },
        AirPlaySessionEvent::Paused { device_id: d() },
        AirPlaySessionEvent::Resumed { device_id: d() },
        AirPlaySessionEvent::Flushed { device_id: d() },
        AirPlaySessionEvent::Volume { device_id: d(), volume: -3 },
    ];
    assert!(events.iter().all(|e| e.event_device_id() == "dev"));
}

#[test]
fn receivers_start_rename_and_stop() {
    let mut m: AirPlayManager<u32> = AirPlayManager::new();
    assert!(matches!(m.ensure("a", "Gym"), EnsurePlan::Start(None)));
    assert!(m.started("a".to_owned(), "Gym".to_owned(), 7).is_none());
    assert!(matches!(m.ensure("a", "Gym"), EnsurePlan::Running));
    assert_eq!(m.active_ids(), vec!["a"]);
    let rx = m.receiver("a").expect("receiver");
    assert_eq!(rx.port, stable_raop_port("a"));
    assert_eq!(rx.server, 7);
    match m.ensure("a", "Kitchen") {
        EnsurePlan::Start(Some(old)) => assert_eq!(old.name, "Gym"),
        other => panic!("unexpected {other:?}"),
    }
    assert!(m.active_ids().is_empty());
    assert!(m.started("a".to_owned(), "Kitchen".to_owned(), 8).is_none());
    assert_eq!(m.remove("a").map(|r| r.server), Some(8));
    assert!(m.remove("a").is_none());
}

#[test]
fn kicked_device_stays_withdrawn_until_the_kick_is_over() {
    let mut m: AirPlayManager<u32> = AirPlayManager::new();
    m.started("a".to_owned(), "Gym".to_owned(), 1);
    let rx = m.begin_kick("a").expect("receiver");
    let port = rx.port;
    assert!(matches!(m.ensure("a", "Gym"), EnsurePlan::Kicking));
    assert!(m.active_ids().is_empty());
    m.started("a".to_owned(), rx.name, 2);
    m.end_kick("a");
    assert!(matches!(m.ensure("a", "Gym"), EnsurePlan::Running));
    assert_eq!(m.receiver("a").map(|r| r.port), Some(port));
    assert!(m.begin_kick("b").is_none());
    m.end_kick("b");
    assert!(matches!(m.ensure("b", "Bath"), EnsurePlan::Start(None)));
}

#[test]
fn volume_is_seeded_once() {
    let mut m: AirPlayManager<u32> = AirPlayManager::new();
    assert!(!m.needs_volume_seed("a"));
    assert!(!m.note_reported_volume("a"));
    m.started("a".to_owned(), "Gym".to_owned(), 1);
    assert!(m.needs_volume_seed("a"));
    assert!(m.note_reported_volume("a"));
    assert!(!m.needs_volume_seed("a"));
    m.started("a".to_owned(), "Gym".to_owned(), 2);
    assert!(m.needs_volume_seed("a"));
}
