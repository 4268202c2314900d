//! Device registry and withdraw decisions.

use play_on_air::clock::{from_secs, Instant};
use play_on_air::registry::{
    decide_airplay_withdraw, match_device_for_leave, pending_leave_is_due, Device, DeviceRegistry,
    PendingLeaveMark, WithdrawDecision, DEFAULT_PENDING_LEAVE, DEFAULT_STALE_TTL,
    SESSION_GUARD_GONE,
};

const NOW: Instant = 1_000_000_000_000_000;

fn sample(id: &str, name: &str) -> Device {
    sample_with_instance(id, name, name)
}

fn sample_with_instance(id: &str, name: &str, instance: &str) -> Device {
    Device::new(
        id.to_owned(),
        name.to_owned(),
        "192.168.1.10".to_owned(),
        "speaker.local".to_owned(),
        8009,
        instance.to_owned(),
        NOW,
    )
}

#[test]
fn appear_list_leave() {
    let mut reg = DeviceRegistry::new();
    assert!(reg.is_empty());
    assert!(reg.appear(sample("a", "A"), NOW));
    assert!(reg.appear(sample("b", "B"), NOW));
    assert_eq!(reg.len(), 2);
    let list = reg.list();
    assert_eq!(list.len(), 2);
    let left = reg.leave("a").expect("left");
    assert_eq!(left.id, "a");
    assert_eq!(reg.len(), 1);
    assert!(reg.get("b").is_some());
}

#[test]
fn appear_updates_existing_and_cancels_pending() {
    let mut reg = DeviceRegistry::new();
    assert!(reg.appear(sample("a", "Old"), NOW));
    let now = NOW;
    assert_eq!(
        reg.mark_pending_leave("a", now, DEFAULT_PENDING_LEAVE),
        PendingLeaveMark::NewlyMarked
    );
    assert!(reg.is_pending_leave("a"));
    assert!(!reg.appear(sample("a", "New"), NOW));
    assert!(!reg.is_pending_leave("a"));
    assert_eq!(reg.len(), 1);
    assert_eq!(reg.get("a").map(|d| d.name), Some("New".to_owned()));
    assert_eq!(reg.drain_pending_leave_cancellations(), vec!["a".to_owned()]);
    assert!(reg.drain_pending_leave_cancellations().is_empty());
}

#[test]
fn appear_without_pending_does_not_queue_cancellation() {
    let mut reg = DeviceRegistry::new();
    assert!(reg.appear(sample("a", "A"), NOW));
    assert!(!reg.appear(sample("a", "A2"), NOW));
    assert!(reg.drain_pending_leave_cancellations().is_empty());
}

#[test]
fn expire_stale_removes_old_devices() {
    let mut reg = DeviceRegistry::new();
    let _ = reg.appear(sample("stale", "Stale"), NOW - (DEFAULT_STALE_TTL + from_secs(60)));
    let _ = reg.appear(sample("fresh", "Fresh"), NOW);

    let removed = reg.expire_stale(DEFAULT_STALE_TTL, NOW);
    assert_eq!(removed.len(), 1);
    assert_eq!(removed.first().map(|d| d.id.as_str()), Some("stale"));
    assert_eq!(reg.len(), 1);
    assert!(reg.get("fresh").is_some());
    assert!(reg.get("stale").is_none());
}

#[test]
fn expire_stale_keeps_recent() {
    let mut reg = DeviceRegistry::new();
    let _ = reg.appear(sample("a", "A"), NOW);
    let removed = reg.expire_stale(DEFAULT_STALE_TTL, NOW);
    assert!(removed.is_empty());
    assert_eq!(reg.len(), 1);
}

#[test]
fn expire_stale_skips_pending_leave() {
    let mut reg = DeviceRegistry::new();
    let _ = reg.appear(sample("p", "P"), NOW - (DEFAULT_STALE_TTL + from_secs(60)));
    assert_eq!(
        reg.mark_pending_leave("p", NOW, DEFAULT_PENDING_LEAVE),
        PendingLeaveMark::NewlyMarked
    );
    let removed = reg.expire_stale(DEFAULT_STALE_TTL, NOW);
    assert!(removed.is_empty());
    assert!(reg.get("p").is_some());
}

#[test]
fn stale_begins_after_the_ttl() {
    let mut reg = DeviceRegistry::new();
    let _ = reg.appear(sample("a", "A"), NOW);
    assert!(reg.prune_older_than(from_secs(10), NOW + from_secs(10)).is_empty());
    assert_eq!(reg.prune_older_than(from_secs(10), NOW + from_secs(10) + 1).len(), 1);
}

#[test]
fn pending_leave_deadline_and_take_due() {
    let mut reg = DeviceRegistry::new();
    let _ = reg.appear(sample("a", "A"), NOW);
    let now = NOW;
    assert_eq!(
        reg.mark_pending_leave("a", now, from_secs(20)),
        PendingLeaveMark::NewlyMarked
    );
    assert!(reg.take_due_leaves(now + from_secs(10)).is_empty());
    assert_eq!(reg.len(), 1);
    let due = reg.take_due_leaves(now + from_secs(21));
    assert_eq!(due.len(), 1);
    assert_eq!(due[0].id, "a");
    assert!(reg.is_empty());
}

#[test]
fn mark_pending_leave_second_call_is_already_pending_and_keeps_deadline() {
    let mut reg = DeviceRegistry::new();
    let _ = reg.appear(sample("a", "A"), NOW);
    let now = NOW;
    assert_eq!(
        reg.mark_pending_leave("a", now, from_secs(20)),
        PendingLeaveMark::NewlyMarked
    );
    let first_deadline = reg
        .get("a")
        .and_then(|d| d.pending_leave_deadline)
        .expect("deadline after first mark");
    let first_since = reg
        .get("a")
        .and_then(|d| d.pending_leave_since)
        .expect("since after first mark");
    assert_eq!(first_deadline, now + from_secs(20));
    assert_eq!(first_since, now);

    let later = now + from_secs(5);
    assert_eq!(
        reg.mark_pending_leave("a", later, from_secs(20)),
        PendingLeaveMark::AlreadyPending
    );
    let after = reg.get("a").expect("still present");
    assert_eq!(after.pending_leave_deadline, Some(first_deadline));
    assert_eq!(after.pending_leave_since, Some(first_since));
}

#[test]
fn mark_pending_leave_unknown_id() {
    let mut reg = DeviceRegistry::new();
    assert_eq!(
        reg.mark_pending_leave("missing", NOW, DEFAULT_PENDING_LEAVE),
        PendingLeaveMark::NotFound
    );
}

#[test]
fn mark_pending_leave_by_instance_exact() {
    let mut reg = DeviceRegistry::new();
    let _ = reg.appear(sample_with_instance("abc123", "Gym", "Nest-Audio-abc123"), NOW);
    let now = NOW;
    assert!(reg
        .mark_pending_leave_by_instance("Nest-Audio", now, DEFAULT_PENDING_LEAVE)
        .is_none());
    let (id, mark) = reg
        .mark_pending_leave_by_instance("Nest-Audio-abc123", now, DEFAULT_PENDING_LEAVE)
        .expect("exact instance");
    assert_eq!(id, "abc123");
    assert_eq!(mark, PendingLeaveMark::NewlyMarked);
    assert!(reg.is_pending_leave("abc123"));
    let (id2, mark2) = reg
        .mark_pending_leave_by_instance("Nest-Audio-abc123", now + from_secs(1), DEFAULT_PENDING_LEAVE)
        .expect("still present");
    assert_eq!(id2, "abc123");
    assert_eq!(mark2, PendingLeaveMark::AlreadyPending);
}

#[test]
fn mark_pending_leave_by_id_exact() {
    let mut reg = DeviceRegistry::new();
    let _ = reg.appear(sample_with_instance("abc123", "Gym", "Nest-Audio-abc123"), NOW);
    let (id, mark) = reg
        .mark_pending_leave_by_instance("abc123", NOW, DEFAULT_PENDING_LEAVE)
        .expect("id match");
    assert_eq!(id, "abc123");
    assert_eq!(mark, PendingLeaveMark::NewlyMarked);
}

#[test]
fn match_device_for_leave_no_contains() {
    let devices = vec![
        sample_with_instance("deadbeef", "A", "Nest-Audio-deadbeef"),
        sample_with_instance("cafe", "B", "Other"),
    ];
    assert!(match_device_for_leave(&devices, "dead").is_none());
    assert_eq!(
        match_device_for_leave(&devices, "Nest-Audio-deadbeef").map(|d| d.id.as_str()),
        Some("deadbeef")
    );
    assert_eq!(match_device_for_leave(&devices, "cafe").map(|d| d.id.as_str()), Some("cafe"));
}

#[test]
fn decide_airplay_withdraw_matrix() {
    assert_eq!(
        decide_airplay_withdraw(true, false, from_secs(100), 0),
        WithdrawDecision::Keep
    );
    assert_eq!(
        decide_airplay_withdraw(false, true, from_secs(100), SESSION_GUARD_GONE),
        WithdrawDecision::Defer
    );
    assert_eq!(decide_airplay_withdraw(false, false, 0, 0), WithdrawDecision::Withdraw);
    assert_eq!(
        decide_airplay_withdraw(false, false, from_secs(30), SESSION_GUARD_GONE),
        WithdrawDecision::Defer
    );
    assert_eq!(
        decide_airplay_withdraw(false, false, SESSION_GUARD_GONE, SESSION_GUARD_GONE),
        WithdrawDecision::Withdraw
    );
}

#[test]
fn pending_leave_is_due_ordering() {
    let t0 = NOW;
    let t1 = t0 + from_secs(20);
    assert!(!pending_leave_is_due(t1, t0));
    assert!(pending_leave_is_due(t0, t1));
    assert!(pending_leave_is_due(t0, t0));
}

#[test]
fn cancel_pending_leave() {
    let mut reg = DeviceRegistry::new();
    let _ = reg.appear(sample("a", "A"), NOW);
    assert!(!reg.cancel_pending_leave("a"));
    assert_eq!(
        reg.mark_pending_leave("a", NOW, DEFAULT_PENDING_LEAVE),
        PendingLeaveMark::NewlyMarked
    );
    assert!(reg.cancel_pending_leave("a"));
    assert!(!reg.is_pending_leave("a"));
}

#[test]
fn list_present_excludes_pending() {
    let mut reg = DeviceRegistry::new();
    let _ = reg.appear(sample("a", "A"), NOW);
    let _ = reg.appear(sample("b", "B"), NOW);
    assert_eq!(
        reg.mark_pending_leave("a", NOW, DEFAULT_PENDING_LEAVE),
        PendingLeaveMark::NewlyMarked
    );
    let present = reg.list_present();
    assert_eq!(present.len(), 1);
    assert_eq!(present[0].id, "b");
}

#[test]
fn default_stale_ttl_is_ten_minutes() {
    assert_eq!(DEFAULT_STALE_TTL, from_secs(600));
}

#[test]
fn withdraw_decision_defers_live_session() {
    assert_eq!(
        decide_airplay_withdraw(false, true, from_secs(600), SESSION_GUARD_GONE),
        WithdrawDecision::Defer
    );
}

#[test]
fn withdraw_decision_idle_leave_immediate() {
    assert_eq!(decide_airplay_withdraw(false, false, 0, 0), WithdrawDecision::Withdraw);
}

#[test]
fn withdraw_decision_after_session_guard_floor() {
    assert_eq!(
        decide_airplay_withdraw(false, false, from_secs(30), SESSION_GUARD_GONE),
        WithdrawDecision::Defer
    );
    assert_eq!(
        decide_airplay_withdraw(false, false, SESSION_GUARD_GONE, SESSION_GUARD_GONE),
        WithdrawDecision::Withdraw
    );
}
