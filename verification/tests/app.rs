//! Maintenance, restarts and order.

use play_on_air::airplay::AirPlayManager;
use play_on_air::app::{
    is_orphan_worker, ownership_loss_steps, shutdown_steps, startup_steps, App, Maintenance,
    OwnershipLossStep, RestartBudget, ShutdownStep, StartupStep, MAINTAIN_RESTART_WINDOW,
    POOL_BLOCKING_JOIN,
};
use play_on_air::clock::{from_secs, Instant};
use play_on_air::config::{Config, DeviceConfig};
use play_on_air::registry::{
    Device, DeviceRegistry, WithdrawDecision, DEFAULT_STALE_TTL, SESSION_GUARD_GONE,
};
use play_on_air::table::Table;

const NOW: Instant = 10_000_000_000_000;

fn device(id: &str, name: &str) -> Device {
    Device::new(
        id.to_owned(),
        name.to_owned(),
        "10.0.0.5".to_owned(),
        "x.local".to_owned(),
        8009,
        name.to_owned(),
        NOW,
    )
}

#[test]
fn hidden_devices_are_not_wanted() {
    let config = Config {
        devices: vec![
            DeviceConfig { id: "bath".to_owned(), name: None, hide: true },
            DeviceConfig { id: "gym".to_owned(), name: Some("Sport".to_owned()), hide: false },
        ],
    };
    let mut app = App::new(config);
    app.registry.appear(device("1", "Gym"), NOW);
    app.registry.appear(device("2", "Bath"), NOW);
    app.registry.appear(device("3", "Hall"), NOW);
    let mut m = Maintenance::new();
    let wanted = m.wanted(&app.registry.list(), &app.config);
    let names: Vec<(&str, &str)> =
        wanted.iter().map(|w| (w.device.id.as_str(), w.airplay_name.as_str())).collect();
    assert_eq!(names, vec![("1", "Sport"), ("3", "Hall")]);
}

#[test]
fn due_leaves_are_not_desired_since_their_leave_began() {
    let mut reg = DeviceRegistry::new();
    let mut m = Maintenance::new();
    reg.appear(device("1", "Gym"), NOW);
    reg.mark_pending_leave("1", NOW, from_secs(20));
    assert!(m.apply_due_leaves(&mut reg, NOW + from_secs(19)).is_empty());
    let left = m.apply_due_leaves(&mut reg, NOW + from_secs(20));
    assert_eq!(left.len(), 1);
    assert!(reg.is_empty());
    let at = |s: u64| NOW + from_secs(s);
    assert_eq!(m.withdraw_step("1", false, true, at(30)), WithdrawDecision::Defer);
    assert_eq!(m.withdraw_step("1", false, false, at(59)), WithdrawDecision::Defer);
    assert_eq!(m.withdraw_step("1", false, false, at(60)), WithdrawDecision::Withdraw);
}

#[test]
fn idle_devices_go_at_once_and_desired_ones_stay() {
    let mut m = Maintenance::new();
    assert_eq!(m.withdraw_step("1", false, false, NOW), WithdrawDecision::Withdraw);
    assert_eq!(m.withdraw_step("2", true, false, NOW), WithdrawDecision::Keep);
    assert_eq!(m.withdraw_step("3", false, true, NOW), WithdrawDecision::Defer);
    assert_eq!(m.withdraw_step("3", true, true, NOW), WithdrawDecision::Keep);
    assert_eq!(m.withdraw_step("3", false, false, NOW), WithdrawDecision::Withdraw);
}

#[test]
fn expired_devices_go_with_their_session() {
    let mut reg = DeviceRegistry::new();
    let mut m = Maintenance::new();
    reg.appear(device("1", "Gym"), NOW);
    reg.appear(device("2", "Hall"), NOW);
    let late = NOW + DEFAULT_STALE_TTL + 1;
    let expired = m.take_expired(&mut reg, late);
    assert_eq!(expired.len(), 2);
    assert!(m.note_expired("1", false, late));
    assert!(!m.note_expired("2", true, late));
    assert_eq!(m.withdraw_step("2", false, true, late), WithdrawDecision::Defer);
    assert_eq!(m.withdraw_step("2", false, false, late), WithdrawDecision::Withdraw);
    assert!(!m.note_expired("3", true, 5));
    assert_eq!(m.withdraw_step("3", false, false, 6), WithdrawDecision::Defer);
    assert_eq!(
        m.withdraw_step("3", false, false, 5 + SESSION_GUARD_GONE),
        WithdrawDecision::Withdraw
    );
}

#[test]
fn volume_attempts_are_capped_until_the_device_comes_back() {
    let config = Config::default();
    let mut m = Maintenance::new();
    let mut airplay: AirPlayManager<u8> = AirPlayManager::new();
    let devices = vec![device("1", "Gym")];
    m.wanted(&devices, &config);
    assert!(m.volume_seeds(&devices, &airplay).is_empty());
    airplay.started("1".to_owned(), "Gym".to_owned(), 0);
    for n in 1..=5 {
        assert_eq!(m.volume_seeds(&devices, &airplay), vec!["1"]);
        assert_eq!(m.note_volume_seed("1", false), n);
    }
    assert!(m.volume_seeds(&devices, &airplay).is_empty());
    m.wanted(&devices, &config);
    assert!(m.volume_seeds(&devices, &airplay).is_empty());
    m.wanted(&Vec::new(), &config);
    m.wanted(&devices, &config);
    assert_eq!(m.volume_seeds(&devices, &airplay), vec!["1"]);
    assert_eq!(m.note_volume_seed("1", true), 0);
    airplay.note_reported_volume("1");
    assert!(m.volume_seeds(&devices, &airplay).is_empty());
}

#[test]
fn devices_seen_again_get_fresh_volume_attempts() {
    let config = Config::default();
    let mut reg = DeviceRegistry::new();
    let mut m = Maintenance::new();
    let mut airplay: AirPlayManager<u8> = AirPlayManager::new();
    airplay.started("1".to_owned(), "Gym".to_owned(), 0);
    airplay.started("2".to_owned(), "Hall".to_owned(), 0);
    reg.appear(device("1", "Gym"), NOW);
    reg.appear(device("2", "Hall"), NOW);
    m.wanted(&reg.list(), &config);
    for _ in 0..5 {
        m.note_volume_seed("1", false);
        m.note_volume_seed("2", false);
    }
    assert!(m.note_reseen(&mut reg).is_empty());
    assert!(m.volume_seeds(&reg.list(), &airplay).is_empty());
    reg.mark_pending_leave("1", NOW, from_secs(20));
    reg.appear(device("1", "Gym"), NOW + from_secs(1));
    assert_eq!(m.note_reseen(&mut reg), vec!["1"]);
    assert_eq!(m.volume_seeds(&reg.list(), &airplay), vec!["1"]);
    assert!(reg.drain_pending_leave_cancellations().is_empty());
    assert_eq!(reg.list().len(), 2);
}

#[test]
fn restarts_are_budgeted() {
    let mut budget = RestartBudget::new();
    for n in 0..5 {
        assert!(budget.allow(NOW + n));
    }
    assert!(!budget.allow(NOW + 5));
    assert!(!budget.allow(NOW + MAINTAIN_RESTART_WINDOW - 1));
    assert!(budget.allow(NOW + MAINTAIN_RESTART_WINDOW));
    assert!(!budget.allow(NOW + MAINTAIN_RESTART_WINDOW));
}

#[test]
fn workers_without_purpose_are_orphans() {
    assert!(is_orphan_worker(false, false, false));
    assert!(!is_orphan_worker(true, false, false));
    assert!(!is_orphan_worker(false, true, false));
    assert!(!is_orphan_worker(false, false, true));
}

#[test]
fn everything_has_its_order() {
    assert_eq!(startup_steps()[0], StartupStep::BindPtpSink);
    assert_eq!(startup_steps()[5], StartupStep::StartMaintain);
    assert_eq!(shutdown_steps()[0], ShutdownStep::JoinMaintain);
    assert_eq!(shutdown_steps()[4], ShutdownStep::ShutDownPool(POOL_BLOCKING_JOIN));
    assert_eq!(
        ownership_loss_steps(),
        [OwnershipLossStep::EndSession, OwnershipLossStep::KickClients]
    );
}

#[test]
fn tables_keep_one_value_per_id() {
    let mut t: Table<u8> = Table::new();
    assert!(t.insert("a".to_owned(), 1).is_none());
    assert!(t.insert("b".to_owned(), 2).is_none());
    assert_eq!(t.insert("a".to_owned(), 3), Some(1));
    assert_eq!(t.get("a"), Some(&3));
    assert_eq!(t.keys(), vec!["b", "a"]);
    assert_eq!(t.remove("b"), Some(2));
    assert_eq!(t.remove("b"), None);
    assert!(t.contains("a"));
    assert_eq!(t.len(), 1);
}
