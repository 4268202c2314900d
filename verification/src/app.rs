//! The application: keeping advertisements and Cast workers in step with the devices
//! that are there, and starting and stopping everything in order.

use vstd::prelude::*;
use crate::airplay::AirPlayManager;
use crate::clock;
use crate::clock::{saturating_duration_since, Duration, Instant};
use crate::config;
use crate::config::Config;
use crate::registry;
use crate::registry::{
    decide_airplay_withdraw, Device, DeviceRegistry, WithdrawDecision, DEFAULT_STALE_TTL,
    SESSION_GUARD_GONE,
};
use crate::table::Table;
use crate::text;
use crate::text::{chars_of, string_of};

verus! {

/// Wall-clock bound for a single attempt to read a Cast volume.
pub const VOLUME_SEED_TIMEOUT: Duration = 5_000_000_000;

/// Stop reading a device's volume after this many failures until it re-appears.
pub const VOLUME_SEED_MAX_ATTEMPTS: u32 = 5;

/// Bound for joining a blocking removal or shutdown of Cast workers.
pub const POOL_BLOCKING_JOIN: Duration = 5_000_000_000;

/// Time between two rounds of maintenance.
pub const MAINTAIN_INTERVAL: Duration = 2_000_000_000;

/// Max restarts of the maintenance task per rolling window before giving up.
pub const MAINTAIN_RESTART_MAX: usize = 5;

/// Rolling window for the restart budget.
pub const MAINTAIN_RESTART_WINDOW: Duration = 60_000_000_000;

/// Time before the maintenance task is started again.
pub const MAINTAIN_RESTART_DELAY: Duration = 200_000_000;

/// Time that the shared time-sync sink gets to bind its ports.
pub const PTP_SINK_SETTLE: Duration = 50_000_000;

/// Configuration and devices of one running application.
#[derive(Debug)]
pub struct App {
    /// The loaded (or default) configuration.
    pub config: Config,
    /// The known devices.
    pub registry: DeviceRegistry,
}

impl App {
    /// Create the app with loaded (or default) config.
    pub fn new(config: Config) -> (r: App)
        ensures
            r.config == config,
            r.registry.wf(),
            r.registry.listed() == Seq::<Device>::empty(),
    {
        App { config, registry: DeviceRegistry::new() }
    }
}

// ── Maintenance ─────────────────────────────────────────────────────────────

/// A device to advertise, and under which name.
#[derive(Debug)]
pub struct Wanted {
    /// The device.
    pub device: Device,
    /// Its AirPlay name.
    pub airplay_name: String,
}

/// What maintenance remembers from one round to the next.
#[derive(Debug)]
pub struct Maintenance {
    volume_attempts: Table<u32>,
    not_desired_since: Table<Instant>,
    session_blocked: Table<()>,
    known_ids: Table<()>,
}

/// Since when a device that has left is not desired: since its leave began.
pub open spec fn left_since(d: Device, now: Instant) -> Instant {
    match d.pending_leave_since {
        Some(t) => t,
        None => now,
    }
}

/// `since` with every device that has left.
pub open spec fn since_left(since: Map<Seq<char>, Instant>, left: Seq<Device>, now: Instant) -> Map<
    Seq<char>,
    Instant,
>
    decreases left.len(),
{
    if left.len() == 0 {
        since
    } else {
        since_left(since, left.drop_last(), now).insert(left.last().id@, left_since(left.last(), now))
    }
}

/// `known` without the devices that have left.
pub open spec fn without_left(known: Set<Seq<char>>, left: Seq<Device>) -> Set<Seq<char>>
    decreases left.len(),
{
    if left.len() == 0 {
        known
    } else {
        without_left(known, left.drop_last()).remove(left.last().id@)
    }
}

/// The devices that the configuration does not hide.
pub open spec fn shown(devices: Seq<Device>, config: Config) -> Seq<Device> {
    registry::only(
        devices,
        |d: Device| !config::override_of(config.devices@, d.name@, d.id@).1,
    )
}

/// Attempt counts without those of devices that were not known before.
pub open spec fn attempts_kept(
    attempts: Map<Seq<char>, u32>,
    known: Set<Seq<char>>,
    devices: Seq<Device>,
) -> Map<Seq<char>, u32>
    decreases devices.len(),
{
    if devices.len() == 0 {
        attempts
    } else {
        let head = attempts_kept(attempts, known, devices.drop_last());
        if known.contains(devices.last().id@) {
            head
        } else {
            head.remove(devices.last().id@)
        }
    }
}

/// The ids of a series of devices.
pub open spec fn id_set(devices: Seq<Device>) -> Set<Seq<char>>
    decreases devices.len(),
{
    if devices.len() == 0 {
        Set::empty()
    } else {
        id_set(devices.drop_last()).insert(devices.last().id@)
    }
}

/// The ids of the devices whose volume is still to be read.
pub open spec fn seeds(
    devices: Seq<Device>,
    needs: spec_fn(Seq<char>) -> bool,
    attempts: Map<Seq<char>, u32>,
) -> Seq<Seq<char>>
    decreases devices.len(),
{
    if devices.len() == 0 {
        Seq::empty()
    } else {
        let head = seeds(devices.drop_last(), needs, attempts);
        let id = devices.last().id@;
        if needs(id) && tried(attempts, id) < VOLUME_SEED_MAX_ATTEMPTS {
            head.push(id)
        } else {
            head
        }
    }
}

/// How often reading a device's volume failed.
pub open spec fn tried(attempts: Map<Seq<char>, u32>, id: Seq<char>) -> u32 {
    if attempts.dom().contains(id) {
        attempts[id]
    } else {
        0
    }
}

/// Since when a device is not desired, now at the latest.
pub open spec fn undesired_since(since: Map<Seq<char>, Instant>, id: Seq<char>, now: Instant) -> Instant {
    if since.dom().contains(id) {
        since[id]
    } else {
        now
    }
}

/// What happens to an advertised device. One that is not desired goes at once, unless
/// a session has kept it: then it stays for [`SESSION_GUARD_GONE`].
pub open spec fn withdraw_verdict(
    desired: bool,
    has_session: bool,
    blocked: bool,
    since: Instant,
    now: Instant,
) -> WithdrawDecision {
    registry::withdraw_decision(
        desired,
        has_session,
        clock::elapsed(since, now),
        if has_session || blocked {
            SESSION_GUARD_GONE
        } else {
            0
        },
    )
}

/// Since when a silently vanished device counts as not desired: long enough for the
/// session guard, as far as the clock goes back.
pub open spec fn expired_since(now: Instant) -> Instant {
    if now >= SESSION_GUARD_GONE {
        (now - SESSION_GUARD_GONE) as u128
    } else {
        now
    }
}

impl Maintenance {
    /// Failed attempts to read a device's volume.
    pub closed spec fn attempts(&self) -> Map<Seq<char>, u32> {
        self.volume_attempts@
    }

    /// Since when a device is not desired.
    pub closed spec fn since(&self) -> Map<Seq<char>, Instant> {
        self.not_desired_since@
    }

    /// Devices whose withdrawal a live session has put off.
    pub closed spec fn blocked(&self) -> Set<Seq<char>> {
        self.session_blocked@.dom()
    }

    /// Devices seen in the last round.
    pub closed spec fn known(&self) -> Set<Seq<char>> {
        self.known_ids@.dom()
    }

    /// What every operation keeps.
    pub closed spec fn wf(&self) -> bool {
        &&& self.volume_attempts.wf()
        &&& self.not_desired_since.wf()
        &&& self.session_blocked.wf()
        &&& self.known_ids.wf()
    }

    /// Nothing is remembered yet.
    pub fn new() -> (r: Maintenance)
        ensures
            r.wf(),
            r.attempts() == Map::<Seq<char>, u32>::empty(),
            r.since() == Map::<Seq<char>, Instant>::empty(),
            r.blocked() == Set::<Seq<char>>::empty(),
            r.known() == Set::<Seq<char>>::empty(),
    {
        let r = Maintenance {
            volume_attempts: Table::new(),
            not_desired_since: Table::new(),
            session_blocked: Table::new(),
            known_ids: Table::new(),
        };
        proof {
            assert(r.blocked() =~= Set::<Seq<char>>::empty());
            assert(r.known() =~= Set::<Seq<char>>::empty());
        }
        r
    }

    /// Devices that were seen again while they were about to leave get fresh volume
    /// attempts. Their ids are taken from the registry.
    pub fn note_reseen(&mut self, registry: &mut DeviceRegistry) -> (reseen: Vec<String>)
        requires
            old(self).wf(),
        ensures
            final(self).wf(),
            reseen@ == old(registry).cancelled(),
            final(registry).cancelled() == Seq::<String>::empty(),
            final(registry).listed() == old(registry).listed(),
            final(self).attempts() == old(self).attempts().remove_keys(
                text::views(reseen@).to_set(),
            ),
            final(self).since() == old(self).since(),
            final(self).blocked() == old(self).blocked(),
            final(self).known() == old(self).known(),
    {
        let reseen = registry.drain_pending_leave_cancellations();
        let mut i: usize = 0;
        proof {
            assert(self.attempts() =~= old(self).attempts().remove_keys(
                text::views(reseen@.take(0)).to_set(),
            ));
        }
        while i < reseen.len()
            invariant
                i <= reseen.len(),
                self.wf(),
                self.attempts() == old(self).attempts().remove_keys(
                    text::views(reseen@.take(i as int)).to_set(),
                ),
                self.since() == old(self).since(),
                self.blocked() == old(self).blocked(),
                self.known() == old(self).known(),
            decreases reseen.len() - i,
        {
            let ghost ids = text::views(reseen@.take(i as int));
            let ghost more = text::views(reseen@.take(i as int + 1));
            proof {
                assert(more =~= ids.push(reseen@[i as int]@));
                assert forall|id: Seq<char>| #[trigger] more.to_set().contains(id)
                    == ids.to_set().insert(reseen@[i as int]@).contains(id) by {
                    if ids.contains(id) {
                        let k = choose|k: int| 0 <= k < ids.len() && ids[k] == id;
                        assert(more[k] == id);
                    }
                    if id == reseen@[i as int]@ {
                        assert(more[i as int] == id);
                    }
                    if more.contains(id) {
                        let k = choose|k: int| 0 <= k < more.len() && more[k] == id;
                        if k < ids.len() {
                            assert(ids[k] == id);
                        }
                    }
                }
            }
            let _fresh = self.volume_attempts.remove(reseen[i].as_str());
            proof {
                assert(self.attempts() =~= old(self).attempts().remove_keys(more.to_set()));
            }
            i += 1;
        }
        proof {
            assert(reseen@.take(reseen@.len() as int) =~= reseen@);
        }
        reseen
    }

    /// Devices whose pending leave is due leave the registry, and are not desired since
    /// their leave began.
    pub fn apply_due_leaves(&mut self, registry: &mut DeviceRegistry, now: Instant) -> (left: Vec<
        Device,
    >)
        requires
            old(self).wf(),
            old(registry).wf(),
        ensures
            final(self).wf(),
            final(registry).wf(),
            final(registry).cancelled() == old(registry).cancelled(),
            left@ == registry::only(old(registry).listed(), |d: Device| d.due(now)),
            final(registry).listed() == registry::only(
                old(registry).listed(),
                |d: Device| !d.due(now),
            ),
            final(self).since() == since_left(old(self).since(), left@, now),
            final(self).known() == without_left(old(self).known(), left@),
            final(self).blocked() == old(self).blocked(),
            final(self).attempts() == old(self).attempts(),
    {
        let left = registry.take_due_leaves(now);
        let mut i: usize = 0;
        proof {
            assert(left@.take(0) =~= Seq::<Device>::empty());
        }
        while i < left.len()
            invariant
                i <= left.len(),
                self.wf(),
                self.since() == since_left(old(self).since(), left@.take(i as int), now),
                self.known() == without_left(old(self).known(), left@.take(i as int)),
                self.blocked() == old(self).blocked(),
                self.attempts() == old(self).attempts(),
            decreases left.len() - i,
        {
            proof {
                assert(left@.take(i as int + 1).drop_last() =~= left@.take(i as int));
                assert(left@.take(i as int + 1).last() == left@[i as int]);
            }
            let since: Instant = match left[i].pending_leave_since {
                Some(t) => t,
                None => now,
            };
            let ghost known_before = self.known();
            let _earlier = self.not_desired_since.insert(left[i].id.clone(), since);
            let _known = self.known_ids.remove(left[i].id.as_str());
            proof {
                assert(self.known() =~= known_before.remove(left@[i as int].id@));
            }
            i += 1;
        }
        proof {
            assert(left@.take(left@.len() as int) =~= left@);
        }
        left
    }

    /// Devices that were not seen for [`DEFAULT_STALE_TTL`] leave the registry. Each is
    /// then handed to [`Maintenance::note_expired`].
    pub fn take_expired(&self, registry: &mut DeviceRegistry, now: Instant) -> (expired: Vec<
        Device,
    >)
        requires
            old(registry).wf(),
        ensures
            final(registry).wf(),
            final(registry).cancelled() == old(registry).cancelled(),
            expired@ == registry::only(
                old(registry).listed(),
                |d: Device| d.stale(DEFAULT_STALE_TTL, now),
            ),
            final(registry).listed() == registry::only(
                old(registry).listed(),
                |d: Device| !d.stale(DEFAULT_STALE_TTL, now),
            ),
    {
        registry.expire_stale(DEFAULT_STALE_TTL, now)
    }

    /// A device vanished silently. Without a session its receiver and its Cast worker
    /// go at once; with one, they go when it ends.
    pub fn note_expired(&mut self, device_id: &str, has_session: bool, now: Instant) -> (withdraw:
        bool)
        requires
            old(self).wf(),
        ensures
            final(self).wf(),
            withdraw == !has_session,
            final(self).known() == old(self).known().remove(device_id@),
            final(self).attempts() == old(self).attempts(),
            has_session ==> final(self).since() == old(self).since().insert(
                device_id@,
                expired_since(now),
            ) && final(self).blocked() == old(self).blocked().insert(device_id@),
            !has_session ==> final(self).since() == old(self).since().remove(device_id@)
                && final(self).blocked() == old(self).blocked().remove(device_id@),
    {
        let ghost known_before = self.known();
        let ghost blocked_before = self.blocked();
        let _known = self.known_ids.remove(device_id);
        if has_session {
            let ancient: Instant = if now >= SESSION_GUARD_GONE {
                now - SESSION_GUARD_GONE
            } else {
                now
            };
            let _since = self.not_desired_since.insert(
                string_of(chars_of(device_id).as_slice()),
                ancient,
            );
            let _blocked = self.session_blocked.insert(
                string_of(chars_of(device_id).as_slice()),
                (),
            );
            proof {
                assert(self.blocked() =~= blocked_before.insert(device_id@));
            }
        } else {
            let _since = self.not_desired_since.remove(device_id);
            let _blocked = self.session_blocked.remove(device_id);
            proof {
                assert(self.blocked() =~= blocked_before.remove(device_id@));
            }
        }
        proof {
            assert(self.known() =~= known_before.remove(device_id@));
        }
        !has_session
    }

    /// The devices to advertise: all that the configuration does not hide, under their
    /// configured names. A device that was not there in the last round gets fresh
    /// volume attempts.
    pub fn wanted(&mut self, devices: &Vec<Device>, config: &Config) -> (out: Vec<Wanted>)
        requires
            old(self).wf(),
        ensures
            final(self).wf(),
            out@.len() == shown(devices@, *config).len(),
            forall|i: int|
                #![trigger out@[i]]
                0 <= i < out@.len() ==> out@[i].device == shown(devices@, *config)[i]
                    && out@[i].airplay_name@ == config::override_of(
                    config.devices@,
                    out@[i].device.name@,
                    out@[i].device.id@,
                ).0,
            final(self).attempts() == attempts_kept(
                old(self).attempts(),
                old(self).known(),
                shown(devices@, *config),
            ),
            final(self).known() == id_set(devices@),
            final(self).since() == old(self).since(),
            final(self).blocked() == old(self).blocked(),
    {
        let ghost show = |d: Device| !config::override_of(config.devices@, d.name@, d.id@).1;
        let mut out: Vec<Wanted> = Vec::new();
        let mut present: Table<()> = Table::new();
        let mut i: usize = 0;
        proof {
            assert(devices@.take(0) =~= Seq::<Device>::empty());
            assert(present@.dom() =~= Set::<Seq<char>>::empty());
        }
        while i < devices.len()
            invariant
                i <= devices.len(),
                self.wf(),
                present.wf(),
                show == |d: Device| !config::override_of(config.devices@, d.name@, d.id@).1,
                present@.dom() == id_set(devices@.take(i as int)),
                out@.len() == registry::only(devices@.take(i as int), show).len(),
                forall|k: int|
                    #![trigger out@[k]]
                    0 <= k < out@.len() ==> out@[k].device == registry::only(
                        devices@.take(i as int),
                        show,
                    )[k] && out@[k].airplay_name@ == config::override_of(
                        config.devices@,
                        out@[k].device.name@,
                        out@[k].device.id@,
                    ).0,
                self.attempts() == attempts_kept(
                    old(self).attempts(),
                    old(self).known(),
                    registry::only(devices@.take(i as int), show),
                ),
                self.known() == old(self).known(),
                self.since() == old(self).since(),
                self.blocked() == old(self).blocked(),
            decreases devices.len() - i,
        {
            let ghost head = devices@.take(i as int);
            let ghost longer = devices@.take(i as int + 1);
            let ghost shown_before = registry::only(head, show);
            let ghost ids_before = present@.dom();
            proof {
                assert(longer.drop_last() =~= head);
                assert(longer.last() == devices@[i as int]);
            }
            let device = devices[i].clone();
            let _seen = present.insert(device.id.clone(), ());
            proof {
                assert(present@.dom() =~= ids_before.insert(device.id@));
            }
            let rules = config.device_override(device.name.as_str(), device.id.as_str());
            if !rules.hidden {
                if !self.known_ids.contains(device.id.as_str()) {
                    let _fresh = self.volume_attempts.remove(device.id.as_str());
                }
                proof {
                    let grown = shown_before.push(device);
                    assert(registry::only(longer, show) == grown);
                    assert(grown.drop_last() =~= shown_before);
                }
                out.push(Wanted { device, airplay_name: rules.display_name });
            }
            i += 1;
        }
        proof {
            assert(devices@.take(devices@.len() as int) =~= devices@);
            assert(registry::only(devices@, show) == shown(devices@, *config));
        }
        self.known_ids = present;
        out
    }

    /// The devices whose reported volume is still to be read from Cast.
    pub fn volume_seeds<S>(&self, devices: &Vec<Device>, airplay: &AirPlayManager<S>) -> (out: Vec<
        String,
    >)
        requires
            self.wf(),
            airplay.wf(),
        ensures
            text::views(out@) == seeds(
                devices@,
                |id: Seq<char>|
                    airplay.receivers().dom().contains(id)
                        && !airplay.receivers()[id].volume_seeded_from_cast,
                self.attempts(),
            ),
    {
        let ghost needs = |id: Seq<char>|
            airplay.receivers().dom().contains(id)
                && !airplay.receivers()[id].volume_seeded_from_cast;
        let mut out: Vec<String> = Vec::new();
        let mut i: usize = 0;
        proof {
            assert(devices@.take(0) =~= Seq::<Device>::empty());
            assert(text::views(out@) =~= Seq::<Seq<char>>::empty());
        }
        while i < devices.len()
            invariant
                i <= devices.len(),
                self.wf(),
                airplay.wf(),
                needs == |id: Seq<char>|
                    airplay.receivers().dom().contains(id)
                        && !airplay.receivers()[id].volume_seeded_from_cast,
                text::views(out@) == seeds(devices@.take(i as int), needs, self.attempts()),
            decreases devices.len() - i,
        {
            let ghost before = text::views(out@);
            proof {
                assert(devices@.take(i as int + 1).drop_last() =~= devices@.take(i as int));
                assert(devices@.take(i as int + 1).last() == devices@[i as int]);
            }
            if airplay.needs_volume_seed(devices[i].id.as_str()) {
                let attempts: u32 = match self.volume_attempts.get(devices[i].id.as_str()) {
                    Some(n) => *n,
                    None => 0,
                };
                if attempts < VOLUME_SEED_MAX_ATTEMPTS {
                    out.push(devices[i].id.clone());
                    proof {
                        assert(text::views(out@) =~= before.push(devices@[i as int].id@));
                    }
                }
            }
            i += 1;
        }
        proof {
            assert(devices@.take(devices@.len() as int) =~= devices@);
        }
        out
    }

    /// Reading a device's volume succeeded or failed; how often it has failed so far.
    pub fn note_volume_seed(&mut self, device_id: &str, read: bool) -> (failures: u32)
        requires
            old(self).wf(),
        ensures
            final(self).wf(),
            final(self).since() == old(self).since(),
            final(self).blocked() == old(self).blocked(),
            final(self).known() == old(self).known(),
            read ==> failures == 0 && final(self).attempts() == old(self).attempts().remove(
                device_id@,
            ),
            !read ==> final(self).attempts() == old(self).attempts().insert(device_id@, failures)
                && failures == if tried(old(self).attempts(), device_id@) == u32::MAX {
                u32::MAX
            } else {
                (tried(old(self).attempts(), device_id@) + 1) as u32
            },
            !read ==> failures == one_more(tried(old(self).attempts(), device_id@)),
    {
        if read {
            let _gone = self.volume_attempts.remove(device_id);
            return 0;
        }
        let before: u32 = match self.volume_attempts.get(device_id) {
            Some(n) => *n,
            None => 0,
        };
        let failures: u32 = before.saturating_add(1);
        let _old = self.volume_attempts.insert(
            string_of(chars_of(device_id).as_slice()),
            failures,
        );
        failures
    }

    /// Decide about one advertised device. When the decision is to withdraw, its
    /// receiver and its Cast worker go.
    pub fn withdraw_step(
        &mut self,
        device_id: &str,
        desired: bool,
        has_session: bool,
        now: Instant,
    ) -> (decision: WithdrawDecision)
        requires
            old(self).wf(),
        ensures
            final(self).wf(),
            final(self).attempts() == old(self).attempts(),
            final(self).known() == old(self).known(),
            ({
                let since = undesired_since(old(self).since(), device_id@, now);
                &&& decision == withdraw_verdict(
                    desired,
                    has_session,
                    old(self).blocked().contains(device_id@),
                    since,
                    now,
                )
                &&& decision == WithdrawDecision::Defer ==> final(self).since() == old(
                    self,
                ).since().insert(device_id@, since) && final(self).blocked() == (if has_session {
                    old(self).blocked().insert(device_id@)
                } else {
                    old(self).blocked()
                })
                &&& decision != WithdrawDecision::Defer ==> final(self).since() == old(
                    self,
                ).since().remove(device_id@) && final(self).blocked() == old(
                    self,
                ).blocked().remove(device_id@)
            }),
            final(self).since() == since_after(
                decision,
                old(self).since(),
                device_id@,
                undesired_since(old(self).since(), device_id@, now),
            ),
            final(self).blocked() == blocked_after(
                decision,
                old(self).blocked(),
                device_id@,
                has_session,
            ),
    {
        let ghost since_before = self.since();
        let ghost blocked_before = self.blocked();
        if desired {
            let _since = self.not_desired_since.remove(device_id);
            let _blocked = self.session_blocked.remove(device_id);
            proof {
                assert(self.blocked() =~= blocked_before.remove(device_id@));
            }
            return WithdrawDecision::Keep;
        }
        let since: Instant = match self.not_desired_since.get(device_id) {
            Some(t) => *t,
            None => now,
        };
        let gone_for: Duration = saturating_duration_since(now, since);
        let guarded: bool = has_session || self.session_blocked.contains(device_id);
        let min_gone: Duration = if guarded {
            SESSION_GUARD_GONE
        } else {
            0
        };
        let decision = decide_airplay_withdraw(false, has_session, gone_for, min_gone);
        match decision {
            WithdrawDecision::Defer => {
                let _since = self.not_desired_since.insert(
                    string_of(chars_of(device_id).as_slice()),
                    since,
                );
                if has_session {
                    let _blocked = self.session_blocked.insert(
                        string_of(chars_of(device_id).as_slice()),
                        (),
                    );
                    proof {
                        assert(self.blocked() =~= blocked_before.insert(device_id@));
                    }
                }
            },
            _ => {
                let _since = self.not_desired_since.remove(device_id);
                let _blocked = self.session_blocked.remove(device_id);
                proof {
                    assert(self.blocked() =~= blocked_before.remove(device_id@));
                }
            },
        }
        decision
    }
}

/// Whether a Cast worker has nothing to serve: its device is neither desired nor in a
/// session nor advertised.
pub fn is_orphan_worker(desired: bool, has_session: bool, advertised: bool) -> (r: bool)
    ensures
        r == !(desired || has_session || advertised),
        r == has_nothing_to_serve(desired, has_session, advertised),
{
    !desired && !has_session && !advertised
}

// ── Restarts ────────────────────────────────────────────────────────────────

/// The restarts of the maintenance task within the rolling window.
#[derive(Debug)]
pub struct RestartBudget {
    times: Vec<Instant>,
}

/// The times that are less than a window old.
pub open spec fn recent(times: Seq<Instant>, now: Instant) -> Seq<Instant>
    decreases times.len(),
{
    if times.len() == 0 {
        Seq::empty()
    } else {
        let head = recent(times.drop_last(), now);
        if clock::elapsed(times.last(), now) < MAINTAIN_RESTART_WINDOW {
            head.push(times.last())
        } else {
            head
        }
    }
}

/// Dropping old times never adds one.
proof fn lemma_recent_len(times: Seq<Instant>, now: Instant)
    ensures
        recent(times, now).len() <= times.len(),
    decreases times.len(),
{
    if times.len() > 0 {
        lemma_recent_len(times.drop_last(), now);
    }
}

impl RestartBudget {
    /// When the task was restarted, oldest first.
    pub closed spec fn times(&self) -> Seq<Instant> {
        self.times@
    }

    /// What every operation keeps: never more restarts than allowed.
    pub open spec fn wf(&self) -> bool {
        self.times().len() <= MAINTAIN_RESTART_MAX
    }

    /// No restart yet.
    pub fn new() -> (r: RestartBudget)
        ensures
            r.wf(),
            r.times() == Seq::<Instant>::empty(),
    {
        RestartBudget { times: Vec::new() }
    }

    /// Whether the task may be restarted at `now`; if so, the restart counts.
    ///
    /// At most [`MAINTAIN_RESTART_MAX`] restarts are granted in any window.
    pub fn allow(&mut self, now: Instant) -> (granted: bool)
        requires
            old(self).wf(),
        ensures
            final(self).wf(),
            granted == (recent(old(self).times(), now).len() < MAINTAIN_RESTART_MAX),
            final(self).times() == if granted {
                recent(old(self).times(), now).push(now)
            } else {
                recent(old(self).times(), now)
            },
            granted == may_restart(old(self).times(), now),
    {
        let mut kept: Vec<Instant> = Vec::new();
        let mut i: usize = 0;
        proof {
            assert(self.times@.take(0) =~= Seq::<Instant>::empty());
        }
        while i < self.times.len()
            invariant
                i <= self.times.len(),
                *self == *old(self),
                kept@ == recent(self.times@.take(i as int), now),
            decreases self.times.len() - i,
        {
            proof {
                assert(self.times@.take(i as int + 1).drop_last() =~= self.times@.take(i as int));
                assert(self.times@.take(i as int + 1).last() == self.times@[i as int]);
            }
            let t: Instant = self.times[i];
            if saturating_duration_since(now, t) < MAINTAIN_RESTART_WINDOW {
                kept.push(t);
            }
            i += 1;
        }
        proof {
            assert(self.times@.take(self.times@.len() as int) =~= self.times@);
            lemma_recent_len(self.times@, now);
        }
        if kept.len() >= MAINTAIN_RESTART_MAX {
            self.times = kept;
            return false;
        }
        kept.push(now);
        self.times = kept;
        true
    }
}

// ── Order ───────────────────────────────────────────────────────────────────

/// What the application starts, in order.
#[derive(Debug, Clone, Copy, PartialEq, Eq, Structural)]
pub enum StartupStep {
    /// Bind the shared time-sync sink, which every receiver needs.
    BindPtpSink,
    /// Give the sink a moment to bind.
    Settle(Duration),
    /// Browse for devices.
    StartDiscovery,
    /// Serve AirPlay events.
    StartBridge,
    /// Watch for devices that another application took.
    StartOwnershipWatch,
    /// Advertise what is there.
    StartMaintain,
}

/// The order of the start. Nothing is advertised before the sink had time to bind and
/// the bridge takes events.
pub fn startup_steps() -> (r: [StartupStep; 6])
    ensures
        r@ == seq![
            StartupStep::BindPtpSink,
            StartupStep::Settle(PTP_SINK_SETTLE),
            StartupStep::StartDiscovery,
            StartupStep::StartBridge,
            StartupStep::StartOwnershipWatch,
            StartupStep::StartMaintain,
        ],
{
    let steps = [
        StartupStep::BindPtpSink,
        StartupStep::Settle(PTP_SINK_SETTLE),
        StartupStep::StartDiscovery,
        StartupStep::StartBridge,
        StartupStep::StartOwnershipWatch,
        StartupStep::StartMaintain,
    ];
    proof {
        assert(steps@ =~= seq![
            StartupStep::BindPtpSink,
            StartupStep::Settle(PTP_SINK_SETTLE),
            StartupStep::StartDiscovery,
            StartupStep::StartBridge,
            StartupStep::StartOwnershipWatch,
            StartupStep::StartMaintain,
        ]);
    }
    steps
}

/// What the application stops, in order.
#[derive(Debug, Clone, Copy, PartialEq, Eq, Structural)]
pub enum ShutdownStep {
    /// Wait for maintenance, which withdraws every receiver.
    JoinMaintain,
    /// Abort discovery.
    AbortDiscovery,
    /// Wait for the bridge.
    JoinBridge,
    /// Abort the ownership watch.
    AbortOwnershipWatch,
    /// Shut the Cast workers down, at most for this long.
    ShutDownPool(Duration),
}

/// The order of the shutdown. The Cast workers go last, when nothing uses them any
/// more.
pub fn shutdown_steps() -> (r: [ShutdownStep; 5])
    ensures
        r@ == seq![
            ShutdownStep::JoinMaintain,
            ShutdownStep::AbortDiscovery,
            ShutdownStep::JoinBridge,
            ShutdownStep::AbortOwnershipWatch,
            ShutdownStep::ShutDownPool(POOL_BLOCKING_JOIN),
        ],
{
    let steps = [
        ShutdownStep::JoinMaintain,
        ShutdownStep::AbortDiscovery,
        ShutdownStep::JoinBridge,
        ShutdownStep::AbortOwnershipWatch,
        ShutdownStep::ShutDownPool(POOL_BLOCKING_JOIN),
    ];
    proof {
        assert(steps@ =~= seq![
            ShutdownStep::JoinMaintain,
            ShutdownStep::AbortDiscovery,
            ShutdownStep::JoinBridge,
            ShutdownStep::AbortOwnershipWatch,
            ShutdownStep::ShutDownPool(POOL_BLOCKING_JOIN),
        ]);
    }
    steps
}

/// What follows when another application took a device.
#[derive(Debug, Clone, Copy, PartialEq, Eq, Structural)]
pub enum OwnershipLossStep {
    /// End the device's session.
    EndSession,
    /// Drop its AirPlay clients and advertise it again.
    KickClients,
}

/// The order of what follows when another application took a device: the media goes
/// down before the clients are dropped.
pub fn ownership_loss_steps() -> (r: [OwnershipLossStep; 2])
    ensures
        r@ == seq![OwnershipLossStep::EndSession, OwnershipLossStep::KickClients],
{
    let steps = [OwnershipLossStep::EndSession, OwnershipLossStep::KickClients];
    proof {
        assert(steps@ =~= seq![OwnershipLossStep::EndSession, OwnershipLossStep::KickClients]);
    }
    steps
}

// ── Laws ────────────────────────────────────────────────────────────────────

/// A device that was seen again while it was about to leave has its volume read anew,
/// however often that had failed.
pub proof fn law_reseen_device_is_tried_again(
    attempts: Map<Seq<char>, u32>,
    reseen: Seq<Seq<char>>,
    id: Seq<char>,
)
    requires
        reseen.contains(id),
    ensures
        tried(attempts.remove_keys(reseen.to_set()), id) == 0,
{
}

/// An idle device that is no longer desired is withdrawn at once.
pub proof fn law_idle_leave_is_immediate(since: Instant, now: Instant)
    ensures
        withdraw_verdict(false, false, false, since, now) == WithdrawDecision::Withdraw,
{
}

/// A device with a live session is never withdrawn, and neither is a desired one.
pub proof fn law_session_or_desire_keeps(
    desired: bool,
    has_session: bool,
    blocked: bool,
    since: Instant,
    now: Instant,
)
    requires
        desired || has_session,
    ensures
        withdraw_verdict(desired, has_session, blocked, since, now) != WithdrawDecision::Withdraw,
{
}

/// A device whose withdrawal a session put off stays for the guard time after it was
/// last desired, and goes then.
pub proof fn law_session_guard_is_a_floor(since: Instant, now: Instant)
    ensures
        withdraw_verdict(false, false, true, since, now) == (if clock::elapsed(since, now)
            < SESSION_GUARD_GONE {
            WithdrawDecision::Defer
        } else {
            WithdrawDecision::Withdraw
        }),
{
}

/// A device that vanished silently during a session goes as soon as the session ends,
/// on a clock that goes back far enough.
pub proof fn law_expired_device_goes_with_its_session(expired_at: Instant, now: Instant)
    requires
        SESSION_GUARD_GONE <= expired_at <= now,
    ensures
        withdraw_verdict(false, false, true, expired_since(expired_at), now)
            == WithdrawDecision::Withdraw,
{
}

/// A device that has left is not desired since its leave began, or, where that was not
/// noted, since now; the times of the other devices stay.
pub proof fn law_left_devices_are_undesired_since_their_leave(
    since: Map<Seq<char>, Instant>,
    left: Seq<Device>,
    now: Instant,
    i: int,
    id: Seq<char>,
)
    requires
        registry::distinct_ids(left),
    ensures
        0 <= i < left.len() && left[i].pending_leave_since is Some ==> since_left(since, left, now)[
        left[i].id@] == left[i].pending_leave_since->0,
        0 <= i < left.len() && left[i].pending_leave_since is None ==> since_left(since, left, now)[
        left[i].id@] == now,
        0 <= i < left.len() ==> since_left(since, left, now).dom().contains(left[i].id@),
        !registry::has_id(left, id) ==> since_left(since, left, now).dom().contains(id)
            == since.dom().contains(id),
        !registry::has_id(left, id) && since.dom().contains(id) ==> since_left(since, left, now)[id]
            == since[id],
    decreases left.len(),
{
    if left.len() > 0 {
        let head = left.drop_last();
        let n = left.len() - 1;
        assert(registry::distinct_ids(head)) by {
            assert forall|a: int, b: int| 0 <= a < b < head.len() implies (#[trigger] head[a]).id@
                != (#[trigger] head[b]).id@ by {
                assert(left[a].id@ != left[b].id@);
            }
        }
        law_left_devices_are_undesired_since_their_leave(since, head, now, i, id);
        if 0 <= i < n {
            assert(head[i] == left[i]);
            assert(left[i].id@ != left[n].id@);
        }
        if !registry::has_id(left, id) {
            assert(left[n].id@ != id);
            assert(!registry::has_id(head, id)) by {
                if registry::has_id(head, id) {
                    let k = registry::position(head, id);
                    assert(left[k].id@ == id);
                }
            }
        }
    }
}

/// The devices that are still known are those that were and have not left.
pub proof fn law_left_devices_are_not_known(
    known: Set<Seq<char>>,
    left: Seq<Device>,
    id: Seq<char>,
)
    ensures
        without_left(known, left).contains(id) <==> known.contains(id) && !registry::has_id(
            left,
            id,
        ),
    decreases left.len(),
{
    if left.len() > 0 {
        law_left_devices_are_not_known(known, left.drop_last(), id);
        lemma_has_id_step(left, id);
    }
}

/// An id is among devices when it is the last one's or among those before.
proof fn lemma_has_id_step(devices: Seq<Device>, id: Seq<char>)
    requires
        devices.len() > 0,
    ensures
        registry::has_id(devices, id) <==> registry::has_id(devices.drop_last(), id)
            || devices.last().id@ == id,
{
    let head = devices.drop_last();
    if registry::has_id(head, id) {
        let k = registry::position(head, id);
        assert(devices[k].id@ == id);
    }
    if devices.last().id@ == id {
        assert(devices[devices.len() - 1].id@ == id);
    }
    if registry::has_id(devices, id) && devices.last().id@ != id {
        let k = registry::position(devices, id);
        assert(head[k].id@ == id);
    }
}

/// The known ids are those of the devices, and no others.
pub proof fn law_known_ids_are_those_of_the_devices(devices: Seq<Device>, id: Seq<char>)
    ensures
        id_set(devices).contains(id) <==> registry::has_id(devices, id),
    decreases devices.len(),
{
    if devices.len() > 0 {
        law_known_ids_are_those_of_the_devices(devices.drop_last(), id);
        lemma_has_id_step(devices, id);
    }
}

/// The count of a device's failed attempts stays, unless the device is one that was not
/// known: then it begins anew.
pub proof fn law_new_devices_are_tried_anew(
    attempts: Map<Seq<char>, u32>,
    known: Set<Seq<char>>,
    devices: Seq<Device>,
    id: Seq<char>,
)
    ensures
        registry::has_id(devices, id) && !known.contains(id) ==> tried(
            attempts_kept(attempts, known, devices),
            id,
        ) == 0,
        !registry::has_id(devices, id) || known.contains(id) ==> tried(
            attempts_kept(attempts, known, devices),
            id,
        ) == tried(attempts, id),
        attempts_kept(attempts, known, devices).dom().contains(id) <==> attempts.dom().contains(id)
            && !(registry::has_id(devices, id) && !known.contains(id)),
    decreases devices.len(),
{
    if devices.len() > 0 {
        law_new_devices_are_tried_anew(attempts, known, devices.drop_last(), id);
        lemma_has_id_step(devices, id);
    }
}

/// A device's volume is read when it needs to be and has failed fewer than five times;
/// devices are looked at one by one, in order.
pub proof fn law_volume_is_read_up_to_five_times(
    first: Seq<Device>,
    second: Seq<Device>,
    d: Device,
    needs: spec_fn(Seq<char>) -> bool,
    attempts: Map<Seq<char>, u32>,
)
    ensures
        seeds(first + second, needs, attempts) == seeds(first, needs, attempts) + seeds(
            second,
            needs,
            attempts,
        ),
        needs(d.id@) && (!attempts.dom().contains(d.id@) || attempts[d.id@] < 5) ==> seeds(
            seq![d],
            needs,
            attempts,
        ) == seq![d.id@],
        !needs(d.id@) || (attempts.dom().contains(d.id@) && attempts[d.id@] >= 5) ==> seeds(
            seq![d],
            needs,
            attempts,
        ) == Seq::<Seq<char>>::empty(),
    decreases second.len(),
{
    if second.len() == 0 {
        assert(first + second =~= first);
        assert(seeds(first, needs, attempts) + seeds(second, needs, attempts) =~= seeds(
            first,
            needs,
            attempts,
        ));
    } else {
        law_volume_is_read_up_to_five_times(first, second.drop_last(), d, needs, attempts);
        assert((first + second).drop_last() =~= first + second.drop_last());
        assert(seeds(first + second, needs, attempts) =~= seeds(first, needs, attempts) + seeds(
            second,
            needs,
            attempts,
        ));
    }
    assert(seq![d].drop_last() =~= Seq::<Device>::empty());
    assert(seeds(Seq::<Device>::empty(), needs, attempts) =~= Seq::<Seq<char>>::empty());
    assert(Seq::<Seq<char>>::empty().push(d.id@) =~= seq![d.id@]);
}

/// A device is not desired since the time that was noted, or since now.
pub proof fn law_noted_times_count(since: Map<Seq<char>, Instant>, id: Seq<char>, now: Instant)
    ensures
        since.dom().contains(id) ==> undesired_since(since, id, now) == since[id],
        !since.dom().contains(id) ==> undesired_since(since, id, now) == now,
{
}

/// An advertised device that is not desired goes at once when no session has kept it,
/// and a minute after it was last desired when one has; a live session keeps it.
pub proof fn law_kept_device_goes_after_a_minute(
    desired: bool,
    has_session: bool,
    blocked: bool,
    since: Instant,
    now: Instant,
)
    ensures
        withdraw_verdict(desired, has_session, blocked, since, now) is Keep <==> desired,
        withdraw_verdict(desired, has_session, blocked, since, now) is Withdraw <==> !desired
            && !has_session && (blocked ==> since + 60_000_000_000 <= now),
        withdraw_verdict(desired, has_session, blocked, since, now) is Defer <==> !desired && (
        has_session || (blocked && now < since + 60_000_000_000)),
        now >= 60_000_000_000 ==> expired_since(now) + 60_000_000_000 == now,
        now < 60_000_000_000 ==> expired_since(now) == now,
{
    clock::law_elapsed_leads_to_the_later_reading(since, now);
}

/// A device is advertised exactly when it is there and the configuration does not hide
/// it.
pub proof fn law_only_hidden_devices_are_left_out(
    first: Seq<Device>,
    second: Seq<Device>,
    d: Device,
    config: Config,
)
    ensures
        shown(first + second, config) == shown(first, config) + shown(second, config),
        config::override_of(config.devices@, d.name@, d.id@).1 ==> shown(seq![d], config)
            == Seq::<Device>::empty(),
        !config::override_of(config.devices@, d.name@, d.id@).1 ==> shown(seq![d], config)
            == seq![d],
{
    let show = |e: Device| !config::override_of(config.devices@, e.name@, e.id@).1;
    registry::law_devices_are_chosen_one_by_one(first, second, d, show);
}

/// A restart counts for a minute: each time is looked at by itself, in order, and kept
/// while a minute has not passed since.
pub proof fn law_restarts_count_for_a_minute(
    first: Seq<Instant>,
    second: Seq<Instant>,
    t: Instant,
    now: Instant,
)
    ensures
        recent(first + second, now) == recent(first, now) + recent(second, now),
        now < t + 60_000_000_000 ==> recent(seq![t], now) == seq![t],
        t + 60_000_000_000 <= now ==> recent(seq![t], now) == Seq::<Instant>::empty(),
    decreases second.len(),
{
    clock::law_elapsed_leads_to_the_later_reading(t, now);
    if second.len() == 0 {
        assert(first + second =~= first);
        assert(recent(first, now) + recent(second, now) =~= recent(first, now));
    } else {
        law_restarts_count_for_a_minute(first, second.drop_last(), t, now);
        assert((first + second).drop_last() =~= first + second.drop_last());
        assert(recent(first + second, now) =~= recent(first, now) + recent(second, now));
    }
    assert(seq![t].drop_last() =~= Seq::<Instant>::empty());
    assert(recent(Seq::<Instant>::empty(), now) =~= Seq::<Instant>::empty());
    assert(Seq::<Instant>::empty().push(t) =~= seq![t]);
}

/// One failure more, as far as the count goes.
pub open spec fn one_more(failures: u32) -> u32 {
    if failures == u32::MAX {
        u32::MAX
    } else {
        (failures + 1) as u32
    }
}

/// Every failure counts one, and the count stays at its greatest value.
pub proof fn law_failures_are_counted(failures: u32)
    ensures
        failures < 0xffff_ffff ==> one_more(failures) == failures + 1,
        one_more(0xffff_ffff) == 0xffff_ffff,
{
}

/// A restart may be granted after those at `times`.
pub open spec fn may_restart(times: Seq<Instant>, now: Instant) -> bool {
    recent(times, now).len() < MAINTAIN_RESTART_MAX
}

/// The first five restarts are granted; after five within a minute none is until the
/// oldest is a minute old.
pub proof fn law_five_restarts_a_minute(times: Seq<Instant>, now: Instant)
    ensures
        times.len() < 5 ==> may_restart(times, now),
        times.len() == 5 && (forall|i: int|
            0 <= i < 5 ==> now < #[trigger] times[i] + 60_000_000_000) ==> !may_restart(times, now),
        times.len() == 5 && (exists|i: int|
            0 <= i < 5 && #[trigger] times[i] + 60_000_000_000 <= now) ==> may_restart(times, now),
{
    lemma_recent_len(times, now);
    if forall|i: int| 0 <= i < times.len() ==> now < #[trigger] times[i] + 60_000_000_000 {
        lemma_all_recent(times, now);
    }
    if exists|i: int| 0 <= i < times.len() && #[trigger] times[i] + 60_000_000_000 <= now {
        let i = choose|i: int| 0 <= i < times.len() && #[trigger] times[i] + 60_000_000_000 <= now;
        lemma_one_old(times, now, i);
    }
}

/// Times that are all less than a minute old all count.
proof fn lemma_all_recent(times: Seq<Instant>, now: Instant)
    requires
        forall|i: int| 0 <= i < times.len() ==> now < #[trigger] times[i] + 60_000_000_000,
    ensures
        recent(times, now).len() == times.len(),
    decreases times.len(),
{
    if times.len() > 0 {
        let head = times.drop_last();
        assert forall|i: int| 0 <= i < head.len() implies now < #[trigger] head[i]
            + 60_000_000_000 by {
            assert(head[i] == times[i]);
        }
        assert(now < times[times.len() - 1] + 60_000_000_000);
        lemma_all_recent(head, now);
    }
}

/// A time that is a minute old does not count.
proof fn lemma_one_old(times: Seq<Instant>, now: Instant, i: int)
    requires
        0 <= i < times.len(),
        times[i] + 60_000_000_000 <= now,
    ensures
        recent(times, now).len() < times.len(),
    decreases times.len(),
{
    lemma_recent_len(times.drop_last(), now);
    if i < times.len() - 1 {
        lemma_one_old(times.drop_last(), now, i);
    }
}

/// A Cast worker has nothing to serve.
pub open spec fn has_nothing_to_serve(desired: bool, has_session: bool, advertised: bool) -> bool {
    !(desired || has_session || advertised)
}

/// A worker goes only when its device is neither desired nor in a session nor advertised.
pub proof fn law_any_use_keeps_a_worker(desired: bool, has_session: bool, advertised: bool)
    ensures
        has_nothing_to_serve(false, false, false),
        !has_nothing_to_serve(true, has_session, advertised),
        !has_nothing_to_serve(desired, true, advertised),
        !has_nothing_to_serve(desired, has_session, true),
{
}

/// Since when devices are not desired, after a decision about one of them.
pub open spec fn since_after(
    decision: WithdrawDecision,
    since: Map<Seq<char>, Instant>,
    id: Seq<char>,
    at: Instant,
) -> Map<Seq<char>, Instant> {
    if decision == WithdrawDecision::Defer {
        since.insert(id, at)
    } else {
        since.remove(id)
    }
}

/// Which withdrawals a session has put off, after a decision about a device.
pub open spec fn blocked_after(
    decision: WithdrawDecision,
    blocked: Set<Seq<char>>,
    id: Seq<char>,
    has_session: bool,
) -> Set<Seq<char>> {
    if decision != WithdrawDecision::Defer {
        blocked.remove(id)
    } else if has_session {
        blocked.insert(id)
    } else {
        blocked
    }
}

/// A decision that is put off is remembered with the time since when the device is not
/// desired, and with the session that put it off; a device that is kept or withdrawn is
/// forgotten. What is remembered of other devices stays.
pub proof fn law_put_off_decisions_are_remembered(
    decision: WithdrawDecision,
    since: Map<Seq<char>, Instant>,
    blocked: Set<Seq<char>>,
    id: Seq<char>,
    other: Seq<char>,
    has_session: bool,
    at: Instant,
)
    requires
        other != id,
    ensures
        since_after(decision, since, id, at).dom().contains(id) <==> decision is Defer,
        decision is Defer ==> since_after(decision, since, id, at)[id] == at,
        since_after(decision, since, id, at).dom().contains(other) == since.dom().contains(other),
        since.dom().contains(other) ==> since_after(decision, since, id, at)[other] == since[other],
        blocked_after(decision, blocked, id, has_session).contains(id) <==> decision is Defer && (
        has_session || blocked.contains(id)),
        blocked_after(decision, blocked, id, has_session).contains(other) == blocked.contains(other),
{
}

} // verus!
