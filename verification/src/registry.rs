//! In-memory registry of discovered Chromecast devices.
//!
//! A device leaves in one of three ways: at once, after a debounced remove event
//! (pending leave), or as stale when it has not been seen for a long time. Seeing it
//! again cancels a pending leave.

use vstd::prelude::*;
use crate::clock;
use crate::clock::{saturating_duration_since, Duration, Instant};
use crate::text::str_eq;

verus! {

/// How long after a remove event before the device actually leaves the registry.
pub const DEFAULT_PENDING_LEAVE: Duration = 20_000_000_000;

/// Floor for withdrawing an AirPlay receiver after a device is no longer desired
/// when a bridge session may have been active.
pub const SESSION_GUARD_GONE: Duration = 60_000_000_000;

/// Default time to live of registry entries without a re-sighting.
///
/// It withdraws devices that disappear without a remove event.
pub const DEFAULT_STALE_TTL: Duration = 600_000_000_000;

/// A discovered Google Cast device on the LAN.
#[derive(Debug)]
pub struct Device {
    /// Stable id (typically Cast UUID from TXT `id` or instance name).
    pub id: String,
    /// Advertised friendly name.
    pub name: String,
    /// Preferred IPv4 (or host string) for Cast control.
    pub host: String,
    /// mDNS hostname (e.g. `uuid.local`) for re-resolution before connect.
    pub hostname: String,
    /// Cast port (usually 8009).
    pub port: u16,
    /// Last time this device was seen via mDNS.
    pub last_seen: Instant,
    /// mDNS instance name recorded at appear time (exact leave matching).
    pub instance: String,
    /// When set, the device leaves after this deadline unless it is seen again.
    pub pending_leave_deadline: Option<Instant>,
    /// When pending leave started.
    pub pending_leave_since: Option<Instant>,
}

impl Clone for Device {
    fn clone(&self) -> (r: Device)
        ensures
            r == *self,
    {
        Device {
            id: self.id.clone(),
            name: self.name.clone(),
            host: self.host.clone(),
            hostname: self.hostname.clone(),
            port: self.port,
            last_seen: self.last_seen,
            instance: self.instance.clone(),
            pending_leave_deadline: self.pending_leave_deadline,
            pending_leave_since: self.pending_leave_since,
        }
    }
}

impl Device {
    /// Build a device seen at `now` with no pending leave.
    #[must_use]
    pub fn new(
        id: String,
        name: String,
        host: String,
        hostname: String,
        port: u16,
        instance: String,
        now: Instant,
    ) -> (d: Device)
        ensures
            d == (Device {
                id,
                name,
                host,
                hostname,
                port,
                last_seen: now,
                instance,
                pending_leave_deadline: None,
                pending_leave_since: None,
            }),
    {
        Device {
            id,
            name,
            host,
            hostname,
            port,
            last_seen: now,
            instance,
            pending_leave_deadline: None,
            pending_leave_since: None,
        }
    }

    /// The device as it stands right after it has been seen at `now`.
    pub open spec fn seen(self, now: Instant) -> Device {
        Device {
            last_seen: now,
            pending_leave_deadline: None,
            pending_leave_since: None,
            ..self
        }
    }

    /// The device with a pending leave that started at `now`.
    pub open spec fn leaving(self, now: Instant, grace: Duration) -> Device {
        Device {
            pending_leave_deadline: Some((now + grace) as u128),
            pending_leave_since: Some(now),
            ..self
        }
    }

    /// The device without a pending leave.
    pub open spec fn staying(self) -> Device {
        Device { pending_leave_deadline: None, pending_leave_since: None, ..self }
    }

    /// The pending leave of the device has elapsed.
    pub open spec fn due(self, now: Instant) -> bool {
        self.pending_leave_deadline matches Some(deadline) && leave_due(deadline, now)
    }

    /// The device has not been seen for longer than `max_age`; a device that is
    /// pending leave is never stale.
    pub open spec fn stale(self, max_age: Duration, now: Instant) -> bool {
        self.pending_leave_deadline is None && clock::elapsed(self.last_seen, now) > max_age
    }
}

/// A deadline has come.
pub open spec fn leave_due(deadline: Instant, now: Instant) -> bool {
    now >= deadline
}

/// Whether a pending-leave deadline has elapsed.
#[must_use]
pub fn pending_leave_is_due(deadline: Instant, now: Instant) -> (r: bool)
    ensures
        r == leave_due(deadline, now),
{
    now >= deadline
}

/// Decision for withdrawing an AirPlay receiver that may no longer be desired.
#[derive(Debug, Clone, Copy, PartialEq, Eq, Structural)]
pub enum WithdrawDecision {
    /// Device is still desired: keep advertising.
    Keep,
    /// Live bridge session or session-guard floor not met: do not withdraw yet.
    Defer,
    /// Safe to withdraw the AirPlay receiver (and warm Cast worker).
    Withdraw,
}

/// What to do with the receiver of a device.
pub open spec fn withdraw_decision(
    is_desired: bool,
    has_session: bool,
    gone_for: Duration,
    min_gone: Duration,
) -> WithdrawDecision {
    if is_desired {
        WithdrawDecision::Keep
    } else if has_session || gone_for < min_gone {
        WithdrawDecision::Defer
    } else {
        WithdrawDecision::Withdraw
    }
}

/// Whether a receiver may be withdrawn.
///
/// Callers pass `min_gone` zero for a pure idle leave, and [`SESSION_GUARD_GONE`] only
/// when a live session previously blocked the withdrawal.
#[must_use]
pub fn decide_airplay_withdraw(
    is_desired: bool,
    has_session: bool,
    gone_for: Duration,
    min_gone: Duration,
) -> (r: WithdrawDecision)
    ensures
        r == withdraw_decision(is_desired, has_session, gone_for, min_gone),
{
    if is_desired {
        return WithdrawDecision::Keep;
    }
    if has_session {
        return WithdrawDecision::Defer;
    }
    if gone_for >= min_gone {
        WithdrawDecision::Withdraw
    } else {
        WithdrawDecision::Defer
    }
}

/// A live session is never cut off by a withdrawal, however long the device is gone.
pub proof fn law_live_session_defers_withdraw(
    is_desired: bool,
    gone_for: Duration,
    min_gone: Duration,
)
    ensures
        withdraw_decision(is_desired, true, gone_for, min_gone) != WithdrawDecision::Withdraw,
        withdraw_decision(true, true, gone_for, min_gone) == WithdrawDecision::Keep,
{
}

/// Outcome of attempting to mark a device for debounced leave.
#[derive(Debug, Clone, Copy, PartialEq, Eq, Structural)]
pub enum PendingLeaveMark {
    /// Device id is not in the registry.
    NotFound,
    /// First transition into pending leave (deadline set).
    NewlyMarked,
    /// Already pending; deadline and start unchanged.
    AlreadyPending,
}

/// Position `i` holds the device that a remove event for `key` means: the first with
/// that id, or, where no id matches, the first with that instance name.
pub open spec fn is_leave_match(devices: Seq<Device>, key: Seq<char>, i: int) -> bool {
    &&& 0 <= i < devices.len()
    &&& {
        ||| devices[i].id@ == key && forall|j: int| 0 <= j < i ==> (#[trigger] devices[j]).id@ != key
        ||| {
            &&& forall|j: int| 0 <= j < devices.len() ==> (#[trigger] devices[j]).id@ != key
            &&& devices[i].instance@ == key
            &&& forall|j: int| 0 <= j < i ==> (#[trigger] devices[j]).instance@ != key
        }
    }
}

/// No device answers to `key`, neither by id nor by instance name.
pub open spec fn no_leave_match(devices: Seq<Device>, key: Seq<char>) -> bool {
    forall|j: int|
        0 <= j < devices.len() ==> (#[trigger] devices[j]).id@ != key && devices[j].instance@ != key
}

/// Position of the device that a remove event for `instance` means.
fn leave_index(devices: &[Device], instance: &str) -> (r: Option<usize>)
    ensures
        match r {
            Some(i) => is_leave_match(devices@, instance@, i as int),
            None => no_leave_match(devices@, instance@),
        },
{
    let mut i: usize = 0;
    while i < devices.len()
        invariant
            i <= devices.len(),
            forall|j: int| 0 <= j < i ==> (#[trigger] devices@[j]).id@ != instance@,
        decreases devices.len() - i,
    {
        if str_eq(devices[i].id.as_str(), instance) {
            return Some(i);
        }
        i += 1;
    }
    let mut k: usize = 0;
    while k < devices.len()
        invariant
            k <= devices.len(),
            forall|j: int| 0 <= j < devices.len() ==> (#[trigger] devices@[j]).id@ != instance@,
            forall|j: int| 0 <= j < k ==> (#[trigger] devices@[j]).instance@ != instance@,
        decreases devices.len() - k,
    {
        if str_eq(devices[k].instance.as_str(), instance) {
            return Some(k);
        }
        k += 1;
    }
    None
}

/// Exact match for leave-by-instance (no substring heuristics).
#[must_use]
pub fn match_device_for_leave<'a>(devices: &'a [Device], instance: &str) -> (r: Option<&'a Device>)
    ensures
        match r {
            Some(d) => exists|i: int|
                is_leave_match(devices@, instance@, i) && *d == #[trigger] devices@[i],
            None => no_leave_match(devices@, instance@),
        },
{
    match leave_index(devices, instance) {
        Some(i) => Some(&devices[i]),
        None => None,
    }
}

// ── Registry ────────────────────────────────────────────────────────────────

/// No two entries have the same id.
pub open spec fn distinct_ids(entries: Seq<Device>) -> bool {
    forall|i: int, j: int|
        0 <= i < j < entries.len() ==> (#[trigger] entries[i]).id@ != (#[trigger] entries[j]).id@
}

/// Some entry has this id.
pub open spec fn has_id(entries: Seq<Device>, id: Seq<char>) -> bool {
    exists|i: int| 0 <= i < entries.len() && (#[trigger] entries[i]).id@ == id
}

/// Position of the entry with this id.
pub open spec fn position(entries: Seq<Device>, id: Seq<char>) -> int {
    choose|i: int| 0 <= i < entries.len() && (#[trigger] entries[i]).id@ == id
}

/// The entries as a map from id to device.
pub open spec fn by_id(entries: Seq<Device>) -> Map<Seq<char>, Device> {
    Map::new(|id: Seq<char>| has_id(entries, id), |id: Seq<char>| entries[position(entries, id)])
}

/// The entries that satisfy `p`, in order.
pub open spec fn only(entries: Seq<Device>, p: spec_fn(Device) -> bool) -> Seq<Device>
    decreases entries.len(),
{
    if entries.len() == 0 {
        Seq::empty()
    } else {
        let head = only(entries.drop_last(), p);
        if p(entries.last()) {
            head.push(entries.last())
        } else {
            head
        }
    }
}

/// An entry is the value of its id.
pub proof fn lemma_by_id(entries: Seq<Device>, i: int)
    requires
        distinct_ids(entries),
        0 <= i < entries.len(),
    ensures
        by_id(entries).dom().contains(entries[i].id@),
        by_id(entries)[entries[i].id@] == entries[i],
        position(entries, entries[i].id@) == i,
{
    let id = entries[i].id@;
    assert(has_id(entries, id));
    let p = position(entries, id);
    assert(0 <= p < entries.len() && entries[p].id@ == id);
    if p < i {
        assert(entries[p].id@ != entries[i].id@);
    }
    if i < p {
        assert(entries[i].id@ != entries[p].id@);
    }
}

/// Exactly the entries that satisfy `p` are kept.
pub proof fn lemma_only(entries: Seq<Device>, p: spec_fn(Device) -> bool)
    requires
        distinct_ids(entries),
    ensures
        distinct_ids(only(entries, p)),
        forall|id: Seq<char>| #[trigger]
            has_id(only(entries, p), id) <==> has_id(entries, id) && p(by_id(entries)[id]),
        forall|id: Seq<char>| #[trigger]
            has_id(only(entries, p), id) ==> by_id(only(entries, p))[id] == by_id(entries)[id],
    decreases entries.len(),
{
    if entries.len() > 0 {
        let init = entries.drop_last();
        let last = entries.last();
        lemma_only(init, p);
        let head = only(init, p);
        let all = only(entries, p);
        let n = entries.len() - 1;
        assert forall|id: Seq<char>| #[trigger] has_id(init, id) implies by_id(entries)[id]
            == by_id(init)[id] && id != last.id@ && has_id(entries, id) by {
            let k = position(init, id);
            assert(init[k] == entries[k]);
            lemma_by_id(entries, k);
            lemma_by_id(init, k);
            assert(entries[k].id@ != entries[n].id@);
        }
        lemma_by_id(entries, n);
        assert forall|id: Seq<char>| #[trigger] has_id(entries, id) implies has_id(init, id) || id
            == last.id@ by {
            let k = position(entries, id);
            assert(entries[k].id@ == id);
            if k < n {
                assert(init[k] == entries[k]);
            }
        }
        assert forall|i: int| 0 <= i < head.len() implies (#[trigger] head[i]).id@ != last.id@ by {
            assert(has_id(head, head[i].id@));
            assert(has_id(init, head[i].id@));
        }
        if p(last) {
            assert(all =~= head.push(last));
            assert forall|id: Seq<char>| #[trigger] has_id(all, id) implies has_id(head, id) || id
                == last.id@ by {
                let k = position(all, id);
                assert(all[k].id@ == id);
                if k < head.len() {
                    assert(head[k] == all[k]);
                }
            }
            assert forall|id: Seq<char>| #[trigger] has_id(head, id) implies has_id(all, id)
                && by_id(all)[id] == by_id(head)[id] by {
                let k = position(head, id);
                assert(all[k] == head[k]);
                lemma_by_id(all, k);
                lemma_by_id(head, k);
            }
            assert(all[head.len() as int] == last);
            lemma_by_id(all, head.len() as int);
        } else {
            assert(all == head);
            assert forall|id: Seq<char>| #[trigger] has_id(head, id) implies id != last.id@ by {
                let k = position(head, id);
                assert(head[k].id@ == id);
            }
        }
        assert forall|id: Seq<char>| #[trigger] has_id(all, id) <==> has_id(entries, id) && p(
            by_id(entries)[id],
        ) by {
            assert(has_id(head, id) <==> has_id(init, id) && p(by_id(init)[id]));
            assert(has_id(entries, id) ==> has_id(init, id) || id == last.id@);
            assert(has_id(init, id) ==> has_id(entries, id));
            if has_id(all, id) {
                assert(has_id(head, id) || id == last.id@);
            }
        }
    }
}

/// Map of present Cast devices.
#[derive(Debug)]
pub struct DeviceRegistry {
    entries: Vec<Device>,
    pending_leave_cancellations: Vec<String>,
}

/// What a registry knows.
pub struct RegistryState {
    /// The known devices in the order in which they are listed.
    pub listed: Seq<Device>,
    /// Ids that cancelled a pending leave by appearing since the last drain.
    pub cancelled: Seq<String>,
}

impl View for DeviceRegistry {
    type V = RegistryState;

    closed spec fn view(&self) -> RegistryState {
        RegistryState {
            listed: self.entries@,
            cancelled: self.pending_leave_cancellations@,
        }
    }
}

impl DeviceRegistry {
    /// The known devices in the order in which they are listed.
    pub open spec fn listed(&self) -> Seq<Device> {
        self@.listed
    }

    /// Ids that cancelled a pending leave by appearing since the last drain.
    pub open spec fn cancelled(&self) -> Seq<String> {
        self@.cancelled
    }

    /// The known devices by id.
    pub open spec fn devices(&self) -> Map<Seq<char>, Device> {
        by_id(self.listed())
    }

    /// What every operation keeps: one entry per id.
    pub open spec fn wf(&self) -> bool {
        distinct_ids(self.listed())
    }

    /// Create an empty registry.
    pub fn new() -> (r: DeviceRegistry)
        ensures
            r.wf(),
            r.listed() == Seq::<Device>::empty(),
            r.devices() == Map::<Seq<char>, Device>::empty(),
            r.cancelled() == Seq::<String>::empty(),
    {
        let r = DeviceRegistry { entries: Vec::new(), pending_leave_cancellations: Vec::new() };
        proof {
            assert(r.devices() =~= Map::<Seq<char>, Device>::empty());
        }
        r
    }

    /// Position of the entry with this id.
    fn index_of(&self, id: &str) -> (r: Option<usize>)
        requires
            self.wf(),
        ensures
            match r {
                Some(i) => i < self.entries@.len() && self.entries@[i as int].id@ == id@
                    && self.devices().dom().contains(id@) && self.devices()[id@] == self.entries@[i as int]
                    && position(self.entries@, id@) == i,
                None => !self.devices().dom().contains(id@) && !has_id(self.entries@, id@),
            },
    {
        let mut i: usize = 0;
        while i < self.entries.len()
            invariant
                i <= self.entries.len(),
                self.wf(),
                forall|j: int| 0 <= j < i ==> (#[trigger] self.entries@[j]).id@ != id@,
            decreases self.entries.len() - i,
        {
            if str_eq(self.entries[i].id.as_str(), id) {
                proof {
                    lemma_by_id(self.entries@, i as int);
                }
                return Some(i);
            }
            i += 1;
        }
        None
    }

    /// Put `device` in the place of entry `i`, which has the same id.
    fn replace_entry(&mut self, i: usize, device: Device)
        requires
            old(self).wf(),
            i < old(self).entries@.len(),
            old(self).entries@[i as int].id@ == device.id@,
        ensures
            final(self).wf(),
            final(self).entries@ == old(self).entries@.update(i as int, device),
            final(self).devices() == old(self).devices().insert(device.id@, device),
            final(self).pending_leave_cancellations@ == old(self).pending_leave_cancellations@,
    {
        self.entries.set(i, device);
        proof {
            let before = old(self).entries@;
            let after = self.entries@;
            assert(distinct_ids(after)) by {
                assert forall|a: int, b: int| 0 <= a < b < after.len() implies (
                #[trigger] after[a]).id@ != (#[trigger] after[b]).id@ by {
                    assert(before[a].id@ != before[b].id@);
                }
            }
            assert forall|id: Seq<char>| has_id(after, id) <==> #[trigger] has_id(before, id) by {
                if has_id(before, id) {
                    let k = position(before, id);
                    assert(after[k].id@ == id);
                }
                if has_id(after, id) {
                    let k = position(after, id);
                    assert(before[k].id@ == id);
                }
            }
            assert(by_id(after) =~= by_id(before).insert(device.id@, device)) by {
                assert(has_id(before, before[i as int].id@));
                assert forall|id: Seq<char>| has_id(after, id) implies by_id(after)[id] == by_id(
                    before,
                ).insert(device.id@, device)[id] by {
                    let k = position(after, id);
                    lemma_by_id(after, k);
                    lemma_by_id(before, k);
                    lemma_by_id(after, i as int);
                }
            }
        }
    }

    /// Record or refresh a device seen at `now` (appear / re-appear).
    ///
    /// Re-appearance cancels any pending leave and refreshes `last_seen`. Returns
    /// `true` if this id was not previously present. A cancelled pending leave is
    /// queued for [`DeviceRegistry::drain_pending_leave_cancellations`].
    pub fn appear(&mut self, device: Device, now: Instant) -> (is_new: bool)
        requires
            old(self).wf(),
        ensures
            final(self).wf(),
            is_new == !old(self).devices().dom().contains(device.id@),
            final(self).devices() == old(self).devices().insert(device.id@, device.seen(now)),
            final(self).cancelled() == (if !is_new && old(self).devices()[device.id@].pending_leave_deadline is Some {
                old(self).cancelled().push(device.id)
            } else {
                old(self).cancelled()
            }),
            is_new ==> final(self).listed() == old(self).listed().push(device.seen(now)),
            !is_new ==> final(self).listed() == old(self).listed().update(
                position(old(self).listed(), device.id@),
                device.seen(now),
            ),
    {
        let mut device = device;
        let ghost given = device;
        device.pending_leave_deadline = None;
        device.pending_leave_since = None;
        device.last_seen = now;
        match self.index_of(device.id.as_str()) {
            Some(i) => {
                let was_pending: bool = self.entries[i].pending_leave_deadline.is_some();
                let key = device.id.clone();
                self.replace_entry(i, device);
                if was_pending {
                    self.pending_leave_cancellations.push(key);
                }
                false
            },
            None => {
                self.entries.push(device);
                proof {
                    let before = old(self).entries@;
                    let after = self.entries@;
                    let n = before.len() as int;
                    assert(distinct_ids(after)) by {
                        assert forall|a: int, b: int| 0 <= a < b < after.len() implies (
                        #[trigger] after[a]).id@ != (#[trigger] after[b]).id@ by {
                            if b < n {
                                assert(before[a].id@ != before[b].id@);
                            } else {
                                assert(has_id(before, before[a].id@));
                            }
                        }
                    }
                    assert(by_id(after) =~= by_id(before).insert(given.id@, given.seen(now))) by {
                        assert forall|id: Seq<char>| #[trigger] has_id(after, id) <==> has_id(
                            before,
                            id,
                        ) || id == given.id@ by {
                            if has_id(before, id) {
                                let k = position(before, id);
                                assert(after[k].id@ == id);
                            }
                            if id == given.id@ {
                                assert(after[n].id@ == id);
                            }
                            if has_id(after, id) {
                                let k = position(after, id);
                                assert(after[k].id@ == id);
                                if k < n {
                                    assert(before[k].id@ == id);
                                }
                            }
                        }
                        assert forall|id: Seq<char>| #[trigger] has_id(after, id) implies by_id(
                            after,
                        )[id] == by_id(before).insert(given.id@, given.seen(now))[id] by {
                            let k = position(after, id);
                            lemma_by_id(after, k);
                            if k < n {
                                assert(after[k] == before[k]);
                                lemma_by_id(before, k);
                            }
                        }
                    }
                }
                true
            },
        }
    }

    /// Drain the ids that cancelled a pending leave by re-appearing since the last
    /// drain.
    #[must_use]
    pub fn drain_pending_leave_cancellations(&mut self) -> (ids: Vec<String>)
        ensures
            ids@ == old(self).cancelled(),
            final(self).cancelled() == Seq::<String>::empty(),
            final(self).listed() == old(self).listed(),
    {
        let mut ids: Vec<String> = Vec::new();
        std::mem::swap(&mut ids, &mut self.pending_leave_cancellations);
        ids
    }

    /// Remove entry `i`.
    fn remove_entry(&mut self, i: usize) -> (d: Device)
        requires
            old(self).wf(),
            i < old(self).entries@.len(),
        ensures
            final(self).wf(),
            d == old(self).entries@[i as int],
            final(self).entries@ == old(self).entries@.remove(i as int),
            final(self).devices() == old(self).devices().remove(d.id@),
            final(self).pending_leave_cancellations@ == old(self).pending_leave_cancellations@,
    {
        let d = self.entries.remove(i);
        proof {
            let before = old(self).entries@;
            let after = self.entries@;
            let at = i as int;
            assert(distinct_ids(after)) by {
                assert forall|a: int, b: int| 0 <= a < b < after.len() implies (
                #[trigger] after[a]).id@ != (#[trigger] after[b]).id@ by {
                    let a0 = if a < at { a } else { a + 1 };
                    let b0 = if b < at { b } else { b + 1 };
                    assert(before[a0].id@ != before[b0].id@);
                }
            }
            assert(by_id(after) =~= by_id(before).remove(d.id@)) by {
                assert forall|id: Seq<char>| #[trigger] has_id(after, id) <==> has_id(before, id)
                    && id != d.id@ by {
                    if has_id(after, id) {
                        let k = position(after, id);
                        let k0 = if k < at { k } else { k + 1 };
                        assert(after[k] == before[k0]);
                        assert(before[k0].id@ == id);
                        lemma_by_id(before, k0);
                        lemma_by_id(before, at);
                    }
                    if has_id(before, id) && id != d.id@ {
                        let k = position(before, id);
                        assert(before[k].id@ == id);
                        let k1 = if k < at { k } else { k - 1 };
                        assert(after[k1] == before[k]);
                    }
                }
                assert forall|id: Seq<char>| #[trigger] has_id(after, id) implies by_id(after)[id]
                    == by_id(before)[id] by {
                    let k = position(after, id);
                    let k0 = if k < at { k } else { k + 1 };
                    assert(after[k] == before[k0]);
                    lemma_by_id(after, k);
                    lemma_by_id(before, k0);
                }
            }
        }
        d
    }

    /// Remove a device that left the network immediately (no debounce).
    pub fn leave(&mut self, id: &str) -> (r: Option<Device>)
        requires
            old(self).wf(),
        ensures
            final(self).wf(),
            final(self).devices() == old(self).devices().remove(id@),
            final(self).cancelled() == old(self).cancelled(),
            match r {
                Some(d) => old(self).devices().dom().contains(id@) && d == old(self).devices()[id@] && final(self).listed() == old(self).listed().remove(position(old(self).listed(), id@)),
                None => !old(self).devices().dom().contains(id@) && final(self).listed() == old(self).listed(),
            },
    {
        match self.index_of(id) {
            Some(i) => Some(self.remove_entry(i)),
            None => {
                proof {
                    assert(self.devices().remove(id@) =~= self.devices());
                }
                None
            },
        }
    }

    /// Mark a device pending leave by stable id.
    ///
    /// A second call while already pending does not move the deadline.
    pub fn mark_pending_leave(&mut self, id: &str, now: Instant, grace: Duration) -> (r:
        PendingLeaveMark)
        requires
            old(self).wf(),
            now + grace <= u128::MAX,
        ensures
            final(self).wf(),
            final(self).cancelled() == old(self).cancelled(),
            if !old(self).devices().dom().contains(id@) {
                r == PendingLeaveMark::NotFound && *final(self) == *old(self)
            } else if old(self).devices()[id@].pending_leave_deadline is Some {
                r == PendingLeaveMark::AlreadyPending && *final(self) == *old(self)
            } else {
                r == PendingLeaveMark::NewlyMarked && final(self).devices() == old(self).devices().insert(
                    id@,
                    old(self).devices()[id@].leaving(now, grace),
                )
            },
            r == mark_verdict(old(self).devices(), id@),
    {
        match self.index_of(id) {
            Some(i) => {
                if self.entries[i].pending_leave_deadline.is_some() {
                    return PendingLeaveMark::AlreadyPending;
                }
                let mut d = self.entries[i].clone();
                d.pending_leave_since = Some(now);
                d.pending_leave_deadline = Some(now + grace);
                self.replace_entry(i, d);
                PendingLeaveMark::NewlyMarked
            },
            None => PendingLeaveMark::NotFound,
        }
    }

    /// Mark pending leave by exact instance / id match.
    ///
    /// Returns the device id and the mark when a device matched.
    pub fn mark_pending_leave_by_instance(
        &mut self,
        instance: &str,
        now: Instant,
        grace: Duration,
    ) -> (r: Option<(String, PendingLeaveMark)>)
        requires
            old(self).wf(),
            now + grace <= u128::MAX,
        ensures
            final(self).wf(),
            final(self).cancelled() == old(self).cancelled(),
            match r {
                Some((id, mark)) => exists|i: int|
                    {
                        let d = #[trigger] old(self).listed()[i];
                        &&& is_leave_match(old(self).listed(), instance@, i)
                        &&& id@ == d.id@
                        &&& d.pending_leave_deadline is Some ==> mark
                            == PendingLeaveMark::AlreadyPending && *final(self) == *old(self)
                        &&& d.pending_leave_deadline is None ==> mark
                            == PendingLeaveMark::NewlyMarked && final(self).devices() == old(self).devices().insert(
                            d.id@,
                            d.leaving(now, grace),
                        )
                    },
                None => no_leave_match(old(self).listed(), instance@) && *final(self) == *old(self),
            },
    {
        match leave_index(self.entries.as_slice(), instance) {
            Some(i) => {
                let id = self.entries[i].id.clone();
                proof {
                    lemma_by_id(self.entries@, i as int);
                    assert(self.listed()[i as int] == self.entries@[i as int]);
                }
                let mark = self.mark_pending_leave(id.as_str(), now, grace);
                Some((id, mark))
            },
            None => None,
        }
    }

    /// Cancel pending leave for `id`. Returns `true` if a pending leave was cleared.
    pub fn cancel_pending_leave(&mut self, id: &str) -> (r: bool)
        requires
            old(self).wf(),
        ensures
            final(self).wf(),
            final(self).cancelled() == old(self).cancelled(),
            r == (old(self).devices().dom().contains(id@) && old(self).devices()[id@].pending_leave_deadline is Some),
            final(self).devices() == (if old(self).devices().dom().contains(id@) {
                old(self).devices().insert(id@, old(self).devices()[id@].staying())
            } else {
                old(self).devices()
            }),
    {
        match self.index_of(id) {
            Some(i) => {
                let was_pending: bool = self.entries[i].pending_leave_deadline.is_some();
                let mut d = self.entries[i].clone();
                d.pending_leave_deadline = None;
                d.pending_leave_since = None;
                self.replace_entry(i, d);
                was_pending
            },
            None => false,
        }
    }

    /// Whether the device is in pending-leave state.
    pub fn is_pending_leave(&self, id: &str) -> (r: bool)
        requires
            self.wf(),
        ensures
            r == (self.devices().dom().contains(id@) && self.devices()[id@].pending_leave_deadline is Some),
    {
        match self.index_of(id) {
            Some(i) => self.entries[i].pending_leave_deadline.is_some(),
            None => false,
        }
    }

    /// Remove the devices whose pending-leave deadline has elapsed and return them.
    pub fn take_due_leaves(&mut self, now: Instant) -> (removed: Vec<Device>)
        requires
            old(self).wf(),
        ensures
            final(self).wf(),
            final(self).cancelled() == old(self).cancelled(),
            removed@ == only(old(self).listed(), |d: Device| d.due(now)),
            final(self).listed() == only(old(self).listed(), |d: Device| !d.due(now)),
    {
        let ghost gone = |d: Device| d.due(now);
        let ghost here = |d: Device| !d.due(now);
        let mut removed: Vec<Device> = Vec::new();
        let mut kept: Vec<Device> = Vec::new();
        let mut i: usize = 0;
        proof {
            assert(self.entries@.take(0) =~= Seq::<Device>::empty());
        }
        while i < self.entries.len()
            invariant
                i <= self.entries.len(),
                self.entries@ == old(self).entries@,
                self.pending_leave_cancellations@ == old(self).pending_leave_cancellations@,
                gone == |d: Device| d.due(now),
                here == |d: Device| !d.due(now),
                removed@ == only(self.entries@.take(i as int), gone),
                kept@ == only(self.entries@.take(i as int), here),
            decreases self.entries.len() - i,
        {
            proof {
                let now_taken = self.entries@.take(i as int + 1);
                assert(now_taken.drop_last() =~= self.entries@.take(i as int));
                assert(now_taken.last() == self.entries@[i as int]);
            }
            let d = self.entries[i].clone();
            let due: bool = match d.pending_leave_deadline {
                Some(deadline) => pending_leave_is_due(deadline, now),
                None => false,
            };
            if due {
                removed.push(d);
            } else {
                kept.push(d);
            }
            i += 1;
        }
        proof {
            assert(self.entries@.take(self.entries@.len() as int) =~= self.entries@);
            lemma_only(old(self).entries@, here);
        }
        self.entries = kept;
        removed
    }

    /// Snapshot of all currently known devices (including pending leave).
    pub fn list(&self) -> (out: Vec<Device>)
        ensures
            out@ == self.listed(),
    {
        let mut out: Vec<Device> = Vec::new();
        let mut i: usize = 0;
        while i < self.entries.len()
            invariant
                i <= self.entries.len(),
                out@ == self.entries@.take(i as int),
            decreases self.entries.len() - i,
        {
            out.push(self.entries[i].clone());
            proof {
                assert(self.entries@.take(i as int + 1) =~= self.entries@.take(i as int).push(
                    self.entries@[i as int],
                ));
            }
            i += 1;
        }
        proof {
            assert(self.entries@.take(self.entries@.len() as int) =~= self.entries@);
        }
        out
    }

    /// Snapshot of the devices that are not pending leave.
    pub fn list_present(&self) -> (out: Vec<Device>)
        ensures
            out@ == only(self.listed(), |d: Device| d.pending_leave_deadline is None),
    {
        let ghost present = |d: Device| d.pending_leave_deadline is None;
        let mut out: Vec<Device> = Vec::new();
        let mut i: usize = 0;
        proof {
            assert(self.entries@.take(0) =~= Seq::<Device>::empty());
        }
        while i < self.entries.len()
            invariant
                i <= self.entries.len(),
                present == |d: Device| d.pending_leave_deadline is None,
                out@ == only(self.entries@.take(i as int), present),
            decreases self.entries.len() - i,
        {
            proof {
                let taken = self.entries@.take(i as int + 1);
                assert(taken.drop_last() =~= self.entries@.take(i as int));
                assert(taken.last() == self.entries@[i as int]);
            }
            if self.entries[i].pending_leave_deadline.is_none() {
                out.push(self.entries[i].clone());
            }
            i += 1;
        }
        proof {
            assert(self.entries@.take(self.entries@.len() as int) =~= self.entries@);
        }
        out
    }

    /// Look up one device by id.
    pub fn get(&self, id: &str) -> (r: Option<Device>)
        requires
            self.wf(),
        ensures
            match r {
                Some(d) => self.devices().dom().contains(id@) && d == self.devices()[id@],
                None => !self.devices().dom().contains(id@),
            },
    {
        match self.index_of(id) {
            Some(i) => Some(self.entries[i].clone()),
            None => None,
        }
    }

    /// Number of known devices.
    pub fn len(&self) -> (n: usize)
        ensures
            n == self.listed().len(),
    {
        self.entries.len()
    }

    /// Whether the registry has no devices.
    pub fn is_empty(&self) -> (r: bool)
        ensures
            r == (self.listed().len() == 0),
    {
        self.entries.len() == 0
    }

    /// Drop the devices not seen within `max_age` and return them.
    ///
    /// Devices with an active pending leave are left to
    /// [`DeviceRegistry::take_due_leaves`].
    pub fn prune_older_than(&mut self, max_age: Duration, now: Instant) -> (removed: Vec<Device>)
        requires
            old(self).wf(),
        ensures
            final(self).wf(),
            final(self).cancelled() == old(self).cancelled(),
            removed@ == only(old(self).listed(), |d: Device| d.stale(max_age, now)),
            final(self).listed() == only(old(self).listed(), |d: Device| !d.stale(max_age, now)),
    {
        let ghost gone = |d: Device| d.stale(max_age, now);
        let ghost here = |d: Device| !d.stale(max_age, now);
        let mut removed: Vec<Device> = Vec::new();
        let mut kept: Vec<Device> = Vec::new();
        let mut i: usize = 0;
        proof {
            assert(self.entries@.take(0) =~= Seq::<Device>::empty());
        }
        while i < self.entries.len()
            invariant
                i <= self.entries.len(),
                self.entries@ == old(self).entries@,
                self.pending_leave_cancellations@ == old(self).pending_leave_cancellations@,
                gone == |d: Device| d.stale(max_age, now),
                here == |d: Device| !d.stale(max_age, now),
                removed@ == only(self.entries@.take(i as int), gone),
                kept@ == only(self.entries@.take(i as int), here),
            decreases self.entries.len() - i,
        {
            proof {
                let taken = self.entries@.take(i as int + 1);
                assert(taken.drop_last() =~= self.entries@.take(i as int));
                assert(taken.last() == self.entries@[i as int]);
            }
            let d = self.entries[i].clone();
            if d.pending_leave_deadline.is_none() && saturating_duration_since(now, d.last_seen)
                > max_age {
                removed.push(d);
            } else {
                kept.push(d);
            }
            i += 1;
        }
        proof {
            assert(self.entries@.take(self.entries@.len() as int) =~= self.entries@);
            lemma_only(old(self).entries@, here);
        }
        self.entries = kept;
        removed
    }

    /// Expire devices that have not re-appeared within `ttl`.
    pub fn expire_stale(&mut self, ttl: Duration, now: Instant) -> (removed: Vec<Device>)
        requires
            old(self).wf(),
        ensures
            final(self).wf(),
            final(self).cancelled() == old(self).cancelled(),
            removed@ == only(old(self).listed(), |d: Device| d.stale(ttl, now)),
            final(self).listed() == only(old(self).listed(), |d: Device| !d.stale(ttl, now)),
    {
        self.prune_older_than(ttl, now)
    }
}

/// Taking a set of devices out splits the registry: every known device is either
/// among those taken or still known, never both, and unchanged.
pub proof fn law_removal_splits_the_registry(
    entries: Seq<Device>,
    gone: spec_fn(Device) -> bool,
    id: Seq<char>,
)
    requires
        distinct_ids(entries),
    ensures
        ({
            let taken = only(entries, gone);
            let kept = only(entries, |d: Device| !gone(d));
            &&& has_id(entries, id) <==> has_id(taken, id) || has_id(kept, id)
            &&& !(has_id(taken, id) && has_id(kept, id))
            &&& has_id(taken, id) ==> by_id(taken)[id] == by_id(entries)[id]
            &&& has_id(kept, id) ==> by_id(kept)[id] == by_id(entries)[id]
        }),
{
    let here = |d: Device| !gone(d);
    lemma_only(entries, gone);
    lemma_only(entries, here);
    let taken = only(entries, gone);
    let kept = only(entries, here);
    assert(has_id(taken, id) <==> has_id(entries, id) && gone(by_id(entries)[id]));
    assert(has_id(kept, id) <==> has_id(entries, id) && here(by_id(entries)[id]));
}

/// A device that is pending leave is never pruned as stale, and a device that is not
/// pending leave is never taken as due.
pub proof fn law_pending_and_stale_exclude_each_other(d: Device, max_age: Duration, now: Instant)
    ensures
        d.pending_leave_deadline is Some ==> !d.stale(max_age, now),
        d.pending_leave_deadline is None ==> !d.due(now),
{
}

/// A remove event followed by a re-appearance leaves no trace: the device is present,
/// fresh, and neither due nor stale at that moment.
pub proof fn law_reappearance_cancels_leave(
    d: Device,
    marked: Instant,
    grace: Duration,
    now: Instant,
    max_age: Duration,
)
    ensures
        d.leaving(marked, grace).seen(now) == d.seen(now),
        !d.leaving(marked, grace).seen(now).due(now),
        !d.leaving(marked, grace).seen(now).stale(max_age, now),
{
}

/// A marked device stays for the whole grace period and is due from its end on.
pub proof fn law_leave_is_debounced(d: Device, marked: Instant, grace: Duration, now: Instant)
    requires
        marked + grace <= u128::MAX,
    ensures
        d.leaving(marked, grace).due(now) <==> now >= marked + grace,
{
}

/// Seeing a device sets the time of its last sighting and ends a pending leave; marking
/// it for leave sets when the leave began and when it ends. Neither touches anything
/// else.
pub proof fn law_marks_touch_only_times(d: Device, now: Instant, grace: Duration)
    requires
        now + grace <= u128::MAX,
        now + DEFAULT_PENDING_LEAVE <= u128::MAX,
    ensures
        d.seen(now).last_seen == now,
        d.seen(now).pending_leave_deadline is None && d.seen(now).pending_leave_since is None,
        d.leaving(now, grace).last_seen == d.last_seen,
        d.leaving(now, grace).pending_leave_since == Some(now),
        d.leaving(now, grace).pending_leave_deadline matches Some(t) && t == now + grace,
        d.leaving(now, DEFAULT_PENDING_LEAVE).pending_leave_deadline matches Some(t) && t == now
            + 20_000_000_000,
        d.staying().last_seen == d.last_seen,
        d.staying().pending_leave_deadline is None && d.staying().pending_leave_since is None,
        d.leaving(now, grace).staying() == d.staying(),
        forall|e: Device|
            e == d.seen(now) || e == d.leaving(now, grace) || e == d.staying() ==> {
                &&& (#[trigger] e.id) == d.id && e.name == d.name && e.host == d.host
                &&& e.hostname == d.hostname && e.port == d.port && e.instance == d.instance
            },
{
}

/// A device that is not leaving is stale once its last sighting is more than the age
/// ago, and a leaving one is due from its deadline on; a sighting or a deadline that
/// lies ahead is neither.
pub proof fn law_ages_are_counted_from_the_last_sighting(
    d: Device,
    max_age: Duration,
    now: Instant,
)
    ensures
        d.stale(max_age, now) <==> d.pending_leave_deadline is None && d.last_seen + max_age < now,
        d.due(now) <==> d.pending_leave_deadline is Some && d.pending_leave_deadline->0 <= now,
        d.last_seen >= now ==> !d.stale(max_age, now),
{
    clock::law_elapsed_leads_to_the_later_reading(d.last_seen, now);
}

/// A receiver that is desired is kept; one that is not is withdrawn exactly when no
/// session is live and the device has been gone for as long as is asked, and is left
/// for later otherwise.
pub proof fn law_receiver_goes_once_gone_long_enough(
    is_desired: bool,
    has_session: bool,
    gone_for: Duration,
    min_gone: Duration,
)
    ensures
        withdraw_decision(is_desired, has_session, gone_for, min_gone) is Keep <==> is_desired,
        withdraw_decision(is_desired, has_session, gone_for, min_gone) is Withdraw <==> !is_desired
            && !has_session && gone_for >= min_gone,
        withdraw_decision(false, false, gone_for, 0) is Withdraw,
        withdraw_decision(is_desired, has_session, gone_for, min_gone) is Defer <==> !is_desired && (
        has_session || gone_for < min_gone),
{
}

/// A remove event means one device at most. A device whose id is the name given is
/// meant before any device whose instance has that name, and of several the first.
pub proof fn law_remove_event_means_one_device(
    devices: Seq<Device>,
    key: Seq<char>,
    i: int,
    k: int,
)
    requires
        is_leave_match(devices, key, i),
        0 <= k < devices.len(),
    ensures
        is_leave_match(devices, key, k) ==> k == i,
        devices[k].id@ == key ==> devices[i].id@ == key && i <= k,
        devices[k].instance@ == key && devices[i].id@ != key ==> devices[i].instance@ == key && i
            <= k,
        devices[i].id@ == key || devices[i].instance@ == key,
        !no_leave_match(devices, key),
{
}

/// Choosing devices looks at each by itself: what is chosen from a list is what is
/// chosen from its parts, in their order, and a single device is chosen as it is or not
/// at all.
pub proof fn law_devices_are_chosen_one_by_one(
    first: Seq<Device>,
    second: Seq<Device>,
    d: Device,
    p: spec_fn(Device) -> bool,
)
    ensures
        only(first + second, p) == only(first, p) + only(second, p),
        p(d) ==> only(seq![d], p) == seq![d],
        !p(d) ==> only(seq![d], p) == Seq::<Device>::empty(),
    decreases second.len(),
{
    if second.len() == 0 {
        assert(first + second =~= first);
        assert(only(first, p) + only(second, p) =~= only(first, p));
    } else {
        law_devices_are_chosen_one_by_one(first, second.drop_last(), d, p);
        assert((first + second).drop_last() =~= first + second.drop_last());
        if p(second.last()) {
            assert(only(first, p) + only(second.drop_last(), p).push(second.last()) =~= (only(
                first,
                p,
            ) + only(second.drop_last(), p)).push(second.last()));
        }
    }
    assert(seq![d].drop_last() =~= Seq::<Device>::empty());
    assert(only(Seq::<Device>::empty(), p) =~= Seq::<Device>::empty());
    assert(Seq::<Device>::empty().push(d) =~= seq![d]);
}

/// What marking a device for leave means for a registry.
pub open spec fn mark_verdict(devices: Map<Seq<char>, Device>, id: Seq<char>) -> PendingLeaveMark {
    if !devices.dom().contains(id) {
        PendingLeaveMark::NotFound
    } else if devices[id].pending_leave_deadline is Some {
        PendingLeaveMark::AlreadyPending
    } else {
        PendingLeaveMark::NewlyMarked
    }
}

/// A device is marked once: it must be known, and not be about to leave already.
pub proof fn law_device_is_marked_once(
    devices: Map<Seq<char>, Device>,
    id: Seq<char>,
    now: Instant,
    grace: Duration,
)
    ensures
        mark_verdict(devices, id) == PendingLeaveMark::NotFound <==> !devices.dom().contains(id),
        mark_verdict(devices, id) == PendingLeaveMark::NewlyMarked <==> devices.dom().contains(id)
            && devices[id].pending_leave_deadline is None,
        mark_verdict(devices, id) == PendingLeaveMark::NewlyMarked ==> mark_verdict(
            devices.insert(id, devices[id].leaving(now, grace)),
            id,
        ) == PendingLeaveMark::AlreadyPending,
{
}

} // verus!
