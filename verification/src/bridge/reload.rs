//! Re-loading a session's stream each time its body reaches its Content-Length.

use vstd::prelude::*;
use crate::bridge::LoadVolumePolicy;

verus! {

/// Where the re-load task of a session stands.
#[derive(Debug, Clone, Copy, PartialEq, Eq, Structural)]
pub enum ReloadPhase {
    /// Waiting for a body to end, or to be cancelled.
    Waiting,
    /// About to publish a load where teardown finds it.
    Publishing,
    /// Waiting for the load.
    Loading,
    /// Over.
    Stopped,
}

/// What the re-load task hears.
#[derive(Debug, Clone, Copy, PartialEq, Eq, Structural)]
pub enum ReloadEvent {
    /// Teardown cancelled the task.
    Cancelled,
    /// The rollover count is past the one seen.
    RolledOver(u64),
    /// The slot for loads in flight is locked.
    SlotLocked,
    /// The load succeeded or failed.
    LoadDone,
    /// The load's result was dropped by teardown.
    LoadDropped,
}

/// What the re-load task does next.
#[derive(Debug)]
pub enum ReloadAction<V> {
    /// Wait for the rollover count to pass this one, or to be cancelled.
    WaitPast(u64),
    /// Lock the slot for loads in flight.
    LockSlot,
    /// Load the stream again, with this volume policy, before the slot is unlocked.
    Load(LoadVolumePolicy<V>),
    /// End the task.
    Stop,
}

/// The re-load task of a session.
#[derive(Debug, Clone, Copy, PartialEq, Eq, Structural)]
pub struct ReloadLoop {
    /// Rollovers already answered.
    pub seen: u64,
    /// Where the task stands.
    pub phase: ReloadPhase,
}

impl ReloadLoop {
    /// The events that can come in this phase.
    pub open spec fn expects(self, event: ReloadEvent) -> bool {
        match (self.phase, event) {
            (ReloadPhase::Waiting, ReloadEvent::Cancelled) => true,
            (ReloadPhase::Waiting, ReloadEvent::RolledOver(count)) => count > self.seen,
            (ReloadPhase::Publishing, ReloadEvent::SlotLocked) => true,
            (ReloadPhase::Loading, ReloadEvent::LoadDone) => true,
            (ReloadPhase::Loading, ReloadEvent::LoadDropped) => true,
            _ => false,
        }
    }

    /// The task after an event, in a session that is alive or not. A dead session is
    /// never loaded again.
    pub open spec fn after(self, event: ReloadEvent, alive: bool) -> ReloadLoop {
        let seen = match event {
            ReloadEvent::RolledOver(count) => count,
            _ => self.seen,
        };
        let phase = if !alive || event is Cancelled || event is LoadDropped {
            ReloadPhase::Stopped
        } else {
            match event {
                ReloadEvent::RolledOver(count) => ReloadPhase::Publishing,
                ReloadEvent::SlotLocked => ReloadPhase::Loading,
                _ => ReloadPhase::Waiting,
            }
        };
        ReloadLoop { seen, phase }
    }

    /// The task of a fresh session.
    pub fn new<V>() -> (r: (ReloadLoop, ReloadAction<V>))
        ensures
            r.0 == (ReloadLoop { seen: 0, phase: ReloadPhase::Waiting }),
            r.1 == ReloadAction::<V>::WaitPast(0),
    {
        (ReloadLoop { seen: 0, phase: ReloadPhase::Waiting }, ReloadAction::WaitPast(0))
    }

    /// One event of the task. `alive` says whether the session still lives when the
    /// event is handled, `last_volume` what AirPlay last asked for.
    pub fn step<V>(&mut self, event: ReloadEvent, alive: bool, last_volume: Option<V>) -> (action:
        ReloadAction<V>)
        requires
            old(self).expects(event),
        ensures
            *final(self) == old(self).after(event, alive),
            action == match final(self).phase {
                ReloadPhase::Waiting => ReloadAction::WaitPast(final(self).seen),
                ReloadPhase::Publishing => ReloadAction::LockSlot,
                ReloadPhase::Loading => ReloadAction::Load(
                    LoadVolumePolicy::Rollover { last_volume },
                ),
                ReloadPhase::Stopped => ReloadAction::Stop,
            },
            action == final(self).asks_for(last_volume),
    {
        match event {
            ReloadEvent::RolledOver(count) => {
                self.seen = count;
            },
            _ => {},
        }
        if !alive {
            self.phase = ReloadPhase::Stopped;
            return ReloadAction::Stop;
        }
        match event {
            ReloadEvent::Cancelled => {
                self.phase = ReloadPhase::Stopped;
                ReloadAction::Stop
            },
            ReloadEvent::RolledOver(_) => {
                self.phase = ReloadPhase::Publishing;
                ReloadAction::LockSlot
            },
            ReloadEvent::SlotLocked => {
                self.phase = ReloadPhase::Loading;
                ReloadAction::Load(LoadVolumePolicy::Rollover { last_volume })
            },
            ReloadEvent::LoadDone => {
                self.phase = ReloadPhase::Waiting;
                ReloadAction::WaitPast(self.seen)
            },
            ReloadEvent::LoadDropped => {
                self.phase = ReloadPhase::Stopped;
                ReloadAction::Stop
            },
        }
    }
}

/// Whether a load that just finished must be stopped again: when its session died in
/// the meantime, so that playback cannot revive against a dead server.
pub fn stop_after_load(alive: bool) -> (r: bool)
    ensures
        r == !alive,
{
    !alive
}

/// A dead session is never loaded again: from any event that finds it dead, the task
/// stops.
pub proof fn law_dead_session_is_not_reloaded(task: ReloadLoop, event: ReloadEvent)
    requires
        task.expects(event),
    ensures
        task.after(event, false).phase == ReloadPhase::Stopped,
{
}

/// Every load answers a rollover that was not answered before: the count seen grows
/// on the way to a load and never shrinks.
pub proof fn law_each_rollover_is_answered_once(
    task: ReloadLoop,
    count: u64,
    alive: bool,
)
    requires
        task.expects(ReloadEvent::RolledOver(count)),
    ensures
        task.after(ReloadEvent::RolledOver(count), alive).seen > task.seen,
        forall|next: ReloadEvent, a: bool|
            !(next is RolledOver) ==> (#[trigger] task.after(ReloadEvent::RolledOver(count), alive).after(
                next,
                a,
            )).seen == count,
{
}

/// In a live session a rollover leads to publishing, the locked slot to the load, and
/// the finished load back to waiting for the next rollover. A cancelled task and a load
/// that was dropped end it.
pub proof fn law_live_session_is_reloaded_in_turn(task: ReloadLoop, count: u64)
    ensures
        task.after(ReloadEvent::RolledOver(count), true) == (ReloadLoop {
            seen: count,
            phase: ReloadPhase::Publishing,
        }),
        task.after(ReloadEvent::SlotLocked, true) == (ReloadLoop {
            seen: task.seen,
            phase: ReloadPhase::Loading,
        }),
        task.after(ReloadEvent::LoadDone, true) == (ReloadLoop {
            seen: task.seen,
            phase: ReloadPhase::Waiting,
        }),
        task.after(ReloadEvent::Cancelled, true) == (ReloadLoop {
            seen: task.seen,
            phase: ReloadPhase::Stopped,
        }),
        task.after(ReloadEvent::LoadDropped, true) == (ReloadLoop {
            seen: task.seen,
            phase: ReloadPhase::Stopped,
        }),
{
}

/// A waiting task hears a rollover that it has not answered, or that it is cancelled; a
/// publishing one that the slot is locked; a loading one what came of the load; and one
/// that has stopped hears nothing.
pub proof fn law_task_hears_what_it_waits_for(task: ReloadLoop, event: ReloadEvent)
    ensures
        task.expects(event) ==> !(task.phase is Stopped),
        event matches ReloadEvent::RolledOver(count) ==> (task.expects(event) <==> task.phase
            is Waiting && count > task.seen),
        event is Cancelled ==> (task.expects(event) <==> task.phase is Waiting),
        event is SlotLocked ==> (task.expects(event) <==> task.phase is Publishing),
        event is LoadDone || event is LoadDropped ==> (task.expects(event) <==> task.phase
            is Loading),
{
}

impl ReloadLoop {
    /// What the task does in its phase.
    pub open spec fn asks_for<V>(self, last_volume: Option<V>) -> ReloadAction<V> {
        match self.phase {
            ReloadPhase::Waiting => ReloadAction::WaitPast(self.seen),
            ReloadPhase::Publishing => ReloadAction::LockSlot,
            ReloadPhase::Loading => ReloadAction::Load(LoadVolumePolicy::Rollover { last_volume }),
            ReloadPhase::Stopped => ReloadAction::Stop,
        }
    }
}

/// A waiting task waits for the rollover behind those that it has answered; one that loads
/// sets the volume that was last asked for; one that has stopped does nothing.
pub proof fn law_task_does_what_its_phase_says<V>(seen: u64, last_volume: Option<V>)
    ensures
        (ReloadLoop { seen, phase: ReloadPhase::Waiting }).asks_for(last_volume)
            == ReloadAction::<V>::WaitPast(seen),
        (ReloadLoop { seen, phase: ReloadPhase::Publishing }).asks_for(last_volume) is LockSlot,
        (ReloadLoop { seen, phase: ReloadPhase::Loading }).asks_for(last_volume)
            == ReloadAction::Load(LoadVolumePolicy::Rollover { last_volume }),
        (ReloadLoop { seen, phase: ReloadPhase::Stopped }).asks_for(last_volume) is Stop,
{
}

} // verus!
