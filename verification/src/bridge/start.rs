//! Starting a session: wait for real PCM, then serve it and load it on the device.
//!
//! A start belongs to one stream, known by its ring. When the client restarts the
//! stream meanwhile, or the receiver goes away, the start is stale and stops.

use vstd::prelude::*;
use crate::bridge;
use crate::bridge::buffered_wav_request;
use crate::cast::{MediaLoadRequest, MediaSessionRef};
use crate::clock::Duration;
use crate::error::{joined, Error};
use crate::registry::Device;
use crate::text;
use crate::text::{chars_of, push_all, push_str, string_of, to_decimal};

verus! {

/// Frames of real PCM required before a Cast load (about 0.5 s at 48 kHz).
pub const PREBUFFER_FRAMES: usize = 24_000;

/// Prebuffer polls before the start fails.
pub const PREBUFFER_POLLS: u32 = 160;

/// Time between prebuffer polls.
pub const PREBUFFER_POLL: Duration = 50_000_000;

/// Where a start stands.
#[derive(Debug, Clone, Copy, PartialEq, Eq, Structural)]
pub enum StartPhase {
    /// Is this still the receiver's stream?
    Checking,
    /// A previous session of the device ends.
    EndingPrevious,
    /// The device is looked up.
    FindingDevice,
    /// Is there enough PCM? So many polls are left, this one included.
    Filling(u32),
    /// Waiting for the next poll; so many are left, the last one included.
    Resting(u32),
    /// The last look at the ring.
    LastLook,
    /// A snapshot of the ring is encoded.
    Snapshot,
    /// Is this still the receiver's stream, right before the load?
    Rechecking,
    /// The media server starts.
    StartingMedia,
    /// Cast loads the stream.
    Loading,
    /// The device's volume is read.
    ReadingVolume,
    /// The start is over.
    Over,
}

/// What a start asks its caller to do.
#[derive(Debug)]
pub enum StartAction {
    /// Look whether the ring is still the receiver's, and how many frames it holds.
    LookAtRing,
    /// End the device's previous session, if any.
    EndPrevious,
    /// Look the device up.
    FindDevice,
    /// Wait.
    Sleep(Duration),
    /// Encode a snapshot of the ring.
    EncodeSnapshot,
    /// Start a media server that serves the ring.
    StartMedia,
    /// Load this on the device.
    Load(MediaLoadRequest),
    /// Read the device's volume.
    ReadVolume,
    /// Make the session active.
    Activate,
    /// The start is stale: done, without a session.
    Skip,
    /// The start failed before there was a media server.
    Fail(Error),
    /// The load failed: shut the media server down.
    ShutDownMedia(Error),
}

/// The outcome of an action.
#[derive(Debug)]
pub enum StartEvent {
    /// The ring was looked at.
    Ring {
        /// It is still the receiver's.
        current: bool,
        /// Complete frames in it.
        frames: usize,
    },
    /// The previous session has ended.
    PreviousEnded,
    /// The device was looked up.
    Found(Option<Device>),
    /// The wait is over.
    Slept,
    /// The snapshot was encoded, or not.
    SnapshotDone,
    /// The media server started and serves at this URL, or did not start.
    MediaStarted(Result<String, Error>),
    /// The stream was loaded, or not.
    Loaded(Result<MediaSessionRef, Error>),
    /// The volume was read, or not.
    VolumeRead,
}

/// The start of one session.
#[derive(Debug)]
pub struct SessionStart {
    device_id: String,
    phase: StartPhase,
    device: Option<Device>,
}

/// An event is the outcome of what a phase waits for.
pub open spec fn expects(phase: StartPhase, event: StartEvent) -> bool {
    match phase {
        StartPhase::Checking | StartPhase::Filling(_) | StartPhase::LastLook
        | StartPhase::Rechecking => event is Ring,
        StartPhase::EndingPrevious => event is PreviousEnded,
        StartPhase::FindingDevice => event is Found,
        StartPhase::Resting(_) => event is Slept,
        StartPhase::Snapshot => event is SnapshotDone,
        StartPhase::StartingMedia => event is MediaStarted,
        StartPhase::Loading => event is Loaded,
        StartPhase::ReadingVolume => event is VolumeRead,
        StartPhase::Over => false,
    }
}

/// The phase that follows an event.
pub open spec fn phase_after(phase: StartPhase, event: StartEvent) -> StartPhase {
    match (phase, event) {
        (StartPhase::Checking, StartEvent::Ring { current, frames }) => if current {
            StartPhase::EndingPrevious
        } else {
            StartPhase::Over
        },
        (StartPhase::EndingPrevious, StartEvent::PreviousEnded) => StartPhase::FindingDevice,
        (StartPhase::FindingDevice, StartEvent::Found(d)) => if d is Some {
            StartPhase::Filling(PREBUFFER_POLLS)
        } else {
            StartPhase::Over
        },
        (StartPhase::Filling(polls), StartEvent::Ring { current, frames }) => if !current {
            StartPhase::Over
        } else if frames >= PREBUFFER_FRAMES {
            StartPhase::Snapshot
        } else {
            StartPhase::Resting(polls)
        },
        (StartPhase::Resting(polls), StartEvent::Slept) => if polls > 1 {
            StartPhase::Filling((polls - 1) as u32)
        } else {
            StartPhase::LastLook
        },
        (StartPhase::LastLook, StartEvent::Ring { current, frames }) => if frames
            >= PREBUFFER_FRAMES {
            StartPhase::Snapshot
        } else {
            StartPhase::Over
        },
        (StartPhase::Snapshot, StartEvent::SnapshotDone) => StartPhase::Rechecking,
        (StartPhase::Rechecking, StartEvent::Ring { current, frames }) => if current {
            StartPhase::StartingMedia
        } else {
            StartPhase::Over
        },
        (StartPhase::StartingMedia, StartEvent::MediaStarted(r)) => if r is Ok {
            StartPhase::Loading
        } else {
            StartPhase::Over
        },
        (StartPhase::Loading, StartEvent::Loaded(r)) => if r is Ok {
            StartPhase::ReadingVolume
        } else {
            StartPhase::Over
        },
        (StartPhase::ReadingVolume, StartEvent::VolumeRead) => StartPhase::Over,
        _ => phase,
    }
}

/// The message of a prebuffer that never filled.
pub open spec fn prebuffer_timeout(frames: nat) -> Seq<char> {
    "prebuffer timeout after 8s: "@ + text::decimal(frames) + " frames available, need "@
        + text::decimal(PREBUFFER_FRAMES as nat)
}

impl SessionStart {
    /// Where the start stands.
    pub closed spec fn at(&self) -> StartPhase {
        self.phase
    }

    /// The id of the device.
    pub closed spec fn id(&self) -> Seq<char> {
        self.device_id@
    }

    /// The device, once it was found.
    pub closed spec fn found(&self) -> Option<Device> {
        self.device
    }

    /// What every event keeps: from the prebuffer on the device is known.
    pub open spec fn wf(&self) -> bool {
        match self.at() {
            StartPhase::Checking | StartPhase::EndingPrevious | StartPhase::FindingDevice
            | StartPhase::Over => true,
            StartPhase::Filling(polls) => polls > 0 && self.found() is Some,
            StartPhase::Resting(polls) => polls > 0 && self.found() is Some,
            _ => self.found() is Some,
        }
    }

    /// `action` is what `event` asks for.
    pub open spec fn asks(&self, event: StartEvent, action: StartAction) -> bool {
        match (self.at(), event) {
            (StartPhase::Checking, StartEvent::Ring { current, frames }) => if current {
                action is EndPrevious
            } else {
                action is Skip
            },
            (StartPhase::EndingPrevious, _) => action is FindDevice,
            (StartPhase::FindingDevice, StartEvent::Found(d)) => if d is Some {
                action is LookAtRing
            } else {
                action matches StartAction::Fail(Error::Bridge(m)) && m@ == "unknown device "@
                    + self.id()
            },
            (StartPhase::Filling(polls), StartEvent::Ring { current, frames }) => if !current {
                action is Skip
            } else if frames >= PREBUFFER_FRAMES {
                action is EncodeSnapshot
            } else {
                action == StartAction::Sleep(PREBUFFER_POLL)
            },
            (StartPhase::Resting(polls), _) => action is LookAtRing,
            (StartPhase::LastLook, StartEvent::Ring { current, frames }) => if frames
                >= PREBUFFER_FRAMES {
                action is EncodeSnapshot
            } else {
                action matches StartAction::Fail(Error::Bridge(m)) && m@ == prebuffer_timeout(
                    frames as nat,
                )
            },
            (StartPhase::Snapshot, _) => action is LookAtRing,
            (StartPhase::Rechecking, StartEvent::Ring { current, frames }) => if current {
                action is StartMedia
            } else {
                action is Skip
            },
            (StartPhase::StartingMedia, StartEvent::MediaStarted(Ok(url))) => action
                matches StartAction::Load(request) && bridge::is_wav_load(
                request,
                url@,
                self.found()->0.name@,
            ),
            (StartPhase::StartingMedia, StartEvent::MediaStarted(Err(e))) => action
                == StartAction::Fail(e),
            (StartPhase::Loading, StartEvent::Loaded(Ok(session))) => action is ReadVolume,
            (StartPhase::Loading, StartEvent::Loaded(Err(e))) => action
                == StartAction::ShutDownMedia(e),
            (StartPhase::ReadingVolume, _) => action is Activate,
            _ => true,
        }
    }

    /// Begin to start a session for `device_id`.
    pub fn new(device_id: String) -> (r: (SessionStart, StartAction))
        ensures
            r.0.wf(),
            r.0.at() == StartPhase::Checking,
            r.0.id() == device_id@,
            r.0.found() is None,
            r.1 is LookAtRing,
    {
        (
            SessionStart { device_id, phase: StartPhase::Checking, device: None },
            StartAction::LookAtRing,
        )
    }

    /// The device, once it was found.
    pub fn device(&self) -> (r: Option<&Device>)
        ensures
            match r {
                Some(d) => self.found() == Some(*d),
                None => self.found() is None,
            },
    {
        match &self.device {
            Some(d) => Some(d),
            None => None,
        }
    }

    /// The outcome of the last action came.
    pub fn step(&mut self, event: StartEvent) -> (action: StartAction)
        requires
            old(self).wf(),
            expects(old(self).at(), event),
        ensures
            final(self).wf(),
            final(self).at() == phase_after(old(self).at(), event),
            final(self).id() == old(self).id(),
            final(self).found() == match event {
                StartEvent::Found(d) => d,
                _ => old(self).found(),
            },
            old(self).asks(event, action),
    {
        match event {
            StartEvent::Ring { current, frames } => self.on_ring(current, frames),
            StartEvent::PreviousEnded => {
                self.phase = StartPhase::FindingDevice;
                StartAction::FindDevice
            },
            StartEvent::Found(found) => {
                let known: bool = found.is_some();
                self.device = found;
                if known {
                    self.phase = StartPhase::Filling(PREBUFFER_POLLS);
                    StartAction::LookAtRing
                } else {
                    self.phase = StartPhase::Over;
                    StartAction::Fail(
                        Error::Bridge(joined("unknown device ", self.device_id.as_str())),
                    )
                }
            },
            StartEvent::Slept => {
                match self.phase {
                    StartPhase::Resting(polls) => {
                        if polls > 1 {
                            self.phase = StartPhase::Filling(polls - 1);
                        } else {
                            self.phase = StartPhase::LastLook;
                        }
                    },
                    _ => {},
                }
                StartAction::LookAtRing
            },
            StartEvent::SnapshotDone => {
                self.phase = StartPhase::Rechecking;
                StartAction::LookAtRing
            },
            StartEvent::MediaStarted(Ok(url)) => {
                let request = match &self.device {
                    Some(d) => buffered_wav_request(url.as_str(), d.name.as_str()),
                    None => buffered_wav_request(url.as_str(), ""),
                };
                self.phase = StartPhase::Loading;
                StartAction::Load(request)
            },
            StartEvent::MediaStarted(Err(e)) => {
                self.phase = StartPhase::Over;
                StartAction::Fail(e)
            },
            StartEvent::Loaded(Ok(_)) => {
                self.phase = StartPhase::ReadingVolume;
                StartAction::ReadVolume
            },
            StartEvent::Loaded(Err(e)) => {
                self.phase = StartPhase::Over;
                StartAction::ShutDownMedia(e)
            },
            StartEvent::VolumeRead => {
                self.phase = StartPhase::Over;
                StartAction::Activate
            },
        }
    }

    fn on_ring(&mut self, current: bool, frames: usize) -> (action: StartAction)
        requires
            old(self).wf(),
            expects(old(self).at(), StartEvent::Ring { current, frames }),
        ensures
            final(self).wf(),
            final(self).at() == phase_after(old(self).at(), StartEvent::Ring { current, frames }),
            final(self).id() == old(self).id(),
            final(self).found() == old(self).found(),
            old(self).asks(StartEvent::Ring { current, frames }, action),
    {
        match self.phase {
            StartPhase::Checking => if current {
                self.phase = StartPhase::EndingPrevious;
                StartAction::EndPrevious
            } else {
                self.phase = StartPhase::Over;
                StartAction::Skip
            },
            StartPhase::Filling(polls) => if !current {
                self.phase = StartPhase::Over;
                StartAction::Skip
            } else if frames >= PREBUFFER_FRAMES {
                self.phase = StartPhase::Snapshot;
                StartAction::EncodeSnapshot
            } else {
                self.phase = StartPhase::Resting(polls);
                StartAction::Sleep(PREBUFFER_POLL)
            },
            StartPhase::LastLook => if frames >= PREBUFFER_FRAMES {
                self.phase = StartPhase::Snapshot;
                StartAction::EncodeSnapshot
            } else {
                self.phase = StartPhase::Over;
                StartAction::Fail(Error::Bridge(timeout_message(frames)))
            },
            _ => if current {
                self.phase = StartPhase::StartingMedia;
                StartAction::StartMedia
            } else {
                self.phase = StartPhase::Over;
                StartAction::Skip
            },
        }
    }
}

fn timeout_message(frames: usize) -> (r: String)
    ensures
        r@ == prebuffer_timeout(frames as nat),
{
    let mut out = chars_of("prebuffer timeout after 8s: ");
    let have = to_decimal(frames as u64);
    push_all(&mut out, have.as_slice());
    push_str(&mut out, " frames available, need ");
    let need = to_decimal(PREBUFFER_FRAMES as u64);
    push_all(&mut out, need.as_slice());
    string_of(out.as_slice())
}

// ── Laws ────────────────────────────────────────────────────────────────────

/// The phase after a series of events, each the outcome that was waited for.
pub open spec fn phase_of(events: Seq<StartEvent>) -> StartPhase
    decreases events.len(),
{
    if events.len() == 0 {
        StartPhase::Checking
    } else {
        phase_after(phase_of(events.drop_last()), events.last())
    }
}

/// Every event of a series was the outcome that was waited for.
pub open spec fn in_turn(events: Seq<StartEvent>) -> bool
    decreases events.len(),
{
    events.len() == 0 || (in_turn(events.drop_last()) && expects(
        phase_of(events.drop_last()),
        events.last(),
    ))
}

/// How many waits a series holds.
pub open spec fn waits(events: Seq<StartEvent>) -> nat
    decreases events.len(),
{
    if events.len() == 0 {
        0
    } else {
        waits(events.drop_last()) + if events.last() is Slept {
            1nat
        } else {
            0
        }
    }
}

/// A look at the ring found a full prebuffer.
pub open spec fn is_full(event: StartEvent) -> bool {
    event matches StartEvent::Ring { current, frames } && frames >= PREBUFFER_FRAMES
}

/// A phase after the prebuffer.
pub open spec fn is_past_prebuffer(phase: StartPhase) -> bool {
    phase is Snapshot || phase is Rechecking || phase is StartingMedia || phase is Loading || phase
        is ReadingVolume
}

/// A start waits at most [`PREBUFFER_POLLS`] times, so that it takes a bounded time to
/// fail.
pub proof fn law_prebuffer_waits_are_bounded(events: Seq<StartEvent>)
    requires
        in_turn(events),
    ensures
        waits(events) <= PREBUFFER_POLLS,
        match phase_of(events) {
            StartPhase::Checking | StartPhase::EndingPrevious | StartPhase::FindingDevice => waits(
                events,
            ) == 0,
            StartPhase::Filling(polls) => polls > 0 && waits(events) + polls == PREBUFFER_POLLS,
            StartPhase::Resting(polls) => polls > 0 && waits(events) + polls == PREBUFFER_POLLS,
            _ => true,
        },
    decreases events.len(),
{
    if events.len() > 0 {
        law_prebuffer_waits_are_bounded(events.drop_last());
    }
}

/// Cast is never asked to load before a look at the ring found a full prebuffer.
pub proof fn law_no_load_before_prebuffer(events: Seq<StartEvent>)
    requires
        in_turn(events),
        is_past_prebuffer(phase_of(events)),
    ensures
        exists|i: int| 0 <= i < events.len() && is_full(#[trigger] events[i]),
    decreases events.len(),
{
    let before = events.drop_last();
    let last = events.last();
    assert(last == events[events.len() - 1]);
    if is_past_prebuffer(phase_of(before)) {
        law_no_load_before_prebuffer(before);
        let i = choose|i: int| 0 <= i < before.len() && is_full(#[trigger] before[i]);
        assert(is_full(events[i]));
    } else {
        assert(is_full(events[events.len() - 1]));
    }
}

/// A session only becomes active after its load succeeded, and the load only came
/// after the ring was found current right before.
pub proof fn law_activation_needs_a_load(events: Seq<StartEvent>)
    requires
        in_turn(events),
        phase_of(events) is ReadingVolume,
    ensures
        events.len() >= 3,
        events.last() matches StartEvent::Loaded(r) && r is Ok,
        events[events.len() - 2] matches StartEvent::MediaStarted(r) && r is Ok,
        events[events.len() - 3] matches StartEvent::Ring { current, frames } && current,
{
    reveal_with_fuel(in_turn, 4);
    reveal_with_fuel(phase_of, 4);
    let one = events.drop_last();
    assert(phase_of(one) is Loading);
    let two = one.drop_last();
    assert(phase_of(two) is StartingMedia);
    assert(one.last() == events[events.len() - 2]);
    let three = two.drop_last();
    assert(phase_of(three) is Rechecking);
    assert(two.last() == events[events.len() - 3]);
}

/// The newest stream wins: the device's previous session has ended before anything of
/// the new one begins.
pub proof fn law_previous_session_ends_first(events: Seq<StartEvent>)
    requires
        in_turn(events),
        is_past_prebuffer(phase_of(events)) || phase_of(events) is FindingDevice || phase_of(
            events,
        ) is Filling || phase_of(events) is Resting || phase_of(events) is LastLook,
    ensures
        events.len() >= 2,
        events[0] matches StartEvent::Ring { current, frames } && current,
        events[1] is PreviousEnded,
    decreases events.len(),
{
    let before = events.drop_last();
    if phase_of(events) is FindingDevice {
        reveal_with_fuel(in_turn, 4);
        reveal_with_fuel(phase_of, 4);
        assert(phase_of(before) is EndingPrevious);
        let first = before.drop_last();
        assert(phase_of(first) is Checking);
        lemma_checking_is_first(first);
        assert(before.last() == events[0]);
        assert(events.last() == events[1]);
    } else {
        law_previous_session_ends_first(before);
        assert(before[0] == events[0] && before[1] == events[1]);
    }
}

/// Only a start without events is still checking its stream.
proof fn lemma_checking_is_first(events: Seq<StartEvent>)
    requires
        in_turn(events),
        phase_of(events) is Checking,
    ensures
        events.len() == 0,
{
}

/// A start whose ring is stale stops, at every look but the last of the prebuffer,
/// which only counts frames.
pub proof fn law_stale_start_stops(events: Seq<StartEvent>, frames: usize)
    requires
        in_turn(events),
        expects(phase_of(events), StartEvent::Ring { current: false, frames }),
        !(phase_of(events) is LastLook),
    ensures
        phase_of(events.push(StartEvent::Ring { current: false, frames })) is Over,
{
    let more = events.push(StartEvent::Ring { current: false, frames });
    assert(more.drop_last() =~= events);
}

/// Each outcome asks for the one thing that comes next. A stale stream is skipped, a
/// ring with fewer than 24 000 frames is waited for by 50 ms, a fuller one is encoded.
pub proof fn law_each_look_asks_for_what_comes_next(
    start: SessionStart,
    current: bool,
    frames: usize,
    action: StartAction,
)
    requires
        start.asks(StartEvent::Ring { current, frames }, action),
    ensures
        start.at() is Checking || start.at() is Filling || start.at() is Rechecking ==> (action
            is Skip <==> !current),
        start.at() is Checking && current ==> action is EndPrevious,
        start.at() is Filling && current && frames >= 24_000 ==> action is EncodeSnapshot,
        start.at() is Filling && current && frames < 24_000 ==> action == StartAction::Sleep(
            50_000_000,
        ),
        start.at() is LastLook && frames >= 24_000 ==> action is EncodeSnapshot,
        start.at() is LastLook && frames < 24_000 ==> action is Fail,
        start.at() is Rechecking && current ==> action is StartMedia,
{
}

/// The device that was found is loaded with its own name and the address of the media
/// server, as buffered WAV; whatever fails ends the start with its own error.
pub proof fn law_each_outcome_asks_for_what_comes_next(
    start: SessionStart,
    event: StartEvent,
    action: StartAction,
)
    requires
        expects(start.at(), event),
        start.asks(event, action),
    ensures
        event is PreviousEnded ==> action is FindDevice,
        event matches StartEvent::Found(d) && d is Some ==> action is LookAtRing,
        event matches StartEvent::Found(d) && d is None ==> (action
            matches StartAction::Fail(Error::Bridge(m)) && m@ == "unknown device "@ + start.id()),
        event is Slept ==> action is LookAtRing,
        event is SnapshotDone ==> action is LookAtRing,
        event matches StartEvent::MediaStarted(Ok(url)) ==> {
            &&& action matches StartAction::Load(request)
            &&& request.content_url@ == url@
            &&& request.content_type@ == "audio/wav"@
            &&& request.title is Some && request.title->0@ == start.found()->0.name@
        },
        event matches StartEvent::MediaStarted(Err(e)) ==> action == StartAction::Fail(e),
        event matches StartEvent::Loaded(Ok(session)) ==> action is ReadVolume,
        event matches StartEvent::Loaded(Err(e)) ==> action == StartAction::ShutDownMedia(e),
        event is VolumeRead ==> action is Activate,
{
}

/// A start that finds its device looks at the ring 160 times at most, 50 ms apart, and
/// once more; that makes eight seconds. A start whose every outcome is good goes on from
/// phase to phase until it is over.
pub proof fn law_phases_follow_each_other(device: Device, polls: u32, url: String, media: MediaSessionRef, frames: usize)
    ensures
        phase_after(StartPhase::Checking, StartEvent::Ring { current: true, frames })
            == StartPhase::EndingPrevious,
        phase_after(StartPhase::EndingPrevious, StartEvent::PreviousEnded)
            == StartPhase::FindingDevice,
        phase_after(StartPhase::FindingDevice, StartEvent::Found(Some(device)))
            == StartPhase::Filling(160),
        phase_after(StartPhase::FindingDevice, StartEvent::Found(None)) == StartPhase::Over,
        PREBUFFER_POLLS * PREBUFFER_POLL == 8_000_000_000,
        frames < 24_000 ==> phase_after(
            StartPhase::Filling(polls),
            StartEvent::Ring { current: true, frames },
        ) == StartPhase::Resting(polls),
        frames >= 24_000 ==> phase_after(
            StartPhase::Filling(polls),
            StartEvent::Ring { current: true, frames },
        ) == StartPhase::Snapshot,
        polls > 1 ==> (phase_after(StartPhase::Resting(polls), StartEvent::Slept)
            matches StartPhase::Filling(left) && left == polls - 1),
        polls <= 1 ==> phase_after(StartPhase::Resting(polls), StartEvent::Slept)
            == StartPhase::LastLook,
        frames < 24_000 ==> phase_after(
            StartPhase::LastLook,
            StartEvent::Ring { current: true, frames },
        ) == StartPhase::Over,
        frames >= 24_000 ==> phase_after(
            StartPhase::LastLook,
            StartEvent::Ring { current: true, frames },
        ) == StartPhase::Snapshot,
        frames >= 24_000 ==> phase_after(
            StartPhase::LastLook,
            StartEvent::Ring { current: false, frames },
        ) == StartPhase::Snapshot,
        phase_after(StartPhase::Snapshot, StartEvent::SnapshotDone) == StartPhase::Rechecking,
        phase_after(StartPhase::Rechecking, StartEvent::Ring { current: true, frames })
            == StartPhase::StartingMedia,
        phase_after(StartPhase::StartingMedia, StartEvent::MediaStarted(Ok(url)))
            == StartPhase::Loading,
        phase_after(StartPhase::Loading, StartEvent::Loaded(Ok(media)))
            == StartPhase::ReadingVolume,
        phase_after(StartPhase::ReadingVolume, StartEvent::VolumeRead) == StartPhase::Over,
{
}

/// Whatever fails ends the start.
pub proof fn law_failure_ends_the_start(e: Error)
    ensures
        phase_after(StartPhase::StartingMedia, StartEvent::MediaStarted(Err(e))) == StartPhase::Over,
        phase_after(StartPhase::Loading, StartEvent::Loaded(Err(e))) == StartPhase::Over,
{
}

/// The message of a prebuffer that never filled tells, in decimal digits, how many
/// frames there are and that 24 000 are needed.
pub proof fn law_timeout_tells_what_is_missing(frames: nat)
    ensures
        prebuffer_timeout(frames) == "prebuffer timeout after 8s: "@ + text::decimal(frames)
            + " frames available, need "@ + text::decimal(24_000),
{
}

} // verus!
