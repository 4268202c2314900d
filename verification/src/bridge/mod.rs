//! Session bridge: AirPlay PCM to a continuous lossless WAV body to a Cast load.
//!
//! The caller runs the media server, the Cast pool and the tasks. The rules here say
//! which sessions there are, what an AirPlay event asks for, and in which order a
//! session starts, re-loads and ends. `M` stands for what the caller keeps of a
//! session, `R` for a PCM ring handle and `V` for a volume.

pub mod reload;
pub mod start;

use vstd::prelude::*;
use crate::airplay::AirPlaySessionEvent;
use crate::audio::flac;
use crate::audio::flac::encode_pcm_i16_to_flac;
use crate::audio::pcm;
use crate::audio::pcm::PcmRing;
use crate::cast::{CastStreamKind, MediaLoadRequest, CONTENT_TYPE_FLAC};
use crate::clock;
use crate::clock::{Duration, Instant};
use crate::error::Error;
use crate::media::http::MediaContent;
use crate::table::Table;
use crate::text::{chars_of, string_of};

verus! {

/// Frames copied for the FLAC quality-path snapshot at session start.
pub const SNAPSHOT_FRAMES: usize = 2048;

/// How long the event loop waits for per-device workers after the events end.
pub const WORKER_JOIN_TIMEOUT: Duration = 30_000_000_000;

/// How long teardown waits for the re-load task after cancelling it.
pub const ROLLOVER_TASK_JOIN_TIMEOUT: Duration = 2_000_000_000;

/// How long teardown waits for an in-flight blocking Cast load. It covers the
/// longest Cast command with margin, so that a slow load is joined and not detached.
pub const INFLIGHT_LOAD_JOIN_TIMEOUT: Duration = 30_000_000_000;

/// How long a best-effort Cast STOP may take.
pub const CAST_STOP_TIMEOUT: Duration = 2_000_000_000;

/// Ignore queued AirPlay pause events for this long after a Cast load succeeds.
///
/// Such events may have been queued while the start blocked; they would silence a
/// brand-new session.
pub const PAUSE_GRACE: Duration = 2_000_000_000;

/// Ring frames above this mean that AirPlay still has PCM buffered.
pub const PAUSE_RING_PCM_THRESHOLD: usize = 256;

// ── Volume ──────────────────────────────────────────────────────────────────

/// How Cast volume is applied after a load.
#[derive(Debug)]
pub enum LoadVolumePolicy<V> {
    /// Initial session start: leave the Cast device volume unchanged.
    PreserveDevice,
    /// Re-load at the end of a body: re-apply the last AirPlay volume, if known.
    Rollover {
        /// The last volume that AirPlay asked for.
        last_volume: Option<V>,
    },
}

/// Resolve the volume to set after a load, if any.
pub fn volume_after_load<V>(policy: LoadVolumePolicy<V>) -> (r: Option<V>)
    ensures
        r == match policy {
            LoadVolumePolicy::PreserveDevice => None,
            LoadVolumePolicy::Rollover { last_volume } => last_volume,
        },
        r == volume_to_set(policy),
{
    match policy {
        LoadVolumePolicy::PreserveDevice => None,
        LoadVolumePolicy::Rollover { last_volume } => last_volume,
    }
}

/// `request` loads a buffered progressive WAV stream under a title.
pub open spec fn is_wav_load(
    request: MediaLoadRequest,
    stream_url: Seq<char>,
    title: Seq<char>,
) -> bool {
    &&& request.content_url@ == stream_url
    &&& request.content_type@ == crate::cast::CONTENT_TYPE_WAV@
    &&& request.stream_kind == CastStreamKind::Buffered
    &&& request.title matches Some(t) && t@ == title
}

/// The load of a session's stream, shared by its start and its re-loads.
///
/// A buffered progressive file works on the speakers; a live one often stays silent.
pub fn buffered_wav_request(stream_url: &str, title: &str) -> (r: MediaLoadRequest)
    ensures
        is_wav_load(r, stream_url@, title@),
{
    MediaLoadRequest::wav(stream_url, CastStreamKind::Buffered).with_title(title)
}

// ── Pausing ─────────────────────────────────────────────────────────────────

/// Why a queued AirPlay pause must not pause Cast.
#[derive(Debug, Clone, Copy, PartialEq, Eq, Structural)]
pub enum PauseSkipReason {
    /// Session just became active; idle events from the load window are in flight.
    WithinGrace,
    /// Ring still holds substantial PCM (playback, not a true idle).
    RingHasPcm,
}

impl PauseSkipReason {
    /// The reason in a word.
    pub fn as_str(self) -> (r: &'static str)
        ensures
            r@ == match self {
                PauseSkipReason::WithinGrace => "grace"@,
                PauseSkipReason::RingHasPcm => "ring_has_pcm"@,
            },
    {
        match self {
            PauseSkipReason::WithinGrace => "grace",
            PauseSkipReason::RingHasPcm => "ring_has_pcm",
        }
    }
}

/// Whether a pause counts. Buffered PCM wins over the grace time.
pub open spec fn pause_verdict(
    now: Instant,
    pause_eligible_at: Instant,
    ring_frames: usize,
    ring_pcm_threshold: usize,
) -> Result<(), PauseSkipReason> {
    if ring_frames > ring_pcm_threshold {
        Err(PauseSkipReason::RingHasPcm)
    } else if now < pause_eligible_at {
        Err(PauseSkipReason::WithinGrace)
    } else {
        Ok(())
    }
}

/// Decide whether an AirPlay pause/flush event should pause Cast media.
///
/// Returns `Ok(())` to pause, or `Err(reason)` when the event is stale or false idle.
pub fn should_pause_cast(
    now: Instant,
    pause_eligible_at: Instant,
    ring_frames: usize,
    ring_pcm_threshold: usize,
) -> (r: Result<(), PauseSkipReason>)
    ensures
        r == pause_verdict(now, pause_eligible_at, ring_frames, ring_pcm_threshold),
{
    if ring_frames > ring_pcm_threshold {
        return Err(PauseSkipReason::RingHasPcm);
    }
    if now < pause_eligible_at {
        return Err(PauseSkipReason::WithinGrace);
    }
    Ok(())
}

// ── Ending ──────────────────────────────────────────────────────────────────

/// Ordered teardown steps for the media and Cast side of a session.
///
/// Media must not wait on STOP success.
#[derive(Debug, Clone, Copy, PartialEq, Eq, Structural)]
pub enum SessionEndStep {
    /// Shut down the local HTTP server (stop underrun immediately).
    MediaShutdown,
    /// Best-effort Cast STOP with timeout (may fail or time out).
    CastStopBestEffort,
}

/// Session-end order (media first, then Cast STOP).
pub fn session_end_steps() -> (r: [SessionEndStep; 2])
    ensures
        r@ == seq![SessionEndStep::MediaShutdown, SessionEndStep::CastStopBestEffort],
{
    let steps = [SessionEndStep::MediaShutdown, SessionEndStep::CastStopBestEffort];
    proof {
        assert(steps@ =~= seq![SessionEndStep::MediaShutdown, SessionEndStep::CastStopBestEffort]);
    }
    steps
}

/// Everything that ends a session, step by step.
#[derive(Debug, Clone, Copy, PartialEq, Eq, Structural)]
pub enum TeardownStep {
    /// Mark the session dead, so that a load that finishes late stops again.
    MarkDead,
    /// Tell the re-load task to stop.
    CancelReload,
    /// Wait for the re-load task, at most this long.
    JoinReload(Duration),
    /// Wait for a load in flight, at most this long.
    JoinLoad(Duration),
    /// End media and Cast.
    End(SessionEndStep),
}

/// The order in which a session is torn down.
pub open spec fn teardown_order() -> Seq<TeardownStep> {
    seq![
        TeardownStep::MarkDead,
        TeardownStep::CancelReload,
        TeardownStep::JoinReload(ROLLOVER_TASK_JOIN_TIMEOUT),
        TeardownStep::JoinLoad(INFLIGHT_LOAD_JOIN_TIMEOUT),
        TeardownStep::End(SessionEndStep::MediaShutdown),
        TeardownStep::End(SessionEndStep::CastStopBestEffort),
    ]
}

/// The order in which a session is torn down.
///
/// The re-load task is joined before the load in flight is taken, so that a load that
/// was about to be published is joined too.
pub fn teardown_steps() -> (r: [TeardownStep; 6])
    ensures
        r@ == teardown_order(),
{
    let end = session_end_steps();
    let steps = [
        TeardownStep::MarkDead,
        TeardownStep::CancelReload,
        TeardownStep::JoinReload(ROLLOVER_TASK_JOIN_TIMEOUT),
        TeardownStep::JoinLoad(INFLIGHT_LOAD_JOIN_TIMEOUT),
        TeardownStep::End(end[0]),
        TeardownStep::End(end[1]),
    ];
    proof {
        assert(steps@ =~= teardown_order());
    }
    steps
}

// ── Sessions ────────────────────────────────────────────────────────────────

/// One live bridge session for a device.
#[derive(Debug)]
pub struct ActiveSession<M, V> {
    /// What the caller keeps of the session.
    pub media: M,
    /// Last AirPlay volume (updated by volume events).
    pub last_volume: Option<V>,
    /// Earliest instant at which AirPlay pause/flush may pause this session.
    pub pause_eligible_at: Instant,
}

/// What a pause event asks for.
#[derive(Debug, Clone, Copy, PartialEq, Eq, Structural)]
pub enum PauseCall {
    /// Nothing: the device has no session.
    NoSession,
    /// Nothing, for this reason.
    Skip(PauseSkipReason),
    /// Pause Cast.
    Pause,
}

/// The live sessions by device id.
#[derive(Debug)]
pub struct Bridge<M, V> {
    sessions: Table<ActiveSession<M, V>>,
}

impl<M, V> Bridge<M, V> {
    /// The sessions by device id.
    pub closed spec fn sessions(&self) -> Map<Seq<char>, ActiveSession<M, V>> {
        self.sessions@
    }

    /// The device ids with a session.
    pub closed spec fn ids(&self) -> Seq<Seq<char>> {
        self.sessions.ids()
    }

    /// What every operation keeps: one session per listed id.
    pub closed spec fn wf(&self) -> bool {
        self.sessions.wf()
    }

    /// A bridge without sessions.
    pub fn new() -> (r: Bridge<M, V>)
        ensures
            r.wf(),
            r.sessions() == Map::<Seq<char>, ActiveSession<M, V>>::empty(),
    {
        Bridge { sessions: Table::new() }
    }

    /// Whether a live bridge session exists for `device_id`.
    #[must_use]
    pub fn has_session(&self, device_id: &str) -> (r: bool)
        requires
            self.wf(),
        ensures
            r == self.sessions().dom().contains(device_id@),
    {
        self.sessions.contains(device_id)
    }

    /// The device ids with a session.
    pub fn session_ids(&self) -> (out: Vec<String>)
        requires
            self.wf(),
        ensures
            crate::text::views(out@) == self.ids(),
            forall|id: Seq<char>|
                #![trigger self.ids().contains(id)]
                self.ids().contains(id) <==> self.sessions().dom().contains(id),
    {
        self.sessions.keys()
    }

    /// The session of a device.
    pub fn session(&self, device_id: &str) -> (r: Option<&ActiveSession<M, V>>)
        requires
            self.wf(),
        ensures
            match r {
                Some(s) => self.sessions().dom().contains(device_id@) && *s
                    == self.sessions()[device_id@],
                None => !self.sessions().dom().contains(device_id@),
            },
    {
        self.sessions.get(device_id)
    }

    /// A session became active at `now`, after its load succeeded.
    ///
    /// Pauses that were queued before are ignored for [`PAUSE_GRACE`].
    pub fn activate(
        &mut self,
        device_id: String,
        media: M,
        volume: Option<V>,
        now: Instant,
    ) -> (replaced: Option<ActiveSession<M, V>>)
        requires
            old(self).wf(),
            now <= clock::LATEST_INSTANT,
        ensures
            final(self).wf(),
            final(self).sessions() == old(self).sessions().insert(
                device_id@,
                ActiveSession {
                    media,
                    last_volume: volume,
                    pause_eligible_at: (now + PAUSE_GRACE) as u128,
                },
            ),
            replaced == if old(self).sessions().dom().contains(device_id@) {
                Some(old(self).sessions()[device_id@])
            } else {
                None
            },
    {
        self.sessions.insert(
            device_id,
            ActiveSession { media, last_volume: volume, pause_eligible_at: now + PAUSE_GRACE },
        )
    }

    /// Take the session of a device out, to be torn down in the order of
    /// [`teardown_steps`].
    pub fn end_session(&mut self, device_id: &str) -> (r: Option<ActiveSession<M, V>>)
        requires
            old(self).wf(),
        ensures
            final(self).wf(),
            final(self).sessions() == old(self).sessions().remove(device_id@),
            r == if old(self).sessions().dom().contains(device_id@) {
                Some(old(self).sessions()[device_id@])
            } else {
                None
            },
    {
        self.sessions.remove(device_id)
    }

    /// AirPlay set a volume: remembered by the device's session, and to be set on
    /// Cast exactly when there is one.
    pub fn handle_volume(&mut self, device_id: &str, level: V) -> (set_on_cast: bool)
        requires
            old(self).wf(),
        ensures
            final(self).wf(),
            set_on_cast == old(self).sessions().dom().contains(device_id@),
            !set_on_cast ==> *final(self) == *old(self),
            set_on_cast ==> final(self).sessions() == old(self).sessions().insert(
                device_id@,
                ActiveSession {
                    last_volume: Some(level),
                    ..old(self).sessions()[device_id@]
                },
            ),
    {
        match self.sessions.remove(device_id) {
            Some(session) => {
                let ActiveSession { media, last_volume: _, pause_eligible_at } = session;
                let ghost before = old(self).sessions();
                let updated = ActiveSession { media, last_volume: Some(level), pause_eligible_at };
                let ghost made = updated;
                let _none = self.sessions.insert(
                    string_of(chars_of(device_id).as_slice()),
                    updated,
                );
                proof {
                    assert(self.sessions() =~= before.insert(device_id@, made));
                }
                true
            },
            None => false,
        }
    }

    /// AirPlay paused or flushed while the session's ring holds `ring_frames`.
    ///
    /// A stale pause from the time of the load, or one while PCM is still queued, is
    /// skipped.
    pub fn handle_pause(&self, device_id: &str, ring_frames: usize, now: Instant) -> (r: PauseCall)
        requires
            self.wf(),
        ensures
            r == if !self.sessions().dom().contains(device_id@) {
                PauseCall::NoSession
            } else {
                match pause_verdict(
                    now,
                    self.sessions()[device_id@].pause_eligible_at,
                    ring_frames,
                    PAUSE_RING_PCM_THRESHOLD,
                ) {
                    Ok(_) => PauseCall::Pause,
                    Err(reason) => PauseCall::Skip(reason),
                }
            },
            r == pause_call(
                if self.sessions().dom().contains(device_id@) {
                    Some(self.sessions()[device_id@].pause_eligible_at)
                } else {
                    None
                },
                ring_frames,
                now,
            ),
    {
        match self.sessions.get(device_id) {
            Some(session) => match should_pause_cast(
                now,
                session.pause_eligible_at,
                ring_frames,
                PAUSE_RING_PCM_THRESHOLD,
            ) {
                Ok(_) => PauseCall::Pause,
                Err(reason) => PauseCall::Skip(reason),
            },
            None => PauseCall::NoSession,
        }
    }

    /// AirPlay resumed: Cast plays exactly when the device has a session.
    pub fn handle_resume(&self, device_id: &str) -> (play: bool)
        requires
            self.wf(),
        ensures
            play == self.sessions().dom().contains(device_id@),
    {
        self.sessions.contains(device_id)
    }
}

/// No pause reaches Cast within the grace time of a session that just became active.
pub proof fn law_fresh_session_is_not_paused(
    activated_at: Instant,
    now: Instant,
    ring_frames: usize,
)
    requires
        activated_at <= clock::LATEST_INSTANT,
        now < activated_at + PAUSE_GRACE,
    ensures
        pause_verdict(
            now,
            (activated_at + PAUSE_GRACE) as u128,
            ring_frames,
            PAUSE_RING_PCM_THRESHOLD,
        ) is Err,
{
}

/// The media side of a session goes down before Cast is asked to stop, a session is
/// dead before anything else happens to it, and the re-load task is joined before the
/// load in flight.
pub proof fn law_teardown_order(i: int, j: int)
    requires
        0 <= i < teardown_order().len(),
        0 <= j < teardown_order().len(),
    ensures
        teardown_order()[i] == TeardownStep::MarkDead ==> i == 0,
        teardown_order()[i] is JoinReload && teardown_order()[j] is JoinLoad ==> i < j,
        teardown_order()[i] == TeardownStep::End(SessionEndStep::MediaShutdown)
            && teardown_order()[j] == TeardownStep::End(SessionEndStep::CastStopBestEffort) ==> i
            < j,
        teardown_order()[0] == TeardownStep::MarkDead,
{
}

// ── Events ──────────────────────────────────────────────────────────────────

/// What an AirPlay event asks of the bridge.
#[derive(Debug)]
pub enum BridgeCall<R, V> {
    /// Start a session.
    Start {
        /// Sample rate of the stream.
        sample_rate: u32,
        /// Ring of the stream.
        ring: R,
    },
    /// End the session.
    End,
    /// Pause Cast.
    Pause,
    /// Resume Cast.
    Resume,
    /// Set the volume.
    Volume(V),
}

/// What an AirPlay event asks of the bridge, and for which device. A flush is a pause:
/// the ring is already cleared, and the speaker must not play its stale buffer.
pub fn call_for<R, V>(event: AirPlaySessionEvent<R, V>) -> (r: (String, BridgeCall<R, V>))
    ensures
        r.0@ == event.device(),
        r.1 == match event {
            AirPlaySessionEvent::Started { device_id, sample_rate, ring } => BridgeCall::Start {
                sample_rate,
                ring,
            },
            AirPlaySessionEvent::Ended { device_id } => BridgeCall::End,
            AirPlaySessionEvent::Paused { device_id } => BridgeCall::Pause,
            AirPlaySessionEvent::Resumed { device_id } => BridgeCall::Resume,
            AirPlaySessionEvent::Flushed { device_id } => BridgeCall::Pause,
            AirPlaySessionEvent::Volume { device_id, volume } => BridgeCall::Volume(volume),
        },
        r.1 == call_of(event),
{
    match event {
        AirPlaySessionEvent::Started { device_id, sample_rate, ring } => (
            device_id,
            BridgeCall::Start { sample_rate, ring },
        ),
        AirPlaySessionEvent::Ended { device_id } => (device_id, BridgeCall::End),
        AirPlaySessionEvent::Paused { device_id } => (device_id, BridgeCall::Pause),
        AirPlaySessionEvent::Resumed { device_id } => (device_id, BridgeCall::Resume),
        AirPlaySessionEvent::Flushed { device_id } => (device_id, BridgeCall::Pause),
        AirPlaySessionEvent::Volume { device_id, volume } => (device_id, BridgeCall::Volume(volume)),
    }
}

/// How to bring an event to its device's worker.
#[derive(Debug, Clone, Copy, PartialEq, Eq, Structural)]
pub enum DeliverAction {
    /// Send it to the worker.
    Send,
    /// Start a worker, in place of a dead one if there is one, and send it there.
    SpawnAndSend,
    /// The worker has it.
    Delivered,
    /// No worker takes it.
    GiveUp,
}

/// The delivery of one event.
#[derive(Debug, Clone, Copy, PartialEq, Eq, Structural)]
pub struct Delivery {
    /// A dead worker was already replaced for it.
    pub retried: bool,
}

impl Delivery {
    /// Begin with a device whose worker is known or not.
    pub fn new(worker_known: bool) -> (r: (Delivery, DeliverAction))
        ensures
            r.0 == (Delivery { retried: false }),
            r.1 == if worker_known {
                DeliverAction::Send
            } else {
                DeliverAction::SpawnAndSend
            },
    {
        (
            Delivery { retried: false },
            if worker_known {
                DeliverAction::Send
            } else {
                DeliverAction::SpawnAndSend
            },
        )
    }

    /// The worker took the event or is dead. A dead worker is replaced once.
    pub fn answer(&mut self, accepted: bool) -> (r: DeliverAction)
        ensures
            final(self).retried == (old(self).retried || !accepted),
            r == if accepted {
                DeliverAction::Delivered
            } else if old(self).retried {
                DeliverAction::GiveUp
            } else {
                DeliverAction::SpawnAndSend
            },
            (*final(self), r) == old(self).answered(accepted),
    {
        if accepted {
            return DeliverAction::Delivered;
        }
        if self.retried {
            return DeliverAction::GiveUp;
        }
        self.retried = true;
        DeliverAction::SpawnAndSend
    }
}

/// How much longer to wait for the workers; `None` to abort those that remain.
pub fn join_budget(deadline: Instant, now: Instant) -> (r: Option<Duration>)
    ensures
        r == if now >= deadline {
            None
        } else {
            Some((deadline - now) as u128)
        },
        r == left_until(deadline, now),
{
    if now >= deadline {
        None
    } else {
        Some(deadline - now)
    }
}

// ── Snapshots and content ───────────────────────────────────────────────────

/// Channels and sample rate of a session, each at least one.
pub open spec fn format_of(channels: u16, sample_rate: u32) -> (u16, u32) {
    (
        if channels == 0 {
            1
        } else {
            channels
        },
        if sample_rate == 0 {
            1
        } else {
            sample_rate
        },
    )
}

/// Channels and sample rate of a session, each at least one.
pub fn session_format(channels: u16, sample_rate: u32) -> (r: (u16, u32))
    ensures
        r == format_of(channels, sample_rate),
{
    let ch: u16 = if channels == 0 {
        1
    } else {
        channels
    };
    let rate: u32 = if sample_rate == 0 {
        1
    } else {
        sample_rate
    };
    (ch, rate)
}

/// What came of the snapshot at session start.
#[derive(Debug)]
pub enum SnapshotReport {
    /// The ring was empty.
    Skipped,
    /// So many bytes for so many frames.
    Encoded {
        /// Length of the encoded stream.
        bytes: usize,
        /// Frames in it.
        frames: usize,
    },
    /// The encoder failed.
    Failed(Error),
}

/// `report` is what came of encoding the `frames` frames in `copied`.
pub open spec fn is_report_of(
    report: SnapshotReport,
    copied: Seq<i16>,
    frames: nat,
    channels: u16,
    sample_rate: u32,
) -> bool {
    match report {
        SnapshotReport::Skipped => frames == 0,
        SnapshotReport::Encoded { bytes, frames: n } => {
            &&& frames > 0 && n == frames
            &&& exists|stream: Seq<u8>|
                #[trigger] flac::is_stream_of(stream, copied, channels, sample_rate)
                    && stream.len() == bytes
        },
        SnapshotReport::Failed(e) => frames > 0 && flac::is_refusal_of(
            e,
            copied,
            channels,
            sample_rate,
        ),
    }
}

/// Non-destructive FLAC snapshot encode to keep the lossless quality path warm.
pub fn verify_flac_snapshot(ring: &PcmRing, channels: u16, sample_rate: u32) -> (r: SnapshotReport)
    requires
        ring.wf(),
    ensures
        ({
            let frames = pcm::frames_taken(
                ring@.samples.len(),
                ring.channel_count(),
                SNAPSHOT_FRAMES as nat,
            );
            is_report_of(
                r,
                ring@.samples.take((frames * ring.channel_count()) as int),
                frames,
                channels,
                sample_rate,
            )
        }),
{
    let mut snap: Vec<i16> = Vec::new();
    let frames: usize = ring.copy_i16(SNAPSHOT_FRAMES, &mut snap);
    if frames == 0 {
        return SnapshotReport::Skipped;
    }
    let report = match encode_pcm_i16_to_flac(snap.as_slice(), channels, sample_rate) {
        Ok(stream) => {
            assert(flac::is_stream_of(stream@, snap@, channels, sample_rate));
            SnapshotReport::Encoded { bytes: stream.len(), frames }
        },
        Err(e) => SnapshotReport::Failed(e),
    };
    assert(is_report_of(report, snap@, frames as nat, channels, sample_rate));
    report
}

/// Pop up to `max_frames` from `ring` and encode a finite FLAC body.
pub fn encode_session_snapshot_flac(
    ring: &mut PcmRing,
    channels: u16,
    sample_rate: u32,
    max_frames: usize,
) -> (r: Result<Vec<u8>, Error>)
    requires
        old(ring).wf(),
    ensures
        final(ring).wf(),
        final(ring).same_shape(old(ring)),
        ({
            let frames = pcm::frames_taken(
                old(ring)@.samples.len(),
                old(ring).channel_count(),
                max_frames as nat,
            );
            let taken = old(ring)@.samples.take((frames * old(ring).channel_count()) as int);
            let (ch, rate) = format_of(channels, sample_rate);
            &&& final(ring)@.samples == old(ring)@.samples.skip((frames * old(ring).channel_count()) as int)
            &&& frames == 0 ==> (r matches Err(Error::Bridge(m)) && m@
                == "no PCM for FLAC snapshot"@)
            &&& frames > 0 ==> match r {
                Ok(bytes) => flac::is_stream_of(bytes@, taken, ch, rate),
                Err(e) => flac::is_refusal_of(e, taken, ch, rate),
            }
        }),
        final(ring).dropped() == old(ring).dropped(),
        final(ring).underruns() == pcm::polled(old(ring).underruns(), old(ring).frames()),
{
    let mut samples: Vec<i16> = Vec::new();
    let frames: usize = ring.pop_i16(max_frames, &mut samples);
    if frames == 0 {
        return Err(Error::Bridge(string_of(chars_of("no PCM for FLAC snapshot").as_slice())));
    }
    let (ch, rate) = session_format(channels, sample_rate);
    encode_pcm_i16_to_flac(samples.as_slice(), ch, rate)
}

/// What a session serves: its ring as a live WAV in the format of the session.
pub fn session_content<R>(ring: R, channels: u16, sample_rate: u32) -> (r: MediaContent<R>)
    ensures
        r == (MediaContent::LiveWav {
            ring,
            channels: format_of(channels, sample_rate).0,
            sample_rate: format_of(channels, sample_rate).1,
        }),
{
    let (ch, rate) = session_format(channels, sample_rate);
    MediaContent::LiveWav { ring, channels: ch, sample_rate: rate }
}

/// A static FLAC body from raw FLAC bytes.
pub fn static_flac_content<R>(flac: Vec<u8>) -> (r: MediaContent<R>)
    ensures
        r matches MediaContent::Static { content_type, body } && content_type@ == CONTENT_TYPE_FLAC@
            && body == flac,
{
    MediaContent::Static {
        content_type: string_of(chars_of(CONTENT_TYPE_FLAC).as_slice()),
        body: flac,
    }
}

// ── Laws ────────────────────────────────────────────────────────────────────

/// A pause counts exactly when the ring holds no more than the threshold and the session
/// is past its grace time. A ring that holds more is named as the reason, whatever the
/// time; only then the grace time.
pub proof fn law_pause_needs_a_quiet_ring_and_time(
    now: Instant,
    eligible: Instant,
    frames: usize,
    threshold: usize,
)
    ensures
        pause_verdict(now, eligible, frames, threshold) is Ok <==> frames <= threshold && eligible
            <= now,
        pause_verdict(now, eligible, frames, threshold) == Err::<(), PauseSkipReason>(
            PauseSkipReason::RingHasPcm,
        ) <==> threshold < frames,
        pause_verdict(now, eligible, frames, threshold) == Err::<(), PauseSkipReason>(
            PauseSkipReason::WithinGrace,
        ) <==> frames <= threshold && now < eligible,
{
}

/// A session that became active two seconds ago is paused once its ring holds at most
/// 256 frames, and not a moment earlier.
pub proof fn law_session_is_paused_after_two_seconds(
    activated_at: Instant,
    now: Instant,
    frames: usize,
)
    requires
        activated_at <= clock::LATEST_INSTANT,
    ensures
        pause_verdict(
            now,
            (activated_at + PAUSE_GRACE) as u128,
            frames,
            PAUSE_RING_PCM_THRESHOLD,
        ) is Ok <==> frames <= 256 && activated_at + 2_000_000_000 <= now,
{
}

/// A session's load names the stream and the title as they are given, as buffered WAV.
pub proof fn law_session_loads_its_own_stream(
    request: MediaLoadRequest,
    url: Seq<char>,
    title: Seq<char>,
)
    requires
        is_wav_load(request, url, title),
    ensures
        request.content_url@ == url,
        request.content_type@ == "audio/wav"@,
        request.stream_kind == CastStreamKind::Buffered,
        request.title is Some && request.title->0@ == title,
{
}

/// Every part of a session is torn down, each once: the re-load task is given two
/// seconds and the load in flight thirty.
pub proof fn law_teardown_leaves_nothing()
    ensures
        teardown_order().len() == 6,
        teardown_order().contains(TeardownStep::MarkDead),
        teardown_order().contains(TeardownStep::CancelReload),
        teardown_order().contains(TeardownStep::JoinReload(2_000_000_000)),
        teardown_order().contains(TeardownStep::JoinLoad(30_000_000_000)),
        teardown_order().contains(TeardownStep::End(SessionEndStep::MediaShutdown)),
        teardown_order().contains(TeardownStep::End(SessionEndStep::CastStopBestEffort)),
        forall|i: int, j: int|
            0 <= i < 6 && 0 <= j < 6 && #[trigger] teardown_order()[i] is CancelReload
                && #[trigger] teardown_order()[j] is JoinReload ==> i < j,
        forall|i: int, j: int|
            0 <= i < 6 && 0 <= j < 6 && #[trigger] teardown_order()[i] is JoinLoad
                && #[trigger] teardown_order()[j] is End ==> i < j,
{
    let order = teardown_order();
    assert(order[0] == TeardownStep::MarkDead);
    assert(order[1] == TeardownStep::CancelReload);
    assert(order[2] == TeardownStep::JoinReload(2_000_000_000));
    assert(order[3] == TeardownStep::JoinLoad(30_000_000_000));
    assert(order[4] == TeardownStep::End(SessionEndStep::MediaShutdown));
    assert(order[5] == TeardownStep::End(SessionEndStep::CastStopBestEffort));
}

/// A session keeps the channels and the rate of its stream; only none becomes one.
pub proof fn law_session_keeps_its_format(channels: u16, sample_rate: u32)
    ensures
        channels > 0 ==> format_of(channels, sample_rate).0 == channels,
        channels == 0 ==> format_of(channels, sample_rate).0 == 1,
        sample_rate > 0 ==> format_of(channels, sample_rate).1 == sample_rate,
        sample_rate == 0 ==> format_of(channels, sample_rate).1 == 1,
{
}

/// A snapshot is skipped exactly when no frame was copied, and one that was encoded
/// tells how many frames and bytes it has.
pub proof fn law_snapshot_report_tells_its_size(
    report: SnapshotReport,
    copied: Seq<i16>,
    frames: nat,
    channels: u16,
    sample_rate: u32,
)
    requires
        is_report_of(report, copied, frames, channels, sample_rate),
    ensures
        report is Skipped <==> frames == 0,
        report matches SnapshotReport::Encoded { bytes, frames: n } ==> n == frames && exists|
            stream: Seq<u8>,
        | #[trigger]
            flac::is_stream_of(stream, copied, channels, sample_rate) && stream.len() == bytes,
        report matches SnapshotReport::Failed(e) ==> flac::is_refusal_of(
            e,
            copied,
            channels,
            sample_rate,
        ),
{
}

/// The volume to set after a load, if any.
pub open spec fn volume_to_set<V>(policy: LoadVolumePolicy<V>) -> Option<V> {
    match policy {
        LoadVolumePolicy::PreserveDevice => None,
        LoadVolumePolicy::Rollover { last_volume } => last_volume,
    }
}

/// A first load leaves the device's volume alone; a later one sets the volume that was
/// last asked for, if one was.
pub proof fn law_first_load_leaves_the_volume<V>(last_volume: Option<V>)
    ensures
        volume_to_set(LoadVolumePolicy::<V>::PreserveDevice) is None,
        volume_to_set(LoadVolumePolicy::Rollover { last_volume }) == last_volume,
{
}

/// What a pause asks of a device whose session may be paused from a time on, or that has
/// none.
pub open spec fn pause_call(
    eligible: Option<Instant>,
    ring_frames: usize,
    now: Instant,
) -> PauseCall {
    match eligible {
        None => PauseCall::NoSession,
        Some(at) => match pause_verdict(now, at, ring_frames, PAUSE_RING_PCM_THRESHOLD) {
            Ok(_) => PauseCall::Pause,
            Err(reason) => PauseCall::Skip(reason),
        },
    }
}

/// A pause reaches Cast exactly when the device has a session past its grace time whose
/// ring holds at most 256 frames; else it is skipped, with the reason.
pub proof fn law_pause_reaches_a_quiet_session(
    eligible: Option<Instant>,
    frames: usize,
    now: Instant,
)
    ensures
        pause_call(eligible, frames, now) is NoSession <==> eligible is None,
        pause_call(eligible, frames, now) is Pause <==> eligible is Some && eligible->0 <= now
            && frames <= 256,
        pause_call(eligible, frames, now) == PauseCall::Skip(PauseSkipReason::RingHasPcm)
            <==> eligible is Some && frames > 256,
        pause_call(eligible, frames, now) == PauseCall::Skip(PauseSkipReason::WithinGrace)
            <==> eligible is Some && frames <= 256 && now < eligible->0,
{
}

/// What an AirPlay event asks of the bridge.
pub open spec fn call_of<R, V>(event: AirPlaySessionEvent<R, V>) -> BridgeCall<R, V> {
    match event {
        AirPlaySessionEvent::Started { device_id, sample_rate, ring } => BridgeCall::Start {
            sample_rate,
            ring,
        },
        AirPlaySessionEvent::Ended { device_id } => BridgeCall::End,
        AirPlaySessionEvent::Paused { device_id } => BridgeCall::Pause,
        AirPlaySessionEvent::Resumed { device_id } => BridgeCall::Resume,
        AirPlaySessionEvent::Flushed { device_id } => BridgeCall::Pause,
        AirPlaySessionEvent::Volume { device_id, volume } => BridgeCall::Volume(volume),
    }
}

/// Each event asks for its own: a start brings its rate and its ring, a volume its level,
/// and a flush pauses as a pause does. Every event is about the device that it names.
pub proof fn law_each_event_asks_for_its_own<R, V>(
    id: String,
    sample_rate: u32,
    ring: R,
    volume: V,
)
    ensures
        call_of(
            AirPlaySessionEvent::<R, V>::Started { device_id: id, sample_rate, ring },
        ) == (BridgeCall::<R, V>::Start { sample_rate, ring }),
        call_of(AirPlaySessionEvent::<R, V>::Ended { device_id: id }) is End,
        call_of(AirPlaySessionEvent::<R, V>::Paused { device_id: id }) is Pause,
        call_of(AirPlaySessionEvent::<R, V>::Resumed { device_id: id }) is Resume,
        call_of(AirPlaySessionEvent::<R, V>::Flushed { device_id: id }) is Pause,
        call_of(AirPlaySessionEvent::<R, V>::Volume { device_id: id, volume }) == BridgeCall::<
            R,
            V,
        >::Volume(volume),
        (AirPlaySessionEvent::<R, V>::Started { device_id: id, sample_rate, ring }).device() == id@,
        (AirPlaySessionEvent::<R, V>::Ended { device_id: id }).device() == id@,
        (AirPlaySessionEvent::<R, V>::Paused { device_id: id }).device() == id@,
        (AirPlaySessionEvent::<R, V>::Resumed { device_id: id }).device() == id@,
        (AirPlaySessionEvent::<R, V>::Flushed { device_id: id }).device() == id@,
        (AirPlaySessionEvent::<R, V>::Volume { device_id: id, volume }).device() == id@,
{
}

impl Delivery {
    /// The delivery after a worker took its event or not, and what comes next.
    pub open spec fn answered(self, accepted: bool) -> (Delivery, DeliverAction) {
        if accepted {
            (self, DeliverAction::Delivered)
        } else if self.retried {
            (self, DeliverAction::GiveUp)
        } else {
            (Delivery { retried: true }, DeliverAction::SpawnAndSend)
        }
    }
}

/// An event that was taken is delivered. One that was not is sent to a new worker once,
/// and given up the second time.
pub proof fn law_dead_worker_is_replaced_once(d: Delivery, first: Delivery, action: DeliverAction)
    requires
        (first, action) == d.answered(false),
    ensures
        d.answered(true).1 == DeliverAction::Delivered,
        !d.retried ==> action == DeliverAction::SpawnAndSend && first.answered(false).1
            == DeliverAction::GiveUp,
        d.retried ==> action == DeliverAction::GiveUp,
{
}

/// How long it is until a deadline, `None` once it has come.
pub open spec fn left_until(deadline: Instant, now: Instant) -> Option<Duration> {
    if now >= deadline {
        None
    } else {
        Some((deadline - now) as u128)
    }
}

/// Waiting as long as is left ends at the deadline, and from then on nothing is left.
pub proof fn law_waiting_ends_at_the_deadline(deadline: Instant, now: Instant)
    ensures
        left_until(deadline, now) is None <==> deadline <= now,
        left_until(deadline, now) matches Some(wait) ==> wait > 0 && now + wait == deadline,
{
}

} // verus!
