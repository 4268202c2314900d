//! The warm Cast worker as a state machine.
//!
//! One worker keeps the control connection of one device. It takes commands, keeps
//! the connection alive while idle and watches whether the media session it loaded
//! is still its own. The driver performs one action at a time (wait for a command,
//! connect, ask the receiver) and reports what came of it as an event; every
//! decision is taken here.

use vstd::prelude::*;
use crate::cast::pool;
use crate::cast::pool::{
    jitter_seed, ownership_action, reconnect_backoff_delay, MediaProbe, OwnershipAction,
    OwnershipInputs, HEARTBEAT_INTERVAL, OWNERSHIP_GRACE, OWNERSHIP_LOSS_CONFIRMATIONS,
    RECENT_LOAD_GUARD,
};
use crate::cast::{MediaLoadRequest, MediaSessionRef, Status};
use crate::clock;
use crate::clock::{saturating_duration_since, Duration, Instant, LATEST_INSTANT};
use crate::error::{joined, Error};
use crate::text::str_eq;

verus! {

/// Shortest wait of an idle worker that has something due.
pub const MIN_LOOP_WAIT: Duration = 50_000_000;

/// What a worker is asked to do. `V` is a volume level.
#[derive(Debug)]
pub enum Command<V> {
    /// Use another host, hostname or port.
    UpdateEndpoint {
        /// Preferred address.
        host: String,
        /// mDNS hostname.
        hostname: String,
        /// Cast port.
        port: u16,
    },
    /// Launch the media receiver if needed and LOAD media.
    Load(MediaLoadRequest),
    /// Set the receiver volume.
    SetVolume(V),
    /// Read the receiver volume.
    GetVolume,
    /// Stop the active media session, if any; keep the connection.
    Stop,
    /// Pause the active media session.
    Pause,
    /// Resume a paused media session.
    Play,
    /// Like `Stop`, answered without a result.
    StopBestEffort,
    /// End the worker.
    Shutdown,
}

/// The step of an outside operation that failed.
#[derive(Debug, Clone, Copy, PartialEq, Eq, Structural)]
pub enum Stage {
    /// Reaching the device.
    Connect,
    /// Opening the connection channel.
    ConnectionChannel,
    /// First heartbeat of a connection.
    ConnectHeartbeat,
    /// Heartbeat before a LOAD.
    LoadHeartbeat,
    /// Launching the media receiver.
    LaunchApp,
    /// Connecting to the media receiver.
    AppConnection,
    /// The LOAD itself.
    MediaLoad,
    /// Setting the volume.
    SetVolume,
    /// Reading the volume.
    GetVolume,
    /// Connecting for STOP.
    StopConnect,
    /// STOP.
    Stop,
    /// Connecting for PAUSE.
    PauseConnect,
    /// PAUSE.
    Pause,
    /// Connecting for PLAY.
    PlayConnect,
    /// PLAY.
    Play,
}

impl Stage {
    /// What stands before the outside error's own words.
    pub open spec fn prefix(self) -> Seq<char> {
        match self {
            Stage::Connect => ""@,
            Stage::ConnectionChannel => "warm connection channel: "@,
            Stage::ConnectHeartbeat => "warm heartbeat: "@,
            Stage::LoadHeartbeat => "warm load heartbeat: "@,
            Stage::LaunchApp => "warm launch app: "@,
            Stage::AppConnection => "warm app connection: "@,
            Stage::MediaLoad => "warm media load: "@,
            Stage::SetVolume => "warm set volume: "@,
            Stage::GetVolume => "warm get volume: "@,
            Stage::StopConnect => "warm stop connect "@,
            Stage::Stop => "warm stop: "@,
            Stage::PauseConnect => "warm pause connect "@,
            Stage::Pause => "warm pause: "@,
            Stage::PlayConnect => "warm play connect "@,
            Stage::Play => "warm play: "@,
        }
    }

    fn prefix_str(self) -> (r: &'static str)
        ensures
            r@ == self.prefix(),
    {
        match self {
            Stage::Connect => "",
            Stage::ConnectionChannel => "warm connection channel: ",
            Stage::ConnectHeartbeat => "warm heartbeat: ",
            Stage::LoadHeartbeat => "warm load heartbeat: ",
            Stage::LaunchApp => "warm launch app: ",
            Stage::AppConnection => "warm app connection: ",
            Stage::MediaLoad => "warm media load: ",
            Stage::SetVolume => "warm set volume: ",
            Stage::GetVolume => "warm get volume: ",
            Stage::StopConnect => "warm stop connect ",
            Stage::Stop => "warm stop: ",
            Stage::PauseConnect => "warm pause connect ",
            Stage::Pause => "warm pause: ",
            Stage::PlayConnect => "warm play connect ",
            Stage::Play => "warm play: ",
        }
    }
}

/// Why a command failed.
#[derive(Debug)]
pub enum WorkerError {
    /// There is no connection to the device.
    NotConnected,
    /// There is no media session to act on.
    NoActiveSession,
    /// A LOAD answer named no media session.
    NoMediaEntries,
    /// An outside operation failed.
    Outside {
        /// The step that failed.
        stage: Stage,
        /// The outside error in words.
        text: String,
    },
}

impl WorkerError {
    /// The error in words.
    pub open spec fn text(&self) -> Seq<char> {
        match self {
            WorkerError::NotConnected => "warm Cast device not connected"@,
            WorkerError::NoActiveSession => "no active session"@,
            WorkerError::NoMediaEntries => "LOAD status had no media session entries"@,
            WorkerError::Outside { stage, text } => stage.prefix() + text@,
        }
    }

    /// The error as callers of the pool see it.
    pub fn to_error(&self) -> (r: Error)
        ensures
            r matches Error::Cast(m) && m@ == self.text(),
    {
        match self {
            WorkerError::NotConnected => Error::Cast("warm Cast device not connected".to_owned()),
            WorkerError::NoActiveSession => Error::Cast("no active session".to_owned()),
            WorkerError::NoMediaEntries => Error::Cast(
                "LOAD status had no media session entries".to_owned(),
            ),
            WorkerError::Outside { stage, text } => Error::Cast(
                joined(stage.prefix_str(), text.as_str()),
            ),
        }
    }

    /// The error as each of several callers that set the volume together sees it.
    pub fn to_shared_error(&self) -> (r: Error)
        ensures
            r matches Error::Cast(m) && m@ == "cast error: "@ + self.text(),
    {
        let e = self.to_error();
        Error::Cast(e.message())
    }
}

/// What the driver does next.
#[derive(Debug)]
pub enum Action<V> {
    /// Wait for a command, at most this long.
    Receive {
        /// Longest wait.
        wait: Duration,
    },
    /// Take a command that is already queued, without waiting.
    TryReceive,
    /// Nothing outside: report [`Event::Proceed`].
    Proceed,
    /// Re-resolve the host, reach the device, open the channel and ping.
    Connect,
    /// Launch the media receiver and LOAD.
    Load(MediaLoadRequest),
    /// Set the volume.
    SetVolume(V),
    /// Read the volume.
    GetVolume,
    /// Connect to the receiver and the session's transport, then STOP.
    Stop(MediaSessionRef),
    /// Connect to the receiver and the session's transport, then PAUSE.
    Pause(MediaSessionRef),
    /// Connect to the receiver and the session's transport, then PLAY.
    Play(MediaSessionRef),
    /// Drain unsolicited messages.
    Drain,
    /// Send a heartbeat.
    Ping,
    /// Ask for the receiver's applications and the status of the session.
    Probe(MediaSessionRef),
    /// End the worker.
    Exit,
}

/// What came of an action.
#[derive(Debug)]
pub enum Event<V> {
    /// A command arrived.
    Command(Command<V>),
    /// The wait for a command ran out.
    Timeout,
    /// Nobody can send commands any more.
    ChannelClosed,
    /// Answer to [`Action::Proceed`].
    Proceed,
    /// A command was queued.
    Queued(Command<V>),
    /// No command was queued.
    QueueEmpty,
    /// The connection is up.
    Connected,
    /// The connection failed.
    ConnectFailed {
        /// The step that failed.
        stage: Stage,
        /// The outside error in words.
        text: String,
    },
    /// LOAD was answered.
    Loaded {
        /// Transport id of the media receiver.
        transport_id: String,
        /// The answer.
        status: Status,
    },
    /// LOAD failed.
    LoadFailed {
        /// The step that failed.
        stage: Stage,
        /// The outside error in words.
        text: String,
    },
    /// The volume was set.
    VolumeSet,
    /// Setting the volume failed.
    VolumeSetFailed(String),
    /// The volume was read.
    Volume(V),
    /// Reading the volume failed.
    VolumeFailed(String),
    /// STOP, PAUSE or PLAY succeeded.
    TransportDone,
    /// Connecting for STOP, PAUSE or PLAY failed.
    TransportConnectFailed(String),
    /// STOP, PAUSE or PLAY failed.
    TransportFailed(String),
    /// Draining is done.
    Drained,
    /// The heartbeat went out.
    Pinged,
    /// The heartbeat failed.
    PingFailed,
    /// The session was probed.
    Probed {
        /// Our transport is listed among the receiver's applications.
        listed: bool,
        /// What the media status told.
        media: MediaProbe,
    },
}

/// What the worker tells the application.
#[derive(Debug, Clone, Copy, PartialEq, Eq, Structural)]
pub enum Notice {
    /// Another application took the receiver.
    OwnershipLost,
    /// A session that had stopped was reloaded.
    MediaRecovered,
}

/// Answer to a command.
#[derive(Debug)]
pub enum Reply<V> {
    /// Answer to `Load`.
    Loaded(Result<MediaSessionRef, WorkerError>),
    /// Answer to every `SetVolume` that was taken together.
    VolumeSet(Result<(), WorkerError>),
    /// Answer to `GetVolume`.
    Volume(Result<V, WorkerError>),
    /// Answer to `Stop`, `Pause` or `Play`.
    Done(Result<(), WorkerError>),
    /// Answer to `StopBestEffort`.
    BestEffort,
}

/// What a transition asks of the driver, in this order: close the connection, tell
/// the application, answer the command, perform the action.
#[derive(Debug)]
pub struct Step<V> {
    /// Close the connection to the device.
    pub drop_link: bool,
    /// Tell the application.
    pub notice: Option<Notice>,
    /// Answer the command.
    pub reply: Option<Reply<V>>,
    /// Perform this.
    pub action: Action<V>,
}

/// A media transport command.
#[derive(Debug, Clone, Copy, PartialEq, Eq, Structural)]
pub enum TransportKind {
    /// STOP, answered with a result.
    Stop,
    /// STOP, answered without one.
    StopBestEffort,
    /// PAUSE.
    Pause,
    /// PLAY.
    Play,
}

/// What follows a connection attempt.
#[derive(Debug)]
pub enum Then<V> {
    /// Back to the loop.
    Loop,
    /// The rest of an idle tick whose heartbeat failed.
    AfterPing,
    /// A second LOAD.
    LoadRetry {
        /// What to load.
        request: MediaLoadRequest,
        /// Why the first LOAD failed.
        err: WorkerError,
        /// The worker itself asked for it.
        internal: bool,
    },
    /// Setting the volume.
    SetVolume {
        /// The level.
        level: V,
        /// It failed once.
        retried: bool,
    },
    /// Reading the volume.
    GetVolume {
        /// It failed once.
        retried: bool,
    },
}

/// What a worker is waiting for.
#[derive(Debug)]
pub enum Phase<V> {
    /// A command.
    Idle,
    /// Queued volume commands to merge.
    Coalescing {
        /// The newest level.
        level: V,
    },
    /// A connection.
    Connecting(Then<V>),
    /// A LOAD.
    Loading {
        /// What is loaded.
        request: MediaLoadRequest,
        /// This is the second try.
        retried: bool,
        /// The worker itself asked for it.
        internal: bool,
    },
    /// A volume change.
    SettingVolume {
        /// The level.
        level: V,
        /// This is the second try.
        retried: bool,
    },
    /// A volume reading.
    GettingVolume {
        /// This is the second try.
        retried: bool,
    },
    /// STOP, PAUSE or PLAY.
    Transport(TransportKind),
    /// The end of draining.
    Draining,
    /// A heartbeat.
    Pinging,
    /// A probe of the session.
    Probing,
    /// Nothing: the worker has ended.
    Ended,
}

// ── Control-plane state ─────────────────────────────────────────────────────

/// State of the control plane of one device.
#[derive(Debug)]
pub struct Core {
    /// Registry id of the device.
    pub device_id: String,
    /// Address that the device is reached at.
    pub host: String,
    /// mDNS hostname for re-resolution.
    pub hostname: String,
    /// Cast port.
    pub port: u16,
    /// The connection is up.
    pub connected: bool,
    /// Media session after a successful LOAD.
    pub active: Option<MediaSessionRef>,
    /// When `active` was last set by a successful LOAD.
    pub active_since: Option<Instant>,
    /// Consecutive probes that looked stolen.
    pub ownership_loss_streak: u8,
    /// Consecutive BUFFERING probes.
    pub buffering_streak: u8,
    /// Last LOAD request, for recovery.
    pub last_load: Option<MediaLoadRequest>,
    /// When the last LOAD was applied.
    pub last_load_at: Option<Instant>,
    /// One internal re-LOAD was attempted in the current trouble episode.
    pub reload_attempted: bool,
    /// When the next heartbeat is due.
    pub next_ping_at: Instant,
    /// Failed connection attempts in a row.
    pub reconnect_attempt: u32,
    /// When the device became unreachable.
    pub unreachable_since: Option<Instant>,
    /// The last attempt reached the device.
    pub reachable: bool,
    /// Earliest time of the next connection attempt.
    pub next_reconnect_at: Instant,
    /// The source address was logged for this host.
    pub logged_source_ip: bool,
}

impl Core {
    /// No media session.
    pub open spec fn cleared(self) -> Core {
        Core {
            active: None,
            active_since: None,
            ownership_loss_streak: 0,
            buffering_streak: 0,
            reload_attempted: false,
            ..self
        }
    }

    /// A fresh media session.
    pub open spec fn with_session(self, session: MediaSessionRef, now: Instant) -> Core {
        Core {
            active: Some(session),
            active_since: Some(now),
            ownership_loss_streak: 0,
            buffering_streak: 0,
            reload_attempted: false,
            ..self
        }
    }

    /// The connection is down.
    pub open spec fn unlinked(self) -> Core {
        Core { connected: false, ..self }
    }

    /// The connection came up at `now`.
    pub open spec fn reached(self, now: Instant) -> Core {
        Core {
            connected: true,
            next_ping_at: (now + HEARTBEAT_INTERVAL) as u128,
            reachable: true,
            reconnect_attempt: 0,
            unreachable_since: None,
            next_reconnect_at: now,
            logged_source_ip: true,
            ..self
        }
    }

    /// The jitter seed of the device.
    pub open spec fn seed(self) -> u64 {
        pool::id_seed(vstd::utf8::encode_utf8(self.device_id@)) as u64
    }

    /// A connection attempt failed at `now`: the next one waits for the backoff.
    pub open spec fn missed(self, now: Instant) -> Core {
        Core {
            unreachable_since: if self.reachable || self.unreachable_since is None {
                Some(now)
            } else {
                self.unreachable_since
            },
            reachable: false,
            reconnect_attempt: if self.reconnect_attempt < u32::MAX {
                (self.reconnect_attempt + 1) as u32
            } else {
                u32::MAX
            },
            next_reconnect_at: (now + pool::backoff_millis(
                if self.reconnect_attempt < u32::MAX {
                    self.reconnect_attempt
                } else {
                    (u32::MAX - 1) as u32
                },
                self.seed(),
            ) * clock::NANOS_PER_MILLI) as u128,
            ..self
        }
    }

    /// One more probe looked stolen; the second in a row gives the session up.
    pub open spec fn suspected(self) -> Core {
        let bumped = Core {
            ownership_loss_streak: if self.ownership_loss_streak < u8::MAX {
                (self.ownership_loss_streak + 1) as u8
            } else {
                u8::MAX
            },
            ..self
        };
        if bumped.ownership_loss_streak >= OWNERSHIP_LOSS_CONFIRMATIONS {
            bumped.cleared()
        } else {
            bumped
        }
    }

    /// What [`Core::suspected`] tells the application.
    pub open spec fn suspicion(self) -> Option<Notice> {
        if self.ownership_loss_streak + 1 >= OWNERSHIP_LOSS_CONFIRMATIONS {
            Some(Notice::OwnershipLost)
        } else {
            None
        }
    }

    /// The ownership of the session is to be probed now.
    pub open spec fn probe_due(self, now: Instant) -> bool {
        &&& self.active is Some
        &&& self.connected
        &&& self.active_since matches Some(since) && clock::elapsed(since, now) >= OWNERSHIP_GRACE
    }

    /// State after an ownership check that does not probe.
    pub open spec fn unprobed(self) -> Core {
        if self.active is None {
            Core { ownership_loss_streak: 0, buffering_streak: 0, ..self }
        } else {
            self
        }
    }

    /// How long the worker waits for a command.
    pub open spec fn loop_wait(self, now: Instant) -> Duration {
        let due = if self.connected {
            clock::elapsed(now, self.next_ping_at)
        } else {
            clock::elapsed(now, self.next_reconnect_at)
        };
        if due == 0 {
            MIN_LOOP_WAIT
        } else if due < HEARTBEAT_INTERVAL {
            due
        } else {
            HEARTBEAT_INTERVAL
        }
    }

    /// The ownership inputs of a probe.
    pub open spec fn inputs(self, listed: bool, media: MediaProbe, now: Instant) -> OwnershipInputs {
        OwnershipInputs {
            transport_listed: listed,
            media_session_present: media.session_present,
            idle_reason: media.idle_reason,
            buffering: media.buffering,
            buffering_streak: self.buffering_streak,
            media_failure: media.failure,
            reload_attempted: self.reload_attempted,
            load_within_guard: self.last_load_at matches Some(t) && clock::elapsed(t, now)
                < RECENT_LOAD_GUARD,
        }
    }

    /// The buffering streak after a probe.
    pub open spec fn buffered(self, buffering: bool) -> Core {
        Core {
            buffering_streak: if !buffering {
                0
            } else if self.buffering_streak < u8::MAX {
                (self.buffering_streak + 1) as u8
            } else {
                u8::MAX
            },
            ..self
        }
    }

    /// A worker for this endpoint that has done nothing by `now`.
    pub open spec fn is_new(
        self,
        device_id: String,
        host: String,
        hostname: String,
        port: u16,
        now: Instant,
    ) -> bool {
        self == (Core {
            device_id,
            host,
            hostname,
            port,
            connected: false,
            active: None,
            active_since: None,
            ownership_loss_streak: 0,
            buffering_streak: 0,
            last_load: None,
            last_load_at: None,
            reload_attempted: false,
            next_ping_at: now,
            reconnect_attempt: 0,
            unreachable_since: None,
            reachable: false,
            next_reconnect_at: now,
            logged_source_ip: false,
        })
    }

    /// State of a worker that has done nothing yet.
    pub fn new(device_id: String, host: String, hostname: String, port: u16, now: Instant) -> (c: Core)
        ensures
            c.is_new(device_id, host, hostname, port, now),
    {
        Core {
            device_id,
            host,
            hostname,
            port,
            connected: false,
            active: None,
            active_since: None,
            ownership_loss_streak: 0,
            buffering_streak: 0,
            last_load: None,
            last_load_at: None,
            reload_attempted: false,
            next_ping_at: now,
            reconnect_attempt: 0,
            unreachable_since: None,
            reachable: false,
            next_reconnect_at: now,
            logged_source_ip: false,
        }
    }

    fn clear_active_session(&mut self)
        ensures
            *final(self) == old(self).cleared(),
    {
        self.active = None;
        self.active_since = None;
        self.ownership_loss_streak = 0;
        self.buffering_streak = 0;
        self.reload_attempted = false;
    }

    fn set_active_session(&mut self, session: MediaSessionRef, now: Instant)
        ensures
            *final(self) == old(self).with_session(session, now),
    {
        self.active = Some(session);
        self.active_since = Some(now);
        self.ownership_loss_streak = 0;
        self.buffering_streak = 0;
        self.reload_attempted = false;
    }

    fn note_reachable(&mut self, now: Instant)
        requires
            now + HEARTBEAT_INTERVAL <= LATEST_INSTANT,
        ensures
            *final(self) == old(self).reached(now),
    {
        self.connected = true;
        self.next_ping_at = now + HEARTBEAT_INTERVAL;
        self.reachable = true;
        self.reconnect_attempt = 0;
        self.unreachable_since = None;
        self.next_reconnect_at = now;
        self.logged_source_ip = true;
    }

    fn note_unreachable(&mut self, now: Instant)
        requires
            now <= LATEST_INSTANT,
        ensures
            *final(self) == old(self).missed(now),
    {
        if self.reachable || self.unreachable_since.is_none() {
            self.unreachable_since = Some(now);
        }
        self.reachable = false;
        self.reconnect_attempt = self.reconnect_attempt.saturating_add(1);
        let seed: u64 = jitter_seed(self.device_id.as_str());
        let delay: Duration = reconnect_backoff_delay(self.reconnect_attempt - 1, seed);
        self.next_reconnect_at = now + delay;
    }

    fn note_lost_signal(&mut self) -> (notice: Option<Notice>)
        ensures
            *final(self) == old(self).suspected(),
            notice == old(self).suspicion(),
    {
        self.ownership_loss_streak = self.ownership_loss_streak.saturating_add(1);
        if self.ownership_loss_streak < OWNERSHIP_LOSS_CONFIRMATIONS {
            return None;
        }
        self.clear_active_session();
        Some(Notice::OwnershipLost)
    }

    /// How long to wait for a command: until the next heartbeat or connection attempt
    /// is due, at most one heartbeat interval and never zero.
    pub fn next_loop_wait(&self, now: Instant) -> (d: Duration)
        ensures
            d == self.loop_wait(now),
            0 < d <= HEARTBEAT_INTERVAL,
    {
        let due: Duration = if self.connected {
            saturating_duration_since(self.next_ping_at, now)
        } else {
            saturating_duration_since(self.next_reconnect_at, now)
        };
        if due == 0 {
            MIN_LOOP_WAIT
        } else if due < HEARTBEAT_INTERVAL {
            due
        } else {
            HEARTBEAT_INTERVAL
        }
    }

    /// Take over a freshly resolved address; `true` when it differs from the old one.
    pub fn refresh_host(&mut self, resolved: Option<String>) -> (changed: bool)
        ensures
            changed == (old(self).hostname@.len() > 0 && (resolved matches Some(ip) && ip@ != old(self).host@)),
            changed ==> *final(self) == (Core {
                host: resolved->0,
                logged_source_ip: false,
                ..*old(self)
            }),
            !changed ==> *final(self) == *old(self),
            changed == is_new_host(
                old(self).hostname@,
                old(self).host@,
                crate::text::opt_view(resolved),
            ),
    {
        if self.hostname.as_str().is_empty() {
            return false;
        }
        match resolved {
            Some(ip) => {
                if str_eq(ip.as_str(), self.host.as_str()) {
                    false
                } else {
                    self.host = ip;
                    self.logged_source_ip = false;
                    true
                }
            },
            None => false,
        }
    }
}

// ── Machine ─────────────────────────────────────────────────────────────────

/// A worker: its control-plane state, what it waits for, and a command that it took
/// from the queue while merging volume changes.
#[derive(Debug)]
pub struct Worker<V> {
    /// Control-plane state.
    pub core: Core,
    /// What the worker waits for.
    pub phase: Phase<V>,
    /// The command to take up next.
    pub pending: Option<Command<V>>,
}

/// Where a transition leads.
pub struct Next<V> {
    /// Control-plane state.
    pub core: Core,
    /// What the worker waits for.
    pub phase: Phase<V>,
    /// The command to take up next.
    pub pending: Option<Command<V>>,
    /// What the driver is asked for.
    pub step: Step<V>,
}

/// Back to the loop: take up the held command, or wait for one.
pub open spec fn settled<V>(
    core: Core,
    pending: Option<Command<V>>,
    drop_link: bool,
    notice: Option<Notice>,
    reply: Option<Reply<V>>,
    now: Instant,
) -> Next<V> {
    Next {
        core,
        phase: Phase::Idle,
        pending,
        step: Step {
            drop_link,
            notice,
            reply,
            action: if pending is Some {
                Action::Proceed
            } else {
                Action::Receive { wait: core.loop_wait(now) }
            },
        },
    }
}

/// On to an outside action.
pub open spec fn going<V>(
    core: Core,
    pending: Option<Command<V>>,
    phase: Phase<V>,
    drop_link: bool,
    action: Action<V>,
) -> Next<V> {
    Next { core, phase, pending, step: Step { drop_link, notice: None, reply: None, action } }
}

/// On to a connection attempt.
pub open spec fn connecting<V>(
    core: Core,
    pending: Option<Command<V>>,
    drop_link: bool,
    then: Then<V>,
) -> Next<V> {
    going(core, pending, Phase::Connecting(then), drop_link, Action::Connect)
}

/// The end of an idle tick: probe the session when it is due.
pub open spec fn checked<V>(
    core: Core,
    pending: Option<Command<V>>,
    notice: Option<Notice>,
    now: Instant,
) -> Next<V> {
    if core.probe_due(now) {
        going(core, pending, Phase::Probing, false, Action::Probe(core.active->0))
    } else {
        settled(core.unprobed(), pending, false, notice, None, now)
    }
}

/// An idle tick: retry the connection when it is down and due, else serve it.
pub open spec fn ticked<V>(core: Core, pending: Option<Command<V>>, now: Instant) -> Next<V> {
    if core.connected {
        going(core, pending, Phase::Draining, false, Action::Drain)
    } else if now >= core.next_reconnect_at {
        connecting(core, pending, false, Then::Loop)
    } else {
        settled(core, pending, false, None, None, now)
    }
}

/// An idle tick after draining: heartbeat when due, then the ownership check.
pub open spec fn drained<V>(core: Core, pending: Option<Command<V>>, now: Instant) -> Next<V> {
    if now >= core.next_ping_at {
        going(
            Core { next_ping_at: (now + HEARTBEAT_INTERVAL) as u128, ..core },
            pending,
            Phase::Pinging,
            false,
            Action::Ping,
        )
    } else {
        checked(core, pending, None, now)
    }
}

/// The start of a LOAD.
pub open spec fn load_begun<V>(
    core: Core,
    pending: Option<Command<V>>,
    request: MediaLoadRequest,
    internal: bool,
    now: Instant,
) -> Next<V> {
    let c = Core { last_load: Some(request), last_load_at: Some(now), ..core };
    if c.connected {
        going(
            c,
            pending,
            Phase::Loading { request, retried: false, internal },
            false,
            Action::Load(request),
        )
    } else {
        connecting(
            c,
            pending,
            true,
            Then::LoadRetry { request, err: WorkerError::NotConnected, internal },
        )
    }
}

/// The end of a LOAD: an answer to the command, or, for an internal one, recovery or
/// one more suspicion.
pub open spec fn load_ended<V>(
    core: Core,
    pending: Option<Command<V>>,
    internal: bool,
    result: Result<MediaSessionRef, WorkerError>,
    now: Instant,
) -> Next<V> {
    if !internal {
        settled(core, pending, false, None, Some(Reply::Loaded(result)), now)
    } else {
        match result {
            Ok(_) => settled(
                Core {
                    reload_attempted: true,
                    ownership_loss_streak: 0,
                    buffering_streak: 0,
                    ..core
                },
                pending,
                false,
                Some(Notice::MediaRecovered),
                None,
                now,
            ),
            Err(_) => {
                let c = Core { reload_attempted: true, ..core };
                settled(c.suspected(), pending, false, c.suspicion(), None, now)
            },
        }
    }
}

/// A LOAD failed: reconnect and try once more, or give up.
pub open spec fn load_failed<V>(
    core: Core,
    pending: Option<Command<V>>,
    request: MediaLoadRequest,
    retried: bool,
    internal: bool,
    err: WorkerError,
    now: Instant,
) -> Next<V> {
    if retried {
        load_ended(core, pending, internal, Err(err), now)
    } else {
        connecting(core.unlinked(), pending, true, Then::LoadRetry { request, err, internal })
    }
}

/// The start of a volume change.
pub open spec fn volume_begun<V>(core: Core, pending: Option<Command<V>>, level: V) -> Next<V> {
    if core.connected {
        going(
            core,
            pending,
            Phase::SettingVolume { level, retried: false },
            false,
            Action::SetVolume(level),
        )
    } else {
        connecting(core, pending, false, Then::SetVolume { level, retried: false })
    }
}

/// The start of STOP: the session is forgotten whatever comes of it.
pub open spec fn stop_begun<V>(
    core: Core,
    pending: Option<Command<V>>,
    kind: TransportKind,
    now: Instant,
) -> Next<V> {
    match core.active {
        None => settled(core, pending, false, None, Some(transport_reply(kind, Ok(()))), now),
        Some(session) => {
            let c = Core {
                active: None,
                active_since: None,
                ownership_loss_streak: 0,
                buffering_streak: 0,
                ..core
            };
            if c.connected {
                going(c, pending, Phase::Transport(kind), false, Action::Stop(session))
            } else {
                settled(c, pending, false, None, Some(transport_reply(kind, Ok(()))), now)
            }
        },
    }
}

/// The start of PAUSE or PLAY, which need a session and a connection.
pub open spec fn transport_begun<V>(
    core: Core,
    pending: Option<Command<V>>,
    kind: TransportKind,
    now: Instant,
) -> Next<V> {
    if core.active is Some && core.connected {
        going(
            core,
            pending,
            Phase::Transport(kind),
            false,
            if kind == TransportKind::Pause {
                Action::Pause(core.active->0)
            } else {
                Action::Play(core.active->0)
            },
        )
    } else {
        settled(
            core,
            pending,
            false,
            None,
            Some(transport_reply(kind, Err(WorkerError::NoActiveSession))),
            now,
        )
    }
}

/// The answer to a transport command.
pub open spec fn transport_reply<V>(kind: TransportKind, result: Result<(), WorkerError>) -> Reply<V> {
    if kind == TransportKind::StopBestEffort {
        Reply::BestEffort
    } else {
        Reply::Done(result)
    }
}

/// The stage of a transport command that failed to connect.
pub open spec fn connect_stage(kind: TransportKind) -> Stage {
    match kind {
        TransportKind::Stop | TransportKind::StopBestEffort => Stage::StopConnect,
        TransportKind::Pause => Stage::PauseConnect,
        TransportKind::Play => Stage::PlayConnect,
    }
}

/// The stage of a transport command that failed.
pub open spec fn transport_stage(kind: TransportKind) -> Stage {
    match kind {
        TransportKind::Stop | TransportKind::StopBestEffort => Stage::Stop,
        TransportKind::Pause => Stage::Pause,
        TransportKind::Play => Stage::Play,
    }
}

/// The end of a worker.
pub open spec fn ended<V>(core: Core, pending: Option<Command<V>>) -> Next<V> {
    going(core.cleared().unlinked(), pending, Phase::Ended, true, Action::Exit)
}

/// A command begins.
pub open spec fn begun<V>(
    core: Core,
    pending: Option<Command<V>>,
    command: Command<V>,
    now: Instant,
) -> Next<V> {
    match command {
        Command::Shutdown => ended(core, pending),
        Command::UpdateEndpoint { host, hostname, port } => {
            let c = Core { host, hostname, port, ..core };
            if core.host@ != host@ || core.hostname@ != hostname@ || core.port != port {
                connecting(
                    Core { reconnect_attempt: 0, next_reconnect_at: now, ..c.cleared().unlinked() },
                    pending,
                    true,
                    Then::Loop,
                )
            } else {
                settled(c, pending, false, None, None, now)
            }
        },
        Command::Load(request) => load_begun(core, pending, request, false, now),
        Command::SetVolume(level) => going(
            core,
            pending,
            Phase::Coalescing { level },
            false,
            Action::TryReceive,
        ),
        Command::GetVolume => if core.connected {
            going(core, pending, Phase::GettingVolume { retried: false }, false, Action::GetVolume)
        } else {
            connecting(core, pending, false, Then::GetVolume { retried: false })
        },
        Command::Stop => stop_begun(core, pending, TransportKind::Stop, now),
        Command::StopBestEffort => stop_begun(core, pending, TransportKind::StopBestEffort, now),
        Command::Pause => transport_begun(core, pending, TransportKind::Pause, now),
        Command::Play => transport_begun(core, pending, TransportKind::Play, now),
    }
}

/// A connection came up.
pub open spec fn connected<V>(
    core: Core,
    pending: Option<Command<V>>,
    then: Then<V>,
    now: Instant,
) -> Next<V> {
    let c = core.reached(now);
    match then {
        Then::Loop => settled(c, pending, false, None, None, now),
        Then::AfterPing => checked(c, pending, None, now),
        Then::LoadRetry { request, err: _, internal } => going(
            c,
            pending,
            Phase::Loading { request, retried: true, internal },
            false,
            Action::Load(request),
        ),
        Then::SetVolume { level, retried } => going(
            c,
            pending,
            Phase::SettingVolume { level, retried },
            false,
            Action::SetVolume(level),
        ),
        Then::GetVolume { retried } => going(
            c,
            pending,
            Phase::GettingVolume { retried },
            false,
            Action::GetVolume,
        ),
    }
}

/// A connection attempt failed. A failed heartbeat counts toward loss only here,
/// after the reconnect has failed too.
pub open spec fn not_connected<V>(
    core: Core,
    pending: Option<Command<V>>,
    then: Then<V>,
    stage: Stage,
    text: String,
    now: Instant,
) -> Next<V> {
    let c = core.missed(now);
    match then {
        Then::Loop => settled(c, pending, false, None, None, now),
        Then::AfterPing => if c.active is Some {
            checked(c.suspected(), pending, c.suspicion(), now)
        } else {
            checked(c, pending, None, now)
        },
        Then::LoadRetry { request: _, err, internal } => load_ended(
            c,
            pending,
            internal,
            Err(err),
            now,
        ),
        Then::SetVolume { .. } => settled(
            c,
            pending,
            false,
            None,
            Some(Reply::VolumeSet(Err(WorkerError::Outside { stage, text }))),
            now,
        ),
        Then::GetVolume { .. } => settled(
            c,
            pending,
            false,
            None,
            Some(Reply::Volume(Err(WorkerError::Outside { stage, text }))),
            now,
        ),
    }
}

/// A probe came back.
pub open spec fn probed<V>(
    core: Core,
    pending: Option<Command<V>>,
    listed: bool,
    media: MediaProbe,
    now: Instant,
) -> Next<V> {
    let c = core.buffered(media.buffering);
    match pool::policy(c.inputs(listed, media, now)) {
        OwnershipAction::Owned => settled(
            Core { ownership_loss_streak: 0, reload_attempted: false, ..c },
            pending,
            false,
            None,
            None,
            now,
        ),
        OwnershipAction::Inconclusive => settled(c, pending, false, None, None, now),
        OwnershipAction::SuspectReconnect => connecting(c.unlinked(), pending, true, Then::Loop),
        OwnershipAction::LostSignal => settled(
            c.suspected(),
            pending,
            false,
            c.suspicion(),
            None,
            now,
        ),
        OwnershipAction::AttemptReload => match c.last_load {
            Some(request) => load_begun(c, pending, request, true, now),
            None => {
                let tried = Core { reload_attempted: true, ..c };
                settled(tried.suspected(), pending, false, tried.suspicion(), None, now)
            },
        },
    }
}

impl<V> Worker<V> {
    /// `event` can come while the worker waits for what its phase says.
    pub open spec fn expects(self, event: Event<V>) -> bool {
        match self.phase {
            Phase::Idle => match event {
                Event::Command(_) | Event::Timeout | Event::ChannelClosed => true,
                Event::Proceed => self.pending is Some,
                _ => false,
            },
            Phase::Coalescing { .. } => event is Queued || event is QueueEmpty,
            Phase::Connecting(_) => event is Connected || event is ConnectFailed,
            Phase::Loading { .. } => event is Loaded || event is LoadFailed,
            Phase::SettingVolume { .. } => event is VolumeSet || event is VolumeSetFailed,
            Phase::GettingVolume { .. } => event is Volume || event is VolumeFailed,
            Phase::Transport(_) => event is TransportDone || event is TransportConnectFailed
                || event is TransportFailed,
            Phase::Draining => event is Drained,
            Phase::Pinging => event is Pinged || event is PingFailed,
            Phase::Probing => event is Probed,
            Phase::Ended => false,
        }
    }

    /// The transition that `event` causes at `now`.
    pub open spec fn next(self, event: Event<V>, now: Instant) -> Next<V> {
        let core = self.core;
        let pending = self.pending;
        match self.phase {
            Phase::Idle => match event {
                Event::Command(command) => begun(core, pending, command, now),
                Event::Proceed => begun(core, None, pending->0, now),
                Event::Timeout => ticked(core, pending, now),
                _ => ended(core, pending),
            },
            Phase::Coalescing { level } => match event {
                Event::Queued(Command::SetVolume(newer)) => going(
                    core,
                    pending,
                    Phase::Coalescing { level: newer },
                    false,
                    Action::TryReceive,
                ),
                Event::Queued(other) => volume_begun(core, Some(other), level),
                _ => volume_begun(core, pending, level),
            },
            Phase::Connecting(then) => match event {
                Event::ConnectFailed { stage, text } => not_connected(
                    core,
                    pending,
                    then,
                    stage,
                    text,
                    now,
                ),
                _ => connected(core, pending, then, now),
            },
            Phase::Loading { request, retried, internal } => match event {
                Event::Loaded { transport_id, status } => if status.entries@.len() > 0 {
                    let session = MediaSessionRef {
                        transport_id,
                        media_session_id: status.entries@[0].media_session_id,
                    };
                    load_ended(
                        core.with_session(session, now),
                        pending,
                        internal,
                        Ok(session),
                        now,
                    )
                } else {
                    load_failed(
                        core,
                        pending,
                        request,
                        retried,
                        internal,
                        WorkerError::NoMediaEntries,
                        now,
                    )
                },
                Event::LoadFailed { stage, text } => load_failed(
                    core,
                    pending,
                    request,
                    retried,
                    internal,
                    WorkerError::Outside { stage, text },
                    now,
                ),
                _ => ended(core, pending),
            },
            Phase::SettingVolume { level, retried } => match event {
                Event::VolumeSetFailed(text) => if retried {
                    settled(
                        core,
                        pending,
                        false,
                        None,
                        Some(
                            Reply::VolumeSet(
                                Err(WorkerError::Outside { stage: Stage::SetVolume, text }),
                            ),
                        ),
                        now,
                    )
                } else {
                    connecting(
                        core.unlinked(),
                        pending,
                        true,
                        Then::SetVolume { level, retried: true },
                    )
                },
                _ => settled(core, pending, false, None, Some(Reply::VolumeSet(Ok(()))), now),
            },
            Phase::GettingVolume { retried } => match event {
                Event::Volume(level) => settled(
                    core,
                    pending,
                    false,
                    None,
                    Some(Reply::Volume(Ok(level))),
                    now,
                ),
                Event::VolumeFailed(text) => if retried {
                    settled(
                        core,
                        pending,
                        false,
                        None,
                        Some(
                            Reply::Volume(
                                Err(WorkerError::Outside { stage: Stage::GetVolume, text }),
                            ),
                        ),
                        now,
                    )
                } else {
                    connecting(core.unlinked(), pending, true, Then::GetVolume { retried: true })
                },
                _ => ended(core, pending),
            },
            Phase::Transport(kind) => match event {
                Event::TransportConnectFailed(text) => settled(
                    core.unlinked(),
                    pending,
                    true,
                    None,
                    Some(
                        transport_reply(
                            kind,
                            Err(WorkerError::Outside { stage: connect_stage(kind), text }),
                        ),
                    ),
                    now,
                ),
                Event::TransportFailed(text) => settled(
                    core,
                    pending,
                    false,
                    None,
                    Some(
                        transport_reply(
                            kind,
                            Err(WorkerError::Outside { stage: transport_stage(kind), text }),
                        ),
                    ),
                    now,
                ),
                _ => settled(
                    core,
                    pending,
                    false,
                    None,
                    Some(transport_reply(kind, Ok(()))),
                    now,
                ),
            },
            Phase::Draining => drained(core, pending, now),
            Phase::Pinging => match event {
                Event::PingFailed => connecting(core.unlinked(), pending, true, Then::AfterPing),
                _ => checked(core, pending, None, now),
            },
            Phase::Probing => match event {
                Event::Probed { listed, media } => probed(core, pending, listed, media, now),
                _ => ended(core, pending),
            },
            Phase::Ended => ended(core, pending),
        }
    }

    /// The worker and `step` are as `next` says.
    pub open spec fn lands(self, step: Step<V>, next: Next<V>) -> bool {
        &&& self.core == next.core
        &&& self.phase == next.phase
        &&& self.pending == next.pending
        &&& step == next.step
    }
}

impl<V: Copy> Worker<V> {
    /// Start a worker: its first action connects while the device is idle.
    pub fn new(device_id: String, host: String, hostname: String, port: u16, now: Instant) -> (r: (
        Worker<V>,
        Step<V>,
    ))
        ensures
            r.0.phase == Phase::<V>::Connecting(Then::Loop),
            r.0.pending is None,
            r.0.core.is_new(device_id, host, hostname, port, now),
            r.1 == (Step::<V> {
                drop_link: false,
                notice: None,
                reply: None,
                action: Action::Connect,
            }),
    {
        let core = Core::new(device_id, host, hostname, port, now);
        (
            Worker { core, phase: Phase::Connecting(Then::Loop), pending: None },
            Step { drop_link: false, notice: None, reply: None, action: Action::Connect },
        )
    }

    fn settle(
        &mut self,
        drop_link: bool,
        notice: Option<Notice>,
        reply: Option<Reply<V>>,
        now: Instant,
    ) -> (s: Step<V>)
        ensures
            final(self).lands(
                s,
                settled(old(self).core, old(self).pending, drop_link, notice, reply, now),
            ),
    {
        self.phase = Phase::Idle;
        let action = if self.pending.is_some() {
            Action::Proceed
        } else {
            Action::Receive { wait: self.core.next_loop_wait(now) }
        };
        Step { drop_link, notice, reply, action }
    }

    fn go(&mut self, phase: Phase<V>, drop_link: bool, action: Action<V>) -> (s: Step<V>)
        ensures
            final(self).lands(
                s,
                going(old(self).core, old(self).pending, phase, drop_link, action),
            ),
    {
        self.phase = phase;
        Step { drop_link, notice: None, reply: None, action }
    }

    fn connect(&mut self, drop_link: bool, then: Then<V>) -> (s: Step<V>)
        ensures
            final(self).lands(
                s,
                connecting(old(self).core, old(self).pending, drop_link, then),
            ),
    {
        self.go(Phase::Connecting(then), drop_link, Action::Connect)
    }

    /// Confirm that the media session is still ours, when that is due.
    fn check_ownership(&mut self, notice: Option<Notice>, now: Instant) -> (s: Step<V>)
        ensures
            final(self).lands(s, checked(old(self).core, old(self).pending, notice, now)),
    {
        let due: bool = match self.core.active_since {
            Some(since) => self.core.active.is_some() && self.core.connected
                && saturating_duration_since(now, since) >= OWNERSHIP_GRACE,
            None => false,
        };
        if due {
            if let Some(session) = &self.core.active {
                let target = session.clone();
                return self.go(Phase::Probing, false, Action::Probe(target));
            }
        }
        if self.core.active.is_none() {
            self.core.ownership_loss_streak = 0;
            self.core.buffering_streak = 0;
        }
        self.settle(false, notice, None, now)
    }

    fn on_idle_tick(&mut self, now: Instant) -> (s: Step<V>)
        ensures
            final(self).lands(s, ticked(old(self).core, old(self).pending, now)),
    {
        if self.core.connected {
            return self.go(Phase::Draining, false, Action::Drain);
        }
        if now >= self.core.next_reconnect_at {
            return self.connect(false, Then::Loop);
        }
        self.settle(false, None, None, now)
    }

    fn heartbeat_ping(&mut self, now: Instant) -> (s: Step<V>)
        requires
            now + HEARTBEAT_INTERVAL <= LATEST_INSTANT,
        ensures
            final(self).lands(s, drained(old(self).core, old(self).pending, now)),
    {
        if now >= self.core.next_ping_at {
            self.core.next_ping_at = now + HEARTBEAT_INTERVAL;
            return self.go(Phase::Pinging, false, Action::Ping);
        }
        self.check_ownership(None, now)
    }

    fn handle_load(&mut self, request: MediaLoadRequest, internal: bool, now: Instant) -> (s: Step<V>)
        ensures
            final(self).lands(
                s,
                load_begun(old(self).core, old(self).pending, request, internal, now),
            ),
    {
        self.core.last_load = Some(request.clone());
        self.core.last_load_at = Some(now);
        if self.core.connected {
            let sent = request.clone();
            self.go(Phase::Loading { request, retried: false, internal }, false, Action::Load(sent))
        } else {
            self.connect(
                true,
                Then::LoadRetry { request, err: WorkerError::NotConnected, internal },
            )
        }
    }

    fn end_load(
        &mut self,
        internal: bool,
        result: Result<MediaSessionRef, WorkerError>,
        now: Instant,
    ) -> (s: Step<V>)
        ensures
            final(self).lands(
                s,
                load_ended(old(self).core, old(self).pending, internal, result, now),
            ),
    {
        if !internal {
            return self.settle(false, None, Some(Reply::Loaded(result)), now);
        }
        self.core.reload_attempted = true;
        match result {
            Ok(_) => {
                self.core.ownership_loss_streak = 0;
                self.core.buffering_streak = 0;
                self.settle(false, Some(Notice::MediaRecovered), None, now)
            },
            Err(_) => {
                let notice = self.core.note_lost_signal();
                self.settle(false, notice, None, now)
            },
        }
    }

    fn fail_load(
        &mut self,
        request: MediaLoadRequest,
        retried: bool,
        internal: bool,
        err: WorkerError,
        now: Instant,
    ) -> (s: Step<V>)
        ensures
            final(self).lands(
                s,
                load_failed(
                    old(self).core,
                    old(self).pending,
                    request,
                    retried,
                    internal,
                    err,
                    now,
                ),
            ),
    {
        if retried {
            return self.end_load(internal, Err(err), now);
        }
        self.core.connected = false;
        self.connect(true, Then::LoadRetry { request, err, internal })
    }

    fn handle_set_volume(&mut self, level: V) -> (s: Step<V>)
        ensures
            final(self).lands(s, volume_begun(old(self).core, old(self).pending, level)),
    {
        if self.core.connected {
            self.go(
                Phase::SettingVolume { level, retried: false },
                false,
                Action::SetVolume(level),
            )
        } else {
            self.connect(false, Then::SetVolume { level, retried: false })
        }
    }

    fn handle_get_volume(&mut self) -> (s: Step<V>)
        ensures
            final(self).lands(
                s,
                if old(self).core.connected {
                    going(
                        old(self).core,
                        old(self).pending,
                        Phase::GettingVolume { retried: false },
                        false,
                        Action::GetVolume,
                    )
                } else {
                    connecting(
                        old(self).core,
                        old(self).pending,
                        false,
                        Then::GetVolume { retried: false },
                    )
                },
            ),
    {
        if self.core.connected {
            self.go(Phase::GettingVolume { retried: false }, false, Action::GetVolume)
        } else {
            self.connect(false, Then::GetVolume { retried: false })
        }
    }

    fn answer(kind: TransportKind, result: Result<(), WorkerError>) -> (r: Reply<V>)
        ensures
            r == transport_reply::<V>(kind, result),
    {
        match kind {
            TransportKind::StopBestEffort => Reply::BestEffort,
            _ => Reply::Done(result),
        }
    }

    fn handle_stop(&mut self, kind: TransportKind, now: Instant) -> (s: Step<V>)
        ensures
            final(self).lands(s, stop_begun(old(self).core, old(self).pending, kind, now)),
    {
        match self.core.active.take() {
            None => self.settle(false, None, Some(Self::answer(kind, Ok(()))), now),
            Some(session) => {
                self.core.active_since = None;
                self.core.ownership_loss_streak = 0;
                self.core.buffering_streak = 0;
                if self.core.connected {
                    self.go(Phase::Transport(kind), false, Action::Stop(session))
                } else {
                    self.settle(false, None, Some(Self::answer(kind, Ok(()))), now)
                }
            },
        }
    }

    fn handle_transport(&mut self, kind: TransportKind, now: Instant) -> (s: Step<V>)
        ensures
            final(self).lands(s, transport_begun(old(self).core, old(self).pending, kind, now)),
    {
        if self.core.connected {
            if let Some(session) = &self.core.active {
                let target = session.clone();
                let action = match kind {
                    TransportKind::Pause => Action::Pause(target),
                    _ => Action::Play(target),
                };
                return self.go(Phase::Transport(kind), false, action);
            }
        }
        self.settle(false, None, Some(Self::answer(kind, Err(WorkerError::NoActiveSession))), now)
    }

    fn end(&mut self) -> (s: Step<V>)
        ensures
            final(self).lands(s, ended(old(self).core, old(self).pending)),
    {
        self.core.clear_active_session();
        self.core.connected = false;
        self.go(Phase::Ended, true, Action::Exit)
    }

    fn begin(&mut self, command: Command<V>, now: Instant) -> (s: Step<V>)
        ensures
            final(self).lands(s, begun(old(self).core, old(self).pending, command, now)),
    {
        match command {
            Command::Shutdown => self.end(),
            Command::UpdateEndpoint { host, hostname, port } => {
                let changed: bool = !str_eq(self.core.host.as_str(), host.as_str()) || !str_eq(
                    self.core.hostname.as_str(),
                    hostname.as_str(),
                ) || self.core.port != port;
                self.core.host = host;
                self.core.hostname = hostname;
                self.core.port = port;
                if changed {
                    self.core.clear_active_session();
                    self.core.connected = false;
                    self.core.reconnect_attempt = 0;
                    self.core.next_reconnect_at = now;
                    self.connect(true, Then::Loop)
                } else {
                    self.settle(false, None, None, now)
                }
            },
            Command::Load(request) => self.handle_load(request, false, now),
            Command::SetVolume(level) => self.go(
                Phase::Coalescing { level },
                false,
                Action::TryReceive,
            ),
            Command::GetVolume => self.handle_get_volume(),
            Command::Stop => self.handle_stop(TransportKind::Stop, now),
            Command::StopBestEffort => self.handle_stop(TransportKind::StopBestEffort, now),
            Command::Pause => self.handle_transport(TransportKind::Pause, now),
            Command::Play => self.handle_transport(TransportKind::Play, now),
        }
    }

    fn on_connected(&mut self, then: Then<V>, now: Instant) -> (s: Step<V>)
        requires
            now + HEARTBEAT_INTERVAL <= LATEST_INSTANT,
        ensures
            final(self).lands(s, connected(old(self).core, old(self).pending, then, now)),
    {
        self.core.note_reachable(now);
        match then {
            Then::Loop => self.settle(false, None, None, now),
            Then::AfterPing => self.check_ownership(None, now),
            Then::LoadRetry { request, err: _, internal } => {
                let sent = request.clone();
                self.go(
                    Phase::Loading { request, retried: true, internal },
                    false,
                    Action::Load(sent),
                )
            },
            Then::SetVolume { level, retried } => self.go(
                Phase::SettingVolume { level, retried },
                false,
                Action::SetVolume(level),
            ),
            Then::GetVolume { retried } => self.go(
                Phase::GettingVolume { retried },
                false,
                Action::GetVolume,
            ),
        }
    }

    fn on_connect_failed(&mut self, then: Then<V>, stage: Stage, text: String, now: Instant) -> (s:
        Step<V>)
        requires
            now + HEARTBEAT_INTERVAL <= LATEST_INSTANT,
        ensures
            final(self).lands(
                s,
                not_connected(old(self).core, old(self).pending, then, stage, text, now),
            ),
    {
        self.core.note_unreachable(now);
        match then {
            Then::Loop => self.settle(false, None, None, now),
            Then::AfterPing => {
                if self.core.active.is_some() {
                    let notice = self.core.note_lost_signal();
                    self.check_ownership(notice, now)
                } else {
                    self.check_ownership(None, now)
                }
            },
            Then::LoadRetry { request: _, err, internal } => self.end_load(internal, Err(err), now),
            Then::SetVolume { .. } => self.settle(
                false,
                None,
                Some(Reply::VolumeSet(Err(WorkerError::Outside { stage, text }))),
                now,
            ),
            Then::GetVolume { .. } => self.settle(
                false,
                None,
                Some(Reply::Volume(Err(WorkerError::Outside { stage, text }))),
                now,
            ),
        }
    }

    fn on_probed(&mut self, listed: bool, media: MediaProbe, now: Instant) -> (s: Step<V>)
        ensures
            final(self).lands(s, probed(old(self).core, old(self).pending, listed, media, now)),
    {
        if media.buffering {
            self.core.buffering_streak = self.core.buffering_streak.saturating_add(1);
        } else {
            self.core.buffering_streak = 0;
        }
        let load_within_guard: bool = match self.core.last_load_at {
            Some(t) => saturating_duration_since(now, t) < RECENT_LOAD_GUARD,
            None => false,
        };
        let action = ownership_action(
            OwnershipInputs {
                transport_listed: listed,
                media_session_present: media.session_present,
                idle_reason: media.idle_reason,
                buffering: media.buffering,
                buffering_streak: self.core.buffering_streak,
                media_failure: media.failure,
                reload_attempted: self.core.reload_attempted,
                load_within_guard,
            },
        );
        match action {
            OwnershipAction::Owned => {
                self.core.ownership_loss_streak = 0;
                self.core.reload_attempted = false;
                self.settle(false, None, None, now)
            },
            OwnershipAction::Inconclusive => self.settle(false, None, None, now),
            OwnershipAction::SuspectReconnect => {
                self.core.connected = false;
                self.connect(true, Then::Loop)
            },
            OwnershipAction::LostSignal => {
                let notice = self.core.note_lost_signal();
                self.settle(false, notice, None, now)
            },
            OwnershipAction::AttemptReload => {
                if let Some(request) = &self.core.last_load {
                    let again = request.clone();
                    return self.handle_load(again, true, now);
                }
                self.core.reload_attempted = true;
                let notice = self.core.note_lost_signal();
                self.settle(false, notice, None, now)
            },
        }
    }

    /// Take up an event and say what to do next.
    pub fn handle(&mut self, event: Event<V>, now: Instant) -> (s: Step<V>)
        requires
            old(self).expects(event),
            now + HEARTBEAT_INTERVAL <= LATEST_INSTANT,
        ensures
            final(self).lands(s, old(self).next(event, now)),
    {
        let mut phase: Phase<V> = Phase::Idle;
        std::mem::swap(&mut phase, &mut self.phase);
        match phase {
            Phase::Idle => match event {
                Event::Command(command) => self.begin(command, now),
                Event::Proceed => match self.pending.take() {
                    Some(command) => self.begin(command, now),
                    None => self.end(),
                },
                Event::Timeout => self.on_idle_tick(now),
                _ => self.end(),
            },
            Phase::Coalescing { level } => match event {
                Event::Queued(command) => match command {
                    Command::SetVolume(newer) => self.go(
                        Phase::Coalescing { level: newer },
                        false,
                        Action::TryReceive,
                    ),
                    other => {
                        self.pending = Some(other);
                        self.handle_set_volume(level)
                    },
                },
                _ => self.handle_set_volume(level),
            },
            Phase::Connecting(then) => match event {
                Event::ConnectFailed { stage, text } => self.on_connect_failed(
                    then,
                    stage,
                    text,
                    now,
                ),
                _ => self.on_connected(then, now),
            },
            Phase::Loading { request, retried, internal } => match event {
                Event::Loaded { transport_id, status } => {
                    if status.entries.len() > 0 {
                        let session = MediaSessionRef {
                            transport_id,
                            media_session_id: status.entries[0].media_session_id,
                        };
                        self.core.set_active_session(session.clone(), now);
                        self.end_load(internal, Ok(session), now)
                    } else {
                        self.fail_load(request, retried, internal, WorkerError::NoMediaEntries, now)
                    }
                },
                Event::LoadFailed { stage, text } => self.fail_load(
                    request,
                    retried,
                    internal,
                    WorkerError::Outside { stage, text },
                    now,
                ),
                _ => self.end(),
            },
            Phase::SettingVolume { level, retried } => match event {
                Event::VolumeSetFailed(text) => {
                    if retried {
                        let err = WorkerError::Outside { stage: Stage::SetVolume, text };
                        self.settle(false, None, Some(Reply::VolumeSet(Err(err))), now)
                    } else {
                        self.core.connected = false;
                        self.connect(true, Then::SetVolume { level, retried: true })
                    }
                },
                _ => self.settle(false, None, Some(Reply::VolumeSet(Ok(()))), now),
            },
            Phase::GettingVolume { retried } => match event {
                Event::Volume(level) => self.settle(false, None, Some(Reply::Volume(Ok(level))), now),
                Event::VolumeFailed(text) => {
                    if retried {
                        let err = WorkerError::Outside { stage: Stage::GetVolume, text };
                        self.settle(false, None, Some(Reply::Volume(Err(err))), now)
                    } else {
                        self.core.connected = false;
                        self.connect(true, Then::GetVolume { retried: true })
                    }
                },
                _ => self.end(),
            },
            Phase::Transport(kind) => match event {
                Event::TransportConnectFailed(text) => {
                    let stage = match kind {
                        TransportKind::Stop | TransportKind::StopBestEffort => Stage::StopConnect,
                        TransportKind::Pause => Stage::PauseConnect,
                        TransportKind::Play => Stage::PlayConnect,
                    };
                    self.core.connected = false;
                    let err = WorkerError::Outside { stage, text };
                    self.settle(true, None, Some(Self::answer(kind, Err(err))), now)
                },
                Event::TransportFailed(text) => {
                    let stage = match kind {
                        TransportKind::Stop | TransportKind::StopBestEffort => Stage::Stop,
                        TransportKind::Pause => Stage::Pause,
                        TransportKind::Play => Stage::Play,
                    };
                    let err = WorkerError::Outside { stage, text };
                    self.settle(false, None, Some(Self::answer(kind, Err(err))), now)
                },
                _ => self.settle(false, None, Some(Self::answer(kind, Ok(()))), now),
            },
            Phase::Draining => self.heartbeat_ping(now),
            Phase::Pinging => match event {
                Event::PingFailed => {
                    self.core.connected = false;
                    self.connect(true, Then::AfterPing)
                },
                _ => self.check_ownership(None, now),
            },
            Phase::Probing => match event {
                Event::Probed { listed, media } => self.on_probed(listed, media, now),
                _ => self.end(),
            },
            Phase::Ended => self.end(),
        }
    }
}

// ── Laws ────────────────────────────────────────────────────────────────────

/// A command that is answered.
pub open spec fn answerable<V>(command: Command<V>) -> bool {
    !(command is UpdateEndpoint || command is Shutdown)
}

/// A phase in which a caller waits for an answer.
pub open spec fn owes_answer<V>(phase: Phase<V>) -> bool {
    match phase {
        Phase::Coalescing { .. }
        | Phase::SettingVolume { .. }
        | Phase::GettingVolume { .. }
        | Phase::Transport(_) => true,
        Phase::Loading { internal, .. } => !internal,
        Phase::Connecting(Then::LoadRetry { internal, .. }) => !internal,
        Phase::Connecting(Then::SetVolume { .. }) => true,
        Phase::Connecting(Then::GetVolume { .. }) => true,
        _ => false,
    }
}

/// `event` makes the worker take up a command that is answered.
pub open spec fn takes_up<V>(w: Worker<V>, event: Event<V>) -> bool {
    w.phase is Idle && match event {
        Event::Command(command) => answerable(command),
        Event::Proceed => w.pending is Some && answerable(w.pending->0),
        _ => false,
    }
}

/// Every command is answered exactly once: an answer leaves the worker at the moment
/// the operation ends, and at no other.
pub proof fn law_every_command_is_answered_once<V>(w: Worker<V>, event: Event<V>, now: Instant)
    requires
        w.expects(event),
    ensures
        ({
            let n = w.next(event, now);
            &&& owes_answer(w.phase) || takes_up(w, event) ==> (n.step.reply is Some) == !owes_answer(
                n.phase,
            )
            &&& !owes_answer(w.phase) && !takes_up(w, event) ==> n.step.reply is None
                && !owes_answer(n.phase)
        }),
{
}

/// A session is given up only when it had looked lost before: one bad probe, or one
/// failed heartbeat, never kicks the sender.
pub proof fn law_loss_needs_two_confirmations<V>(w: Worker<V>, event: Event<V>, now: Instant)
    requires
        w.expects(event),
    ensures
        ({
            let n = w.next(event, now);
            &&& n.step.notice == Some(Notice::OwnershipLost) ==> w.core.ownership_loss_streak >= 1
                && n.core.active is None
            &&& n.core.ownership_loss_streak <= w.core.ownership_loss_streak + 1
        }),
{
}

/// A loss that was suspected before and is seen again is told, and the session is
/// given up: a Cast that another sender took over does not play on silently.
pub proof fn law_confirmed_loss_is_told<V>(
    w: Worker<V>,
    listed: bool,
    media: MediaProbe,
    now: Instant,
)
    requires
        w.phase is Probing,
        pool::policy(w.core.buffered(media.buffering).inputs(listed, media, now))
            == OwnershipAction::LostSignal,
    ensures
        ({
            let n = w.next(Event::Probed { listed, media }, now);
            &&& w.core.ownership_loss_streak >= 1 ==> n.step.notice == Some(Notice::OwnershipLost)
                && n.core.active is None
            &&& w.core.ownership_loss_streak == 0 ==> n.step.notice is None
                && n.core.ownership_loss_streak == 1 && n.core.active == w.core.active
        }),
{
}

/// A status that cannot be parsed changes neither the session nor the loss streak.
pub proof fn law_parse_failure_is_inconclusive<V>(
    w: Worker<V>,
    listed: bool,
    media: MediaProbe,
    now: Instant,
)
    requires
        w.phase is Probing,
        media.failure == Some(pool::ProbeFailureKind::Parse),
    ensures
        ({
            let n = w.next(Event::Probed { listed, media }, now);
            &&& n.core.active == w.core.active
            &&& n.core.ownership_loss_streak == w.core.ownership_loss_streak
            &&& n.core.connected == w.core.connected
            &&& n.step.notice is None
        }),
{
}

/// STOP, PAUSE and PLAY keep the connection warm when they succeed.
pub proof fn law_transport_keeps_the_connection<V>(w: Worker<V>, now: Instant)
    requires
        w.phase is Transport,
    ensures
        ({
            let n = w.next(Event::TransportDone, now);
            &&& n.core.connected == w.core.connected
            &&& !n.step.drop_link
        }),
{
}

/// An endpoint update that changes nothing keeps connection and session.
pub proof fn law_unchanged_endpoint_keeps_the_session<V>(
    w: Worker<V>,
    host: String,
    hostname: String,
    port: u16,
    now: Instant,
)
    requires
        w.phase is Idle,
        host@ == w.core.host@,
        hostname@ == w.core.hostname@,
        port == w.core.port,
    ensures
        ({
            let n = w.next(Event::Command(Command::UpdateEndpoint { host, hostname, port }), now);
            &&& n.core.active == w.core.active
            &&& n.core.connected == w.core.connected
            &&& !n.step.drop_link
            &&& !(n.step.action is Connect)
        }),
{
}

/// A LOAD, a volume change or a volume reading that fails after its reconnect is not
/// tried again.
pub proof fn law_operations_retry_once<V>(w: Worker<V>, event: Event<V>, now: Instant)
    requires
        w.expects(event),
        match w.phase {
            Phase::Loading { retried, .. }
            | Phase::SettingVolume { retried, .. }
            | Phase::GettingVolume { retried } => retried,
            _ => false,
        },
    ensures
        w.next(event, now).phase is Idle,
{
}

/// Only the newest of several queued volume levels is sent.
pub proof fn law_newest_volume_wins<V>(w: Worker<V>, newer: V, now: Instant)
    requires
        w.phase is Coalescing,
    ensures
        w.next(Event::Queued(Command::SetVolume(newer)), now).phase == (Phase::Coalescing {
            level: newer,
        }),
        w.core.connected ==> w.next(Event::QueueEmpty, now).step.action == Action::SetVolume(
            w.phase->Coalescing_level,
        ),
{
}

/// The worker never sleeps past its next duty nor longer than one heartbeat interval.
pub proof fn law_wait_is_bounded(core: Core, now: Instant)
    ensures
        0 < core.loop_wait(now) <= HEARTBEAT_INTERVAL,
        core.connected && now < core.next_ping_at ==> now + core.loop_wait(now)
            <= core.next_ping_at,
        !core.connected && now < core.next_reconnect_at ==> now + core.loop_wait(now)
            <= core.next_reconnect_at,
{
}

// ── What each command and each answer does ──────────────────────────────────

/// PAUSE pauses, PLAY plays and STOP stops the session that is active: each command sends
/// its own request, for that session, to a connected device.
pub proof fn law_each_command_sends_its_own_request<V>(
    w: Worker<V>,
    session: MediaSessionRef,
    now: Instant,
)
    requires
        w.phase is Idle,
        w.core.connected,
        w.core.active == Some(session),
    ensures
        ({
            let pause = w.next(Event::Command(Command::Pause), now);
            let play = w.next(Event::Command(Command::Play), now);
            &&& pause.step.action == Action::<V>::Pause(session)
            &&& play.step.action == Action::<V>::Play(session)
            &&& pause.core == w.core && play.core == w.core
            &&& pause.step.reply is None && play.step.reply is None
            &&& !pause.step.drop_link && !play.step.drop_link
            &&& w.next(Event::Command(Command::Stop), now).step.action == Action::<V>::Stop(session)
            &&& w.next(Event::Command(Command::StopBestEffort), now).step.action == Action::<
                V,
            >::Stop(session)
        }),
{
}

/// PAUSE and PLAY need a session and a connection, and say so without asking the device.
pub proof fn law_pause_and_play_need_a_session<V>(w: Worker<V>, now: Instant)
    requires
        w.phase is Idle,
        w.core.active is None || !w.core.connected,
    ensures
        ({
            let pause = w.next(Event::Command(Command::Pause), now);
            let play = w.next(Event::Command(Command::Play), now);
            &&& pause.step.reply == Some(Reply::<V>::Done(Err(WorkerError::NoActiveSession)))
            &&& play.step.reply == Some(Reply::<V>::Done(Err(WorkerError::NoActiveSession)))
            &&& pause.phase is Idle && play.phase is Idle
            &&& pause.core == w.core && play.core == w.core
        }),
{
}

/// STOP forgets the session whatever comes of it, keeps the connection, and succeeds at
/// once when there is nothing to stop.
pub proof fn law_stop_forgets_the_session<V>(w: Worker<V>, now: Instant)
    requires
        w.phase is Idle,
    ensures
        ({
            let stop = w.next(Event::Command(Command::Stop), now);
            let quiet = w.next(Event::Command(Command::StopBestEffort), now);
            let nothing = w.core.active is None || !w.core.connected;
            &&& stop.core.active is None && quiet.core.active is None
            &&& stop.core.connected == w.core.connected && quiet.core.connected
                == w.core.connected
            &&& nothing ==> stop.step.reply == Some(Reply::<V>::Done(Ok(())))
            &&& nothing ==> quiet.step.reply == Some(Reply::<V>::BestEffort)
            &&& !nothing ==> stop.step.reply is None && quiet.step.reply is None
        }),
{
}

/// A transport request is answered with what came of it. Only one that could not connect
/// closes the connection, and none touches the session.
pub proof fn law_transport_answers_say_what_came_of_it<V>(
    w: Worker<V>,
    kind: TransportKind,
    text: String,
    now: Instant,
)
    requires
        w.phase == Phase::<V>::Transport(kind),
    ensures
        ({
            let done = w.next(Event::TransportDone, now);
            let failed = w.next(Event::TransportFailed(text), now);
            let cut = w.next(Event::TransportConnectFailed(text), now);
            let (stage, connect) = match kind {
                TransportKind::Pause => (Stage::Pause, Stage::PauseConnect),
                TransportKind::Play => (Stage::Play, Stage::PlayConnect),
                _ => (Stage::Stop, Stage::StopConnect),
            };
            &&& kind == TransportKind::StopBestEffort ==> done.step.reply == Some(
                Reply::<V>::BestEffort,
            ) && failed.step.reply == done.step.reply && cut.step.reply == done.step.reply
            &&& kind != TransportKind::StopBestEffort ==> {
                &&& done.step.reply == Some(Reply::<V>::Done(Ok(())))
                &&& failed.step.reply == Some(
                    Reply::<V>::Done(Err(WorkerError::Outside { stage, text })),
                )
                &&& cut.step.reply == Some(
                    Reply::<V>::Done(Err(WorkerError::Outside { stage: connect, text })),
                )
            }
            &&& done.core == w.core && failed.core == w.core
            &&& !done.step.drop_link && !failed.step.drop_link
            &&& cut.step.drop_link && !cut.core.connected && cut.core.active == w.core.active
        }),
{
}

/// A LOAD is sent as it was asked for, over the open connection or after a fresh one, and
/// is remembered for recovery.
pub proof fn law_load_is_sent_and_remembered<V>(
    w: Worker<V>,
    request: MediaLoadRequest,
    now: Instant,
)
    requires
        w.phase is Idle,
    ensures
        ({
            let n = w.next(Event::Command(Command::Load(request)), now);
            let then = Worker { core: n.core, phase: n.phase, pending: n.pending }.next(
                Event::Connected,
                now,
            );
            &&& n.core.last_load == Some(request)
            &&& n.core.last_load_at == Some(now)
            &&& n.core.active == w.core.active
            &&& n.step.reply is None
            &&& w.core.connected ==> n.step.action == Action::<V>::Load(request)
                && !n.step.drop_link
            &&& !w.core.connected ==> n.step.action == Action::<V>::Connect && then.step.action
                == Action::<V>::Load(request)
        }),
{
}

/// A LOAD that the device answered with a session makes it the active one, fresh from
/// `now`, and tells who asked.
pub proof fn law_answered_load_opens_a_session<V>(
    w: Worker<V>,
    transport_id: String,
    status: Status,
    now: Instant,
)
    requires
        w.phase is Loading,
        status.entries@.len() > 0,
    ensures
        ({
            let n = w.next(Event::Loaded { transport_id, status }, now);
            let session = MediaSessionRef {
                transport_id,
                media_session_id: status.entries@[0].media_session_id,
            };
            &&& n.core.active == Some(session)
            &&& n.core.active_since == Some(now)
            &&& n.core.ownership_loss_streak == 0 && n.core.buffering_streak == 0
            &&& n.phase is Idle
            &&& !w.phase->internal ==> n.step.reply == Some(Reply::<V>::Loaded(Ok(session)))
                && n.step.notice is None && !n.core.reload_attempted
            &&& w.phase->internal ==> n.step.reply is None && n.step.notice == Some(
                Notice::MediaRecovered,
            ) && n.core.reload_attempted
        }),
{
}

/// A LOAD that failed, or named no session, is tried once more over a fresh connection;
/// the second failure is told as it was.
pub proof fn law_failed_load_is_tried_once_more<V>(
    w: Worker<V>,
    stage: Stage,
    text: String,
    now: Instant,
)
    requires
        w.phase is Loading,
    ensures
        ({
            let n = w.next(Event::LoadFailed { stage, text }, now);
            let again = Worker { core: n.core, phase: n.phase, pending: n.pending };
            let up = again.next(Event::Connected, now);
            &&& n.core.active == w.core.active || w.phase->Loading_retried
            &&& !w.phase->Loading_retried ==> {
                &&& n.step.action == Action::<V>::Connect
                &&& n.step.drop_link && !n.core.connected
                &&& n.step.reply is None
                &&& up.step.action == Action::<V>::Load(w.phase->Loading_request)
                &&& up.phase == (Phase::<V>::Loading {
                    request: w.phase->Loading_request,
                    retried: true,
                    internal: w.phase->internal,
                })
            }
            &&& w.phase->Loading_retried && !w.phase->internal ==> n.step.reply == Some(
                Reply::<V>::Loaded(Err(WorkerError::Outside { stage, text })),
            ) && n.core == w.core
        }),
{
}

/// A LOAD answer without a session is a failed LOAD.
pub proof fn law_load_without_a_session_failed<V>(
    w: Worker<V>,
    transport_id: String,
    status: Status,
    now: Instant,
)
    requires
        w.phase is Loading,
        status.entries@.len() == 0,
    ensures
        ({
            let n = w.next(Event::Loaded { transport_id, status }, now);
            &&& !w.phase->Loading_retried ==> n.step.action == Action::<V>::Connect
                && n.step.drop_link && n.step.reply is None
            &&& w.phase->Loading_retried && !w.phase->internal ==> n.step.reply == Some(
                Reply::<V>::Loaded(Err(WorkerError::NoMediaEntries)),
            )
        }),
{
}

/// When the connection for the second LOAD fails, the first failure is told.
pub proof fn law_first_load_failure_is_told<V>(
    w: Worker<V>,
    request: MediaLoadRequest,
    err: WorkerError,
    stage: Stage,
    text: String,
    now: Instant,
)
    requires
        w.phase == Phase::<V>::Connecting(Then::LoadRetry { request, err, internal: false }),
    ensures
        ({
            let n = w.next(Event::ConnectFailed { stage, text }, now);
            &&& n.step.reply == Some(Reply::<V>::Loaded(Err(err)))
            &&& n.phase is Idle
        }),
{
}

/// The volume that is asked for is the volume that is set, and the one that was read is
/// the one that is told.
pub proof fn law_volume_is_set_and_told_as_it_is<V>(w: Worker<V>, level: V, now: Instant)
    ensures
        w.phase is Idle ==> {
            let n = w.next(Event::Command(Command::SetVolume(level)), now);
            &&& n.step.action == Action::<V>::TryReceive
            &&& n.phase == (Phase::<V>::Coalescing { level })
            &&& n.core == w.core && n.step.reply is None
        },
        w.phase == (Phase::<V>::Coalescing { level }) ==> {
            let n = w.next(Event::QueueEmpty, now);
            let up = Worker { core: n.core, phase: n.phase, pending: n.pending }.next(
                Event::Connected,
                now,
            );
            &&& w.core.connected ==> n.step.action == Action::<V>::SetVolume(level)
            &&& !w.core.connected ==> n.step.action == Action::<V>::Connect && up.step.action
                == Action::<V>::SetVolume(level)
        },
        w.phase is SettingVolume ==> w.next(Event::VolumeSet, now).step.reply == Some(
            Reply::<V>::VolumeSet(Ok(())),
        ),
        w.phase is GettingVolume ==> w.next(Event::Volume(level), now).step.reply == Some(
            Reply::<V>::Volume(Ok(level)),
        ),
        w.phase is Idle ==> {
            let n = w.next(Event::Command(Command::GetVolume), now);
            let up = Worker { core: n.core, phase: n.phase, pending: n.pending }.next(
                Event::Connected,
                now,
            );
            &&& w.core.connected ==> n.step.action == Action::<V>::GetVolume
            &&& !w.core.connected ==> n.step.action == Action::<V>::Connect && up.step.action
                == Action::<V>::GetVolume
        },
{
}

/// A volume request that failed is repeated, with the same level, over a fresh connection;
/// the second failure is told in its own words, and so is a connection that does not come.
pub proof fn law_failed_volume_is_tried_once_more<V>(
    w: Worker<V>,
    stage: Stage,
    text: String,
    now: Instant,
)
    ensures
        w.phase is SettingVolume ==> {
            let n = w.next(Event::VolumeSetFailed(text), now);
            let again = Worker { core: n.core, phase: n.phase, pending: n.pending };
            &&& !w.phase->SettingVolume_retried ==> {
                &&& n.step.action == Action::<V>::Connect
                &&& n.step.drop_link && !n.core.connected && n.step.reply is None
                &&& again.next(Event::Connected, now).step.action == Action::<V>::SetVolume(
                    w.phase->SettingVolume_level,
                )
                &&& again.next(Event::ConnectFailed { stage, text }, now).step.reply == Some(
                    Reply::<V>::VolumeSet(Err(WorkerError::Outside { stage, text })),
                )
            }
            &&& w.phase->SettingVolume_retried ==> n.step.reply == Some(
                Reply::<V>::VolumeSet(Err(WorkerError::Outside { stage: Stage::SetVolume, text })),
            )
        },
        w.phase is GettingVolume ==> {
            let n = w.next(Event::VolumeFailed(text), now);
            let again = Worker { core: n.core, phase: n.phase, pending: n.pending };
            &&& !w.phase->GettingVolume_retried ==> {
                &&& n.step.action == Action::<V>::Connect
                &&& n.step.drop_link && !n.core.connected && n.step.reply is None
                &&& again.next(Event::Connected, now).step.action == Action::<V>::GetVolume
                &&& again.next(Event::ConnectFailed { stage, text }, now).step.reply == Some(
                    Reply::<V>::Volume(Err(WorkerError::Outside { stage, text })),
                )
            }
            &&& w.phase->GettingVolume_retried ==> n.step.reply == Some(
                Reply::<V>::Volume(Err(WorkerError::Outside { stage: Stage::GetVolume, text })),
            )
        },
{
}

/// A command that is found while volumes are merged is held and taken up next, exactly as
/// if it had come then.
pub proof fn law_held_command_is_taken_up_next<V>(
    w: Worker<V>,
    level: V,
    other: Command<V>,
    now: Instant,
)
    ensures
        w.phase == (Phase::<V>::Coalescing { level }) && !(other is SetVolume) ==> {
            let n = w.next(Event::Queued(other), now);
            &&& n.pending == Some(other)
            &&& w.core.connected ==> n.step.action == Action::<V>::SetVolume(level)
            &&& !w.core.connected ==> n.step.action == Action::<V>::Connect
        },
        w.phase is SettingVolume && w.pending == Some(other) ==> {
            let n = w.next(Event::VolumeSet, now);
            &&& n.pending == Some(other)
            &&& n.step.action == Action::<V>::Proceed
        },
        w.phase is Idle && w.pending == Some(other) ==> w.next(Event::Proceed, now) == (Worker {
            core: w.core,
            phase: w.phase,
            pending: None,
        }).next(Event::Command(other), now),
        w.phase is SettingVolume && w.pending is None ==> w.next(Event::VolumeSet, now).step.action
            == (Action::<V>::Receive { wait: w.core.loop_wait(now) }),
{
}

/// A connection that comes up is fresh: reachable, no failed attempts, a heartbeat due in
/// four seconds. One that was kept for its own sake is followed by nothing else.
pub proof fn law_connection_comes_up_fresh<V>(w: Worker<V>, now: Instant)
    requires
        w.phase is Connecting,
        now + HEARTBEAT_INTERVAL <= LATEST_INSTANT,
    ensures
        ({
            let n = w.next(Event::Connected, now);
            &&& n.core.connected && n.core.reachable
            &&& n.core.reconnect_attempt == 0
            &&& n.core.unreachable_since is None
            &&& n.core.next_ping_at == now + 4_000_000_000
            &&& n.core.active == w.core.active || !(w.phase->Connecting_0 is Loop)
            &&& w.phase->Connecting_0 is Loop ==> n.phase is Idle && n.step.reply is None
                && n.step.notice is None
            &&& !n.step.drop_link
        }),
{
}

/// A connection attempt that fails is counted, and the next one waits about 2^k seconds
/// after `k` failures before it, at least 0.8 s and less than 72 s; since when the device
/// is away is kept from the first failure.
pub proof fn law_failed_attempts_back_off<V>(w: Worker<V>, stage: Stage, text: String, now: Instant)
    requires
        w.phase is Connecting,
        w.core.reconnect_attempt < u32::MAX,
        now + HEARTBEAT_INTERVAL <= LATEST_INSTANT,
    ensures
        ({
            let n = w.next(Event::ConnectFailed { stage, text }, now);
            let k = w.core.reconnect_attempt;
            let nominal = if k < 6 {
                1_000_000_000 * vstd::arithmetic::power2::pow2(k as nat)
            } else {
                60_000_000_000
            };
            let delay = n.core.next_reconnect_at - now;
            &&& n.core.reconnect_attempt == k + 1
            &&& nominal * 8 <= delay * 10 < nominal * 12
            &&& !n.core.reachable
            &&& n.core.connected == w.core.connected
            &&& w.core.reachable || w.core.unreachable_since is None ==> n.core.unreachable_since
                == Some(now)
            &&& !w.core.reachable && w.core.unreachable_since is Some ==> n.core.unreachable_since
                == w.core.unreachable_since
            &&& w.phase->Connecting_0 is Loop ==> n.core.active == w.core.active && n.phase is Idle
                && n.step.reply is None && n.step.notice is None
        }),
{
    pool::law_backoff_is_exponential(w.core.reconnect_attempt, w.core.seed());
    vstd::arithmetic::power2::lemma2_to64();
}

/// An idle tick serves an open connection, and opens a closed one when the backoff is
/// over and not before.
pub proof fn law_idle_tick_serves_or_reconnects<V>(w: Worker<V>, now: Instant)
    requires
        w.phase is Idle,
    ensures
        ({
            let n = w.next(Event::Timeout, now);
            &&& w.core.connected ==> n.step.action == Action::<V>::Drain
            &&& !w.core.connected && now >= w.core.next_reconnect_at ==> n.step.action == Action::<
                V,
            >::Connect
            &&& !w.core.connected && now < w.core.next_reconnect_at ==> n.phase is Idle
            &&& n.core == w.core
            &&& n.step.reply is None && n.step.notice is None && !n.step.drop_link
        }),
{
}

/// After draining, a heartbeat goes out when four seconds have passed since the last one.
/// With it, or without one due, a session that is at least three seconds old is probed,
/// and no other.
pub proof fn law_heartbeats_and_probes_come_when_due<V>(w: Worker<V>, now: Instant)
    requires
        now + HEARTBEAT_INTERVAL <= LATEST_INSTANT,
        w.phase is Draining || w.phase is Pinging,
    ensures
        ({
            let n = if w.phase is Draining {
                w.next(Event::Drained, now)
            } else {
                w.next(Event::Pinged, now)
            };
            let ping = w.phase is Draining && now >= w.core.next_ping_at;
            let probe = w.core.connected && w.core.active is Some && (
            w.core.active_since matches Some(since) && now - since >= 3_000_000_000);
            &&& n.step.action == Action::<V>::Ping <==> ping
            &&& ping ==> n.core.next_ping_at == now + 4_000_000_000
            &&& !ping && probe ==> n.step.action == Action::<V>::Probe(w.core.active->0)
                && n.phase is Probing
            &&& !ping && !probe ==> n.phase is Idle
            &&& n.core.active == w.core.active && n.core.connected == w.core.connected
            &&& n.step.reply is None && n.step.notice is None && !n.step.drop_link
        }),
{
}

/// A heartbeat that fails closes the connection and opens another; only when that fails
/// too does the session look lost, and nothing else does.
pub proof fn law_failed_heartbeat_reconnects_first<V>(
    w: Worker<V>,
    stage: Stage,
    text: String,
    now: Instant,
)
    requires
        w.phase is Pinging,
    ensures
        ({
            let n = w.next(Event::PingFailed, now);
            let again = Worker { core: n.core, phase: n.phase, pending: n.pending };
            let down = again.next(Event::ConnectFailed { stage, text }, now);
            let up = again.next(Event::Connected, now);
            &&& n.step.action == Action::<V>::Connect && n.step.drop_link && !n.core.connected
            &&& n.core.active == w.core.active && n.core.ownership_loss_streak
                == w.core.ownership_loss_streak && n.step.notice is None
            &&& up.core.active == w.core.active && up.step.notice is None
            &&& w.core.active is Some && w.core.ownership_loss_streak == 0
                ==> down.core.ownership_loss_streak == 1 && down.core.active == w.core.active
                && down.step.notice is None
            &&& w.core.active is Some && w.core.ownership_loss_streak >= 1 ==> down.core.active
                is None && down.step.notice == Some(Notice::OwnershipLost)
            &&& w.core.active is None ==> down.step.notice is None
        }),
{
}

/// A probe that finds our session playing, buffering briefly or paused clears every
/// suspicion and keeps everything else.
pub proof fn law_found_session_clears_suspicion<V>(
    w: Worker<V>,
    listed: bool,
    media: MediaProbe,
    now: Instant,
)
    requires
        w.phase is Probing,
        media.failure is None,
        media.idle_reason is None,
        media.session_present == Some(true),
        !media.buffering || w.core.buffering_streak < 2,
    ensures
        ({
            let n = w.next(Event::Probed { listed, media }, now);
            &&& n.core.active == w.core.active && n.core.connected == w.core.connected
            &&& n.core.ownership_loss_streak == 0 && !n.core.reload_attempted
            &&& n.core.buffering_streak == if media.buffering {
                w.core.buffering_streak + 1
            } else {
                0
            }
            &&& n.step.notice is None && n.step.reply is None && !n.step.drop_link
            &&& n.phase is Idle
        }),
{
}

/// A probe that fails on the wire opens another connection and suspects nobody.
pub proof fn law_wire_failure_reconnects<V>(
    w: Worker<V>,
    listed: bool,
    media: MediaProbe,
    now: Instant,
)
    requires
        w.phase is Probing,
        media.failure == Some(pool::ProbeFailureKind::Transport),
    ensures
        ({
            let n = w.next(Event::Probed { listed, media }, now);
            &&& n.step.action == Action::<V>::Connect && n.step.drop_link && !n.core.connected
            &&& n.core.active == w.core.active
            &&& n.core.ownership_loss_streak == w.core.ownership_loss_streak
            &&& n.step.notice is None
        }),
{
}

/// A session that stopped by itself, or buffers for the third probe in a row, is loaded
/// again with the last request, once, unless it was loaded within the last ten seconds;
/// else it looks lost.
pub proof fn law_stopped_session_is_reloaded<V>(
    w: Worker<V>,
    listed: bool,
    media: MediaProbe,
    request: MediaLoadRequest,
    now: Instant,
)
    requires
        w.phase is Probing,
        w.core.connected,
        w.core.last_load == Some(request),
        w.core.ownership_loss_streak == 0,
        media.failure is None,
        media.idle_reason == Some(pool::IdleReasonKind::Recoverable) || (media.idle_reason is None
            && media.buffering && w.core.buffering_streak >= 2),
    ensures
        ({
            let n = w.next(Event::Probed { listed, media }, now);
            let recent = w.core.last_load_at matches Some(t) && now - t < 10_000_000_000;
            &&& !w.core.reload_attempted && !recent ==> {
                &&& n.step.action == Action::<V>::Load(request)
                &&& n.phase == (Phase::<V>::Loading { request, retried: false, internal: true })
                &&& n.core.last_load_at == Some(now)
                &&& n.step.notice is None && n.core.ownership_loss_streak == 0
            }
            &&& w.core.reload_attempted || recent ==> {
                &&& n.core.ownership_loss_streak == 1
                &&& n.core.active == w.core.active && n.phase is Idle
            }
        }),
{
}

/// A session that another sender interrupted, or that the device does not know, looks
/// lost; at the second time in a row it is given up.
pub proof fn law_taken_session_is_given_up<V>(
    w: Worker<V>,
    listed: bool,
    media: MediaProbe,
    now: Instant,
)
    requires
        w.phase is Probing,
        media.failure is None,
        media.idle_reason == Some(pool::IdleReasonKind::Interrupted) || (media.idle_reason is None
            && !media.buffering && (media.session_present == Some(false) || (
        media.session_present is None && !listed))),
    ensures
        ({
            let n = w.next(Event::Probed { listed, media }, now);
            &&& w.core.ownership_loss_streak == 0 ==> n.core.ownership_loss_streak == 1
                && n.core.active == w.core.active && n.step.notice is None
            &&& w.core.ownership_loss_streak >= 1 ==> n.core.active is None && n.step.notice
                == Some(Notice::OwnershipLost)
            &&& n.core.connected == w.core.connected && !n.step.drop_link
        }),
{
}

/// A worker ends when it is told to or when nobody can tell it anything: it closes the
/// connection and forgets the session.
pub proof fn law_worker_ends_cleanly<V>(w: Worker<V>, now: Instant)
    requires
        w.phase is Idle,
    ensures
        ({
            let told = w.next(Event::Command(Command::Shutdown), now);
            let closed = w.next(Event::ChannelClosed, now);
            &&& told.step.action == Action::<V>::Exit && closed.step.action == Action::<V>::Exit
            &&& told.step.drop_link && closed.step.drop_link
            &&& told.core.active is None && closed.core.active is None
            &&& !told.core.connected && !closed.core.connected
            &&& told.phase is Ended && closed.phase is Ended
        }),
{
}

/// Another endpoint is taken over at once: the old connection and session go, and the new
/// address is dialled without waiting for a backoff.
pub proof fn law_moved_device_is_dialled_at_once<V>(
    w: Worker<V>,
    host: String,
    hostname: String,
    port: u16,
    now: Instant,
)
    requires
        w.phase is Idle,
        host@ != w.core.host@ || hostname@ != w.core.hostname@ || port != w.core.port,
    ensures
        ({
            let n = w.next(Event::Command(Command::UpdateEndpoint { host, hostname, port }), now);
            &&& n.core.host == host && n.core.hostname == hostname && n.core.port == port
            &&& n.core.active is None && !n.core.connected && n.step.drop_link
            &&& n.core.reconnect_attempt == 0 && n.core.next_reconnect_at == now
            &&& n.step.action == Action::<V>::Connect
        }),
{
}

/// An idle worker sleeps until the next heartbeat or attempt, not longer than four
/// seconds, and 50 ms when that is already due.
pub proof fn law_idle_worker_sleeps_until_its_next_duty(core: Core, now: Instant)
    ensures
        ({
            let duty = if core.connected {
                core.next_ping_at
            } else {
                core.next_reconnect_at
            };
            let wait = core.loop_wait(now);
            &&& now >= duty ==> wait == 50_000_000
            &&& now < duty && duty - now < 4_000_000_000 ==> now + wait == duty
            &&& now < duty && duty - now >= 4_000_000_000 ==> wait == 4_000_000_000
        }),
{
}

/// An outside error keeps its own words, behind those of the step that failed.
pub proof fn law_outside_words_are_kept(stage: Stage, text: String)
    ensures
        ({
            let words = WorkerError::Outside { stage, text }.text();
            &&& words.len() >= text@.len()
            &&& words.skip(words.len() - text@.len()) == text@
            &&& stage == Stage::Connect ==> words == text@
        }),
{
    reveal_strlit("");
    let words = WorkerError::Outside { stage, text }.text();
    assert(words.skip(words.len() - text@.len()) =~= text@);
    if stage == Stage::Connect {
        assert(words =~= text@);
    }
}

/// A worker hears what it waits for: an idle one a command, that it waited long enough or
/// that no command will come, and its held command when it holds one; any other the
/// outcome of the action that it asked for; one that has ended nothing.
pub proof fn law_worker_hears_what_it_waits_for<V>(w: Worker<V>, event: Event<V>)
    ensures
        event is Command || event is Timeout || event is ChannelClosed ==> (w.expects(event)
            <==> w.phase is Idle),
        event is Proceed ==> (w.expects(event) <==> w.phase is Idle && w.pending is Some),
        event is Queued || event is QueueEmpty ==> (w.expects(event) <==> w.phase is Coalescing),
        event is Connected || event is ConnectFailed ==> (w.expects(event) <==> w.phase
            is Connecting),
        event is Loaded || event is LoadFailed ==> (w.expects(event) <==> w.phase is Loading),
        event is VolumeSet || event is VolumeSetFailed ==> (w.expects(event) <==> w.phase
            is SettingVolume),
        event is Volume || event is VolumeFailed ==> (w.expects(event) <==> w.phase
            is GettingVolume),
        event is TransportDone || event is TransportConnectFailed || event is TransportFailed ==> (
        w.expects(event) <==> w.phase is Transport),
        event is Drained ==> (w.expects(event) <==> w.phase is Draining),
        event is Pinged || event is PingFailed ==> (w.expects(event) <==> w.phase is Pinging),
        event is Probed ==> (w.expects(event) <==> w.phase is Probing),
{
}

/// The link is dropped exactly when the connection is given up: a step that drops it
/// leaves the worker without a connection, and no connection is given up without it.
#[verifier::rlimit(50)]
pub proof fn law_link_is_dropped_with_the_connection<V>(w: Worker<V>, event: Event<V>, now: Instant)
    requires
        w.expects(event),
    ensures
        w.next(event, now).step.drop_link ==> !w.next(event, now).core.connected,
        w.core.connected && !w.next(event, now).core.connected ==> w.next(event, now).step.drop_link,
{
}

/// A held command stays until it is taken up, and one is held only when it came while
/// volume changes were gathered.
#[verifier::rlimit(50)]
pub proof fn law_held_command_is_not_lost<V>(w: Worker<V>, event: Event<V>, now: Instant)
    requires
        w.expects(event),
    ensures
        event is Proceed ==> w.next(event, now).pending is None,
        event matches Event::Queued(other) && !(other is SetVolume) ==> w.next(event, now).pending
            is Some,
        event matches Event::Queued(other) ==> (other is SetVolume || w.next(event, now).pending
            == Some(other)),
        !(event is Proceed) && !(event is Queued) ==> w.next(event, now).pending == w.pending,
        event matches Event::Queued(other) ==> (other is SetVolume ==> w.next(event, now).pending
            == w.pending),
{
}

/// A worker stays with its device. Where the device is reached changes only when it is
/// told so, and what was last loaded only by a command to load.
#[verifier::rlimit(50)]
pub proof fn law_worker_stays_with_its_device<V>(w: Worker<V>, event: Event<V>, now: Instant)
    requires
        w.expects(event),
    ensures
        w.next(event, now).core.device_id == w.core.device_id,
        !(event is Command) && !(event is Proceed) ==> {
            let c = w.next(event, now).core;
            &&& c.host == w.core.host && c.hostname == w.core.hostname && c.port == w.core.port
            &&& c.last_load == w.core.last_load
        },
        event matches Event::Command(command) && !(command is UpdateEndpoint) ==> {
            let c = w.next(event, now).core;
            &&& c.host == w.core.host && c.hostname == w.core.hostname && c.port == w.core.port
        },
        event is Proceed && !(w.pending->0 is UpdateEndpoint) ==> {
            let c = w.next(event, now).core;
            &&& c.host == w.core.host && c.hostname == w.core.hostname && c.port == w.core.port
        },
        event matches Event::Command(command) && !(command is Load) ==> w.next(
            event,
            now,
        ).core.last_load == w.core.last_load,
        event is Proceed && !(w.pending->0 is Load) ==> w.next(event, now).core.last_load
            == w.core.last_load,
{
}

/// A volume request that fails over the fresh connection as well has failed: it is told,
/// and not sent a third time.
pub proof fn law_second_volume_failure_is_the_last<V>(
    w: Worker<V>,
    first: String,
    second: String,
    now: Instant,
)
    ensures
        w.phase is SettingVolume && !w.phase->SettingVolume_retried ==> {
            let a = w.next(Event::VolumeSetFailed(first), now);
            let aw = Worker { core: a.core, phase: a.phase, pending: a.pending };
            let b = aw.next(Event::Connected, now);
            let bw = Worker { core: b.core, phase: b.phase, pending: b.pending };
            &&& bw.expects(Event::VolumeSetFailed(second))
            &&& bw.next(Event::VolumeSetFailed(second), now).step.reply is Some
            &&& bw.next(Event::VolumeSetFailed(second), now).phase is Idle
        },
        w.phase is GettingVolume && !w.phase->GettingVolume_retried ==> {
            let a = w.next(Event::VolumeFailed(first), now);
            let aw = Worker { core: a.core, phase: a.phase, pending: a.pending };
            let b = aw.next(Event::Connected, now);
            let bw = Worker { core: b.core, phase: b.phase, pending: b.pending };
            &&& bw.expects(Event::VolumeFailed(second))
            &&& bw.next(Event::VolumeFailed(second), now).step.reply is Some
            &&& bw.next(Event::VolumeFailed(second), now).phase is Idle
        },
{
}

/// A device that has a hostname is now reached elsewhere.
pub open spec fn is_new_host(
    hostname: Seq<char>,
    host: Seq<char>,
    resolved: Option<Seq<char>>,
) -> bool {
    hostname.len() > 0 && (resolved matches Some(ip) && ip != host)
}

/// An address is taken over exactly when the device has a hostname, the hostname stands
/// for an address, and that is another than before.
pub proof fn law_only_a_new_address_is_taken_over(
    hostname: Seq<char>,
    host: Seq<char>,
    ip: Seq<char>,
)
    ensures
        is_new_host(hostname, host, Some(ip)) <==> hostname.len() > 0 && ip != host,
        !is_new_host(hostname, host, None),
        !is_new_host(Seq::empty(), host, Some(ip)),
{
}

} // verus!
