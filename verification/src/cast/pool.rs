//! Policies of the warm Cast control plane.
//!
//! Each Chromecast has one worker that keeps a control connection open while the
//! device is idle. The rules here decide when that connection is retried, whether a
//! playing session is still ours, and when a session is given up. Parse errors are
//! never taken for theft, and a session is lost only after it has looked lost twice.

use vstd::prelude::*;
use crate::cast::{IdleReason, PlayerState, Status};
use crate::clock::{Duration, NANOS_PER_MILLI};
use crate::error::{joined, Error};
use crate::registry::Device;
use crate::table::Table;
use crate::text;
use crate::text::{chars_of, contains, push_str, str_eq, string_of, to_ascii_lowercase};

verus! {

/// Heartbeat / PING cadence on the warm control-plane connection.
pub const HEARTBEAT_INTERVAL: Duration = 4_000_000_000;

/// Wall-clock wait for load / stop / pause / play worker replies.
pub const COMMAND_TIMEOUT: Duration = 6_000_000_000;

/// Wall-clock wait for volume get/set worker replies.
pub const VOLUME_TIMEOUT: Duration = 3_000_000_000;

/// Best-effort wait when joining a worker after shutdown.
pub const JOIN_TIMEOUT: Duration = 3_000_000_000;

/// Skip ownership checks for this long after a successful LOAD (Cast settle time).
pub const OWNERSHIP_GRACE: Duration = 3_000_000_000;

/// Consecutive probes that look stolen before declaring ownership lost.
pub const OWNERSHIP_LOSS_CONFIRMATIONS: u8 = 2;

/// Consecutive BUFFERING probes before attempting an internal re-LOAD.
pub const BUFFERING_STUCK_PROBES: u8 = 3;

/// Skip the internal re-LOAD if a LOAD command arrived within this window.
pub const RECENT_LOAD_GUARD: Duration = 10_000_000_000;

/// Hard deadline for any single blocking Cast operation.
pub const WORKER_OP_DEADLINE: Duration = 30_000_000_000;

/// Initial reconnect backoff in milliseconds.
pub const RECONNECT_BACKOFF_START_MILLIS: u64 = 1_000;

/// Cap on the reconnect backoff in milliseconds.
pub const RECONNECT_BACKOFF_CAP_MILLIS: u64 = 60_000;

/// Most unsolicited messages drained per idle tick.
pub const UNSOLICITED_DRAIN_LIMIT: u32 = 8;

/// Whether our Cast media transport is still listed among receiver applications.
#[must_use]
pub fn cast_transport_still_owned(applications_transport_ids: &[&str], ours: &str) -> (r: bool)
    ensures
        r == exists|i: int|
            0 <= i < applications_transport_ids@.len() && (
            #[trigger] applications_transport_ids@[i])@ == ours@,
{
    let mut i: usize = 0;
    while i < applications_transport_ids.len()
        invariant
            i <= applications_transport_ids.len(),
            forall|j: int|
                0 <= j < i ==> (#[trigger] applications_transport_ids@[j])@ != ours@,
        decreases applications_transport_ids.len() - i,
    {
        if str_eq(applications_transport_ids[i], ours) {
            return true;
        }
        i += 1;
    }
    false
}

/// Kind of failure when a status probe errors.
#[derive(Debug, Clone, Copy, PartialEq, Eq, Structural)]
pub enum ProbeFailureKind {
    /// I/O, timeout, TLS: the device may be unreachable; reconnect path.
    Transport,
    /// Deserialization / parsing: the device answered; do not count as theft.
    Parse,
}

/// An error of the Cast client.
#[derive(Debug)]
pub enum CastClientError {
    /// Internal failure, described in words.
    Internal(String),
    /// I/O failure.
    Io,
    /// Protobuf framing failure.
    Protobuf,
    /// JSON failure.
    Serialization,
    /// Parse failure.
    Parsing,
    /// Invalid DNS name.
    Dns,
    /// TLS failure.
    Tls,
    /// Unexpected namespace.
    Namespace,
    /// Timeout.
    Timeout,
}

/// An internal failure whose words speak of the connection.
pub open spec fn speaks_of_connection(message: Seq<char>) -> bool {
    let m = text::lower(message);
    text::has_sub(m, "timed out"@) || text::has_sub(m, "timeout"@) || text::has_sub(m, "broken pipe"@) || text::has_sub(
        m,
        "connection"@,
    )
}

/// The kind of a client error.
pub open spec fn failure_kind(err: CastClientError) -> ProbeFailureKind {
    match err {
        CastClientError::Io
        | CastClientError::Tls
        | CastClientError::Timeout
        | CastClientError::Dns
        | CastClientError::Protobuf => ProbeFailureKind::Transport,
        CastClientError::Serialization
        | CastClientError::Parsing
        | CastClientError::Namespace => ProbeFailureKind::Parse,
        CastClientError::Internal(m) => if speaks_of_connection(m@) {
            ProbeFailureKind::Transport
        } else {
            ProbeFailureKind::Parse
        },
    }
}

/// Whether `text` holds `pattern`.
fn holds(text: &Vec<char>, pattern: &str) -> (r: bool)
    ensures
        r == text::has_sub(text@, pattern@),
{
    let p = chars_of(pattern);
    contains(text.as_slice(), p.as_slice())
}

/// Classify a client error into transport vs parse for ownership probes.
#[must_use]
pub fn classify_cast_probe_error(err: &CastClientError) -> (r: ProbeFailureKind)
    ensures
        r == failure_kind(*err),
{
    match err {
        CastClientError::Io
        | CastClientError::Tls
        | CastClientError::Timeout
        | CastClientError::Dns
        | CastClientError::Protobuf => ProbeFailureKind::Transport,
        CastClientError::Serialization
        | CastClientError::Parsing
        | CastClientError::Namespace => ProbeFailureKind::Parse,
        CastClientError::Internal(m) => {
            let c = chars_of(m.as_str());
            let low = to_ascii_lowercase(c.as_slice());
            if holds(&low, "timed out") || holds(&low, "timeout") || holds(&low, "broken pipe")
                || holds(&low, "connection") {
                ProbeFailureKind::Transport
            } else {
                ProbeFailureKind::Parse
            }
        },
    }
}

/// Result of one ownership evaluation.
#[derive(Debug, Clone, Copy, PartialEq, Eq, Structural)]
pub enum OwnershipAction {
    /// Still our session; reset loss streak.
    Owned,
    /// Genuine steal / missing session / unrecoverable IDLE; count lost streak.
    LostSignal,
    /// Parse quirk; do not change loss streak.
    Inconclusive,
    /// Transport blip; reconnect, do not count as lost yet.
    SuspectReconnect,
    /// Recoverable IDLE / stuck buffering: attempt one internal re-LOAD.
    AttemptReload,
}

/// IDLE reason classes used by the ownership policy.
#[derive(Debug, Clone, Copy, PartialEq, Eq, Structural)]
pub enum IdleReasonKind {
    /// Another sender took the player: genuine steal.
    Interrupted,
    /// Recoverable player idle (error / finished / cancelled).
    Recoverable,
}

/// Inputs for one ownership evaluation.
#[derive(Debug, Clone, Copy, PartialEq, Eq, Structural)]
pub struct OwnershipInputs {
    /// Our transport id appears in receiver applications.
    pub transport_listed: bool,
    /// Media status returned an entry for our session (`None` if the query failed).
    pub media_session_present: Option<bool>,
    /// When session present and IDLE, classified idle reason.
    pub idle_reason: Option<IdleReasonKind>,
    /// Session present and player is BUFFERING.
    pub buffering: bool,
    /// Consecutive BUFFERING probes observed so far (including this one if buffering).
    pub buffering_streak: u8,
    /// Media/receiver query failure classification.
    pub media_failure: Option<ProbeFailureKind>,
    /// We already tried one internal re-LOAD for this trouble episode.
    pub reload_attempted: bool,
    /// A LOAD command arrived within the rollover guard window.
    pub load_within_guard: bool,
}

/// A player that stopped by itself is reloaded once, unless a LOAD is recent.
pub open spec fn reload_or_lost(reload_attempted: bool, load_within_guard: bool) -> OwnershipAction {
    if !reload_attempted && !load_within_guard {
        OwnershipAction::AttemptReload
    } else {
        OwnershipAction::LostSignal
    }
}

/// The ownership policy: a failed query decides first, then the idle reason, then
/// stuck buffering, then whether the session is there.
pub open spec fn policy(i: OwnershipInputs) -> OwnershipAction {
    match i.media_failure {
        Some(ProbeFailureKind::Parse) => OwnershipAction::Inconclusive,
        Some(ProbeFailureKind::Transport) => OwnershipAction::SuspectReconnect,
        None => match i.idle_reason {
            Some(IdleReasonKind::Interrupted) => OwnershipAction::LostSignal,
            Some(IdleReasonKind::Recoverable) => reload_or_lost(
                i.reload_attempted,
                i.load_within_guard,
            ),
            None => if i.buffering && i.buffering_streak >= BUFFERING_STUCK_PROBES {
                reload_or_lost(i.reload_attempted, i.load_within_guard)
            } else {
                match i.media_session_present {
                    Some(true) => OwnershipAction::Owned,
                    Some(false) => OwnershipAction::LostSignal,
                    None => if i.transport_listed {
                        OwnershipAction::Owned
                    } else {
                        OwnershipAction::LostSignal
                    },
                }
            },
        },
    }
}

/// Combine probe signals into an ownership action.
#[must_use]
pub fn ownership_action(inputs: OwnershipInputs) -> (r: OwnershipAction)
    ensures
        r == policy(inputs),
{
    if let Some(fail) = inputs.media_failure {
        return match fail {
            ProbeFailureKind::Parse => OwnershipAction::Inconclusive,
            ProbeFailureKind::Transport => OwnershipAction::SuspectReconnect,
        };
    }
    if let Some(reason) = inputs.idle_reason {
        return match reason {
            IdleReasonKind::Interrupted => OwnershipAction::LostSignal,
            IdleReasonKind::Recoverable => recoverable_or_lost(
                inputs.reload_attempted,
                inputs.load_within_guard,
            ),
        };
    }
    if inputs.buffering && inputs.buffering_streak >= BUFFERING_STUCK_PROBES {
        return recoverable_or_lost(inputs.reload_attempted, inputs.load_within_guard);
    }
    match inputs.media_session_present {
        Some(present) => if present {
            OwnershipAction::Owned
        } else {
            OwnershipAction::LostSignal
        },
        None => if inputs.transport_listed {
            OwnershipAction::Owned
        } else {
            OwnershipAction::LostSignal
        },
    }
}

/// A player that stopped by itself is reloaded once, unless a LOAD is recent.
pub fn recoverable_or_lost(reload_attempted: bool, load_within_guard: bool) -> (r: OwnershipAction)
    ensures
        r == reload_or_lost(reload_attempted, load_within_guard),
{
    if !reload_attempted && !load_within_guard {
        OwnershipAction::AttemptReload
    } else {
        OwnershipAction::LostSignal
    }
}

/// A probe that fails to parse, or fails on the wire, never counts toward loss.
pub proof fn law_failed_probe_is_not_theft(i: OwnershipInputs)
    requires
        i.media_failure is Some,
    ensures
        policy(i) != OwnershipAction::LostSignal,
        policy(i) != OwnershipAction::AttemptReload,
{
}

/// A session that another sender interrupted is never reloaded over it.
pub proof fn law_interrupted_session_is_not_reloaded(i: OwnershipInputs)
    requires
        i.idle_reason == Some(IdleReasonKind::Interrupted),
    ensures
        policy(i) != OwnershipAction::AttemptReload,
{
}

/// A re-LOAD is attempted at most once per episode and never right after a LOAD.
pub proof fn law_reload_happens_at_most_once(i: OwnershipInputs)
    requires
        i.reload_attempted || i.load_within_guard,
    ensures
        policy(i) != OwnershipAction::AttemptReload,
{
}

/// What a media status query told about our session.
#[derive(Debug, Clone, Copy, PartialEq, Eq, Structural)]
pub struct MediaProbe {
    /// The status has an entry for our session (`None` if the query failed).
    pub session_present: Option<bool>,
    /// Why the session is idle, if it is.
    pub idle_reason: Option<IdleReasonKind>,
    /// The session is buffering.
    pub buffering: bool,
    /// Why the query failed, if it did.
    pub failure: Option<ProbeFailureKind>,
}

/// Answer to a media status query.
#[derive(Debug)]
pub enum MediaReply {
    /// There is no connection to ask on.
    NotConnected,
    /// The receiver answered.
    Status(Status),
    /// The query failed.
    Failed(CastClientError),
}

/// Position `i` holds the first entry for a media session.
pub open spec fn is_entry_of(status: Status, media_session_id: i32, i: int) -> bool {
    &&& 0 <= i < status.entries@.len()
    &&& status.entries@[i].media_session_id == media_session_id
    &&& forall|j: int|
        0 <= j < i ==> (#[trigger] status.entries@[j]).media_session_id != media_session_id
}

/// The class of an idle player: interrupted, or recoverable for every other reason
/// and for none.
pub open spec fn idle_class(state: PlayerState, reason: Option<IdleReason>) -> Option<
    IdleReasonKind,
> {
    if state == PlayerState::Idle {
        if reason == Some(IdleReason::Interrupted) {
            Some(IdleReasonKind::Interrupted)
        } else {
            Some(IdleReasonKind::Recoverable)
        }
    } else {
        None
    }
}

/// A probe that failed.
pub open spec fn failed_probe(kind: ProbeFailureKind) -> MediaProbe {
    MediaProbe { session_present: None, idle_reason: None, buffering: false, failure: Some(kind) }
}

/// Read our media session out of a status answer.
pub fn probe_media_session(reply: &MediaReply, media_session_id: i32) -> (p: MediaProbe)
    ensures
        match *reply {
            MediaReply::NotConnected => p == failed_probe(ProbeFailureKind::Transport),
            MediaReply::Failed(err) => p == failed_probe(failure_kind(err)),
            MediaReply::Status(status) => if exists|i: int|
                is_entry_of(status, media_session_id, i) {
                exists|i: int|
                    {
                        let e = #[trigger] status.entries@[i];
                        &&& is_entry_of(status, media_session_id, i)
                        &&& p == (MediaProbe {
                            session_present: Some(true),
                            idle_reason: idle_class(e.player_state, e.idle_reason),
                            buffering: e.player_state == PlayerState::Buffering,
                            failure: None,
                        })
                    }
            } else {
                p == (MediaProbe {
                    session_present: Some(false),
                    idle_reason: None,
                    buffering: false,
                    failure: None,
                })
            },
        },
        is_probe_of(*reply, media_session_id, p),
{
    match reply {
        MediaReply::NotConnected => MediaProbe {
            session_present: None,
            idle_reason: None,
            buffering: false,
            failure: Some(ProbeFailureKind::Transport),
        },
        MediaReply::Failed(err) => MediaProbe {
            session_present: None,
            idle_reason: None,
            buffering: false,
            failure: Some(classify_cast_probe_error(err)),
        },
        MediaReply::Status(status) => {
            let mut i: usize = 0;
            while i < status.entries.len()
                invariant
                    i <= status.entries.len(),
                    *reply == MediaReply::Status(*status),
                    forall|j: int|
                        0 <= j < i ==> (#[trigger] status.entries@[j]).media_session_id
                            != media_session_id,
                decreases status.entries.len() - i,
            {
                let e = status.entries[i];
                if e.media_session_id == media_session_id {
                    let idle_reason = match e.player_state {
                        PlayerState::Idle => match e.idle_reason {
                            Some(IdleReason::Interrupted) => Some(IdleReasonKind::Interrupted),
                            _ => Some(IdleReasonKind::Recoverable),
                        },
                        _ => None,
                    };
                    let buffering: bool = match e.player_state {
                        PlayerState::Buffering => true,
                        _ => false,
                    };
                    proof {
                        assert(is_entry_of(*status, media_session_id, i as int));
                        assert(status.entries@[i as int] == e);
                    }
                    return MediaProbe {
                        session_present: Some(true),
                        idle_reason,
                        buffering,
                        failure: None,
                    };
                }
                i += 1;
            }
            proof {
                assert forall|k: int| !is_entry_of(*status, media_session_id, k) by {
                    if 0 <= k < status.entries@.len() {
                        assert(status.entries@[k].media_session_id != media_session_id);
                    }
                }
            }
            MediaProbe {
                session_present: Some(false),
                idle_reason: None,
                buffering: false,
                failure: None,
            }
        },
    }
}

/// What came in while draining unsolicited messages.
#[derive(Debug, Clone, Copy, PartialEq, Eq, Structural)]
pub enum Drained {
    /// The device pinged and the pong went out.
    Answered,
    /// The device pinged and the pong failed.
    PongFailed,
    /// Any other message.
    Other,
    /// The read failed.
    Failed(ProbeFailureKind),
}

/// Draining goes on after `seen` messages: fewer than the limit, the last one read.
pub open spec fn keep_draining(seen: u32, last: Drained) -> bool {
    seen < UNSOLICITED_DRAIN_LIMIT && (last == Drained::Answered || last == Drained::Other)
}

/// Whether to read another unsolicited message after `seen` of them.
pub fn drain_goes_on(seen: u32, last: Drained) -> (r: bool)
    ensures
        r == keep_draining(seen, last),
{
    match last {
        Drained::Answered | Drained::Other => seen < UNSOLICITED_DRAIN_LIMIT,
        _ => false,
    }
}

// ── Reconnect backoff ───────────────────────────────────────────────────────

/// The backoff before jitter, in milliseconds: one second, doubled per attempt, at
/// most a minute.
pub open spec fn backoff_base(attempt: nat) -> nat
    decreases attempt,
{
    if attempt == 0 {
        RECONNECT_BACKOFF_START_MILLIS as nat
    } else {
        let doubled = 2 * backoff_base((attempt - 1) as nat);
        if doubled > RECONNECT_BACKOFF_CAP_MILLIS {
            RECONNECT_BACKOFF_CAP_MILLIS as nat
        } else {
            doubled
        }
    }
}

/// `v` modulo 2^64.
pub open spec fn mod64(v: int) -> int {
    v % 0x1_0000_0000_0000_0000
}

/// The jitter of an attempt in permille of the base, from 800 to 1199.
pub open spec fn jitter_permille(attempt: u32, jitter_seed: u64) -> int {
    let mix = mod64(
        mod64(jitter_seed * 0x9E37_79B9_7F4A_7C15) + mod64(attempt * 0x85EB_CA6B),
    );
    800 + (mix % 1000) * 400 / 1000
}

/// The reconnect delay of an attempt, in milliseconds.
pub open spec fn backoff_millis(attempt: u32, jitter_seed: u64) -> int {
    backoff_base(attempt as nat) * jitter_permille(attempt, jitter_seed) / 1000
}

/// The base never leaves its bounds.
proof fn lemma_backoff_base(attempt: nat)
    ensures
        RECONNECT_BACKOFF_START_MILLIS <= backoff_base(attempt) <= RECONNECT_BACKOFF_CAP_MILLIS,
    decreases attempt,
{
    if attempt > 0 {
        lemma_backoff_base((attempt - 1) as nat);
    }
}

/// From the sixth doubling on the base is the cap.
proof fn lemma_backoff_capped(attempt: nat)
    requires
        attempt >= 6,
    ensures
        backoff_base(attempt) == RECONNECT_BACKOFF_CAP_MILLIS,
    decreases attempt,
{
    reveal_with_fuel(backoff_base, 8);
    if attempt > 6 {
        lemma_backoff_capped((attempt - 1) as nat);
    }
}

/// Next reconnect delay: exponential from 1 s doubling to 60 s, within 20% of that.
#[must_use]
pub fn reconnect_backoff_delay(attempt: u32, jitter_seed: u64) -> (d: Duration)
    ensures
        d == backoff_millis(attempt, jitter_seed) * NANOS_PER_MILLI,
        800 * NANOS_PER_MILLI <= d <= 72_000 * NANOS_PER_MILLI,
{
    let steps: u32 = if attempt < 6 {
        attempt
    } else {
        6
    };
    let mut base: u64 = RECONNECT_BACKOFF_START_MILLIS;
    let mut i: u32 = 0;
    while i < steps
        invariant
            i <= steps <= 6,
            base == backoff_base(i as nat),
            base <= RECONNECT_BACKOFF_CAP_MILLIS,
        decreases steps - i,
    {
        base = if 2 * base > RECONNECT_BACKOFF_CAP_MILLIS {
            RECONNECT_BACKOFF_CAP_MILLIS
        } else {
            2 * base
        };
        i += 1;
    }
    proof {
        lemma_backoff_base(attempt as nat);
        if attempt >= 6 {
            lemma_backoff_capped(attempt as nat);
            lemma_backoff_capped(6);
        }
    }
    let a: u64 = jitter_seed.wrapping_mul(0x9E37_79B9_7F4A_7C15);
    let b: u64 = (attempt as u64).wrapping_mul(0x85EB_CA6B);
    let mix: u64 = a.wrapping_add(b);
    proof {
        assert(a == mod64(jitter_seed * 0x9E37_79B9_7F4A_7C15));
        assert(b == mod64(attempt * 0x85EB_CA6B));
        assert(mix == mod64(a + b));
    }
    let unit: u64 = mix % 1000;
    let factor: u64 = 800 + (unit * 400) / 1000;
    proof {
        lemma_jitter_bounds(base as int, factor as int);
    }
    let jittered: u64 = base * factor / 1000;
    (jittered as u128) * NANOS_PER_MILLI
}

/// Jitter keeps a base within its bounds.
proof fn lemma_jitter_bounds(base: int, factor: int)
    requires
        1000 <= base <= 60_000,
        800 <= factor < 1200,
    ensures
        base * factor <= 72_000_000,
        800 <= base * factor / 1000 <= 72_000,
        base * 800 / 1000 <= base * factor / 1000 <= base * 1200 / 1000,
{
    assert(base * 800 <= base * factor <= base * 1200) by (nonlinear_arith)
        requires
            1000 <= base,
            800 <= factor < 1200,
    ;
}

/// A reconnect delay lies within 20% of its base, the base doubles with every attempt
/// until it reaches the cap, and never leaves it again.
pub proof fn law_backoff_doubles_within_bounds(attempt: u32, jitter_seed: u64)
    ensures
        ({
            let base = backoff_base(attempt as nat);
            let millis = backoff_millis(attempt, jitter_seed);
            &&& base * 800 / 1000 <= millis <= base * 1200 / 1000
            &&& RECONNECT_BACKOFF_START_MILLIS <= base <= RECONNECT_BACKOFF_CAP_MILLIS
            &&& 2 * base <= RECONNECT_BACKOFF_CAP_MILLIS ==> backoff_base((attempt + 1) as nat)
                == 2 * base
            &&& 2 * base > RECONNECT_BACKOFF_CAP_MILLIS ==> backoff_base((attempt + 1) as nat)
                == RECONNECT_BACKOFF_CAP_MILLIS
        }),
{
    lemma_backoff_base(attempt as nat);
    lemma_jitter_bounds(
        backoff_base(attempt as nat) as int,
        jitter_permille(attempt, jitter_seed),
    );
}

/// The jitter seed of a device: its id's bytes folded by 31, modulo 2^64.
pub open spec fn id_seed(bytes: Seq<u8>) -> int
    decreases bytes.len(),
{
    if bytes.len() == 0 {
        0
    } else {
        mod64(mod64(id_seed(bytes.drop_last()) * 31) + bytes.last())
    }
}

/// The jitter seed of a device id.
pub fn jitter_seed(device_id: &str) -> (seed: u64)
    ensures
        seed == id_seed(vstd::utf8::encode_utf8(device_id@)),
{
    let bytes = device_id.as_bytes();
    let mut seed: u64 = 0;
    let mut i: usize = 0;
    proof {
        assert(bytes@.take(0) =~= Seq::<u8>::empty());
    }
    while i < bytes.len()
        invariant
            i <= bytes.len(),
            seed == id_seed(bytes@.take(i as int)),
        decreases bytes.len() - i,
    {
        proof {
            assert(bytes@.take(i as int + 1).drop_last() =~= bytes@.take(i as int));
        }
        let scaled: u64 = seed.wrapping_mul(31);
        seed = scaled.wrapping_add(bytes[i] as u64);
        i += 1;
    }
    proof {
        assert(bytes@.take(bytes@.len() as int) =~= bytes@);
    }
    seed
}

// ── Warm workers ────────────────────────────────────────────────────────────

/// A warm worker and the endpoint that it was told to use. `H` stands for what the
/// caller keeps of the worker.
#[derive(Debug)]
pub struct WarmWorker<H> {
    /// Preferred address.
    pub host: String,
    /// mDNS hostname.
    pub hostname: String,
    /// Cast port.
    pub port: u16,
    /// What the caller keeps of the worker.
    pub handle: H,
}

/// A worker has the endpoint of a device.
pub open spec fn same_endpoint<H>(w: WarmWorker<H>, device: Device) -> bool {
    w.host@ == device.host@ && w.hostname@ == device.hostname@ && w.port == device.port
}

/// What making sure of a worker asks for.
#[derive(Debug, Clone, Copy, PartialEq, Eq, Structural)]
pub enum EnsureWorker {
    /// The worker has this endpoint.
    Unchanged,
    /// Tell the worker its new endpoint.
    Update,
    /// Start a worker.
    Spawn,
}

/// The warm Cast workers by device id.
#[derive(Debug)]
pub struct CastPool<H> {
    workers: Table<WarmWorker<H>>,
}

impl<H> CastPool<H> {
    /// The workers by device id.
    pub closed spec fn workers(&self) -> Map<Seq<char>, WarmWorker<H>> {
        self.workers@
    }

    /// The device ids with a worker.
    pub closed spec fn ids(&self) -> Seq<Seq<char>> {
        self.workers.ids()
    }

    /// What every operation keeps: one worker per listed id.
    pub closed spec fn wf(&self) -> bool {
        self.workers.wf()
    }

    /// A pool without workers.
    #[must_use]
    pub fn new() -> (r: CastPool<H>)
        ensures
            r.wf(),
            r.workers() == Map::<Seq<char>, WarmWorker<H>>::empty(),
    {
        CastPool { workers: Table::new() }
    }

    /// Make sure of a warm worker for `device`.
    ///
    /// A worker with another endpoint takes over the device's; a second worker is
    /// never asked for while one is registered.
    pub fn ensure(&mut self, device: &Device) -> (r: EnsureWorker)
        requires
            old(self).wf(),
        ensures
            final(self).wf(),
            ({
                let id = device.id@;
                if !old(self).workers().dom().contains(id) {
                    r == EnsureWorker::Spawn && *final(self) == *old(self)
                } else if same_endpoint(old(self).workers()[id], *device) {
                    r == EnsureWorker::Unchanged && *final(self) == *old(self)
                } else {
                    &&& r == EnsureWorker::Update
                    &&& final(self).workers().dom() == old(self).workers().dom()
                    &&& final(self).workers().remove(id) == old(self).workers().remove(id)
                    &&& same_endpoint(final(self).workers()[id], *device)
                    &&& final(self).workers()[id].handle == old(self).workers()[id].handle
                }
            }),
            r == ensure_verdict(old(self).workers(), *device),
    {
        match self.workers.get(device.id.as_str()) {
            None => {
                return EnsureWorker::Spawn;
            },
            Some(w) => {
                if str_eq(w.host.as_str(), device.host.as_str()) && str_eq(
                    w.hostname.as_str(),
                    device.hostname.as_str(),
                ) && w.port == device.port {
                    return EnsureWorker::Unchanged;
                }
            },
        }
        let ghost before = self.workers();
        match self.workers.remove(device.id.as_str()) {
            Some(w) => {
                let WarmWorker { host: _, hostname: _, port: _, handle } = w;
                let moved = WarmWorker {
                    host: device.host.clone(),
                    hostname: device.hostname.clone(),
                    port: device.port,
                    handle,
                };
                let _none = self.workers.insert(device.id.clone(), moved);
                proof {
                    assert(self.workers().dom() =~= before.dom());
                    assert(self.workers().remove(device.id@) =~= before.remove(device.id@));
                }
                EnsureWorker::Update
            },
            None => EnsureWorker::Spawn,
        }
    }

    /// A worker was started for `device`.
    pub fn started(&mut self, device: &Device, handle: H) -> (replaced: Option<WarmWorker<H>>)
        requires
            old(self).wf(),
        ensures
            final(self).wf(),
            final(self).workers().dom() == old(self).workers().dom().insert(device.id@),
            final(self).workers().remove(device.id@) == old(self).workers().remove(device.id@),
            same_endpoint(final(self).workers()[device.id@], *device),
            final(self).workers()[device.id@].handle == handle,
            replaced == if old(self).workers().dom().contains(device.id@) {
                Some(old(self).workers()[device.id@])
            } else {
                None
            },
    {
        let ghost before = self.workers();
        let w = WarmWorker {
            host: device.host.clone(),
            hostname: device.hostname.clone(),
            port: device.port,
            handle,
        };
        let replaced = self.workers.insert(device.id.clone(), w);
        proof {
            assert(self.workers().dom() =~= before.dom().insert(device.id@));
            assert(self.workers().remove(device.id@) =~= before.remove(device.id@));
        }
        replaced
    }

    /// The worker of a device, or the error that every command to it gets.
    pub fn worker(&self, device_id: &str) -> (r: Result<&WarmWorker<H>, Error>)
        requires
            self.wf(),
        ensures
            match r {
                Ok(w) => self.workers().dom().contains(device_id@) && *w
                    == self.workers()[device_id@],
                Err(Error::Cast(m)) => !self.workers().dom().contains(device_id@) && m@
                    == "no warm Cast worker for "@ + device_id@,
                Err(_) => false,
            },
    {
        match self.workers.get(device_id) {
            Some(w) => Ok(w),
            None => Err(Error::Cast(joined("no warm Cast worker for ", device_id))),
        }
    }

    /// Forget the worker of a device, which has ended.
    pub fn remove(&mut self, device_id: &str) -> (r: Option<WarmWorker<H>>)
        requires
            old(self).wf(),
        ensures
            final(self).wf(),
            final(self).workers() == old(self).workers().remove(device_id@),
            r == if old(self).workers().dom().contains(device_id@) {
                Some(old(self).workers()[device_id@])
            } else {
                None
            },
    {
        self.workers.remove(device_id)
    }

    /// Snapshot of device ids with a live worker.
    #[must_use]
    pub fn device_ids(&self) -> (out: Vec<String>)
        requires
            self.wf(),
        ensures
            text::views(out@) == self.ids(),
            self.ids().no_duplicates(),
            forall|id: Seq<char>|
                #![trigger self.ids().contains(id)]
                self.ids().contains(id) <==> self.workers().dom().contains(id),
    {
        self.workers.keys()
    }
}

/// A command to a worker, as callers of the pool know it.
#[derive(Debug, Clone, Copy, PartialEq, Eq, Structural)]
pub enum PoolCall {
    /// Load media.
    Load,
    /// Set the volume.
    SetVolume,
    /// Read the volume.
    GetVolume,
    /// Stop.
    Stop,
    /// Pause.
    Pause,
    /// Play.
    Play,
}

impl PoolCall {
    /// The call in a word.
    pub open spec fn word(self) -> Seq<char> {
        match self {
            PoolCall::Load => "load"@,
            PoolCall::SetVolume => "set_volume"@,
            PoolCall::GetVolume => "get_volume"@,
            PoolCall::Stop => "stop"@,
            PoolCall::Pause => "pause"@,
            PoolCall::Play => "play"@,
        }
    }

    fn name(self) -> (r: &'static str)
        ensures
            r@ == self.word(),
    {
        match self {
            PoolCall::Load => "load",
            PoolCall::SetVolume => "set_volume",
            PoolCall::GetVolume => "get_volume",
            PoolCall::Stop => "stop",
            PoolCall::Pause => "pause",
            PoolCall::Play => "play",
        }
    }

    /// How long a caller waits for the answer.
    pub fn timeout(self) -> (d: Duration)
        ensures
            d == if self == PoolCall::SetVolume || self == PoolCall::GetVolume {
                VOLUME_TIMEOUT
            } else {
                COMMAND_TIMEOUT
            },
            self == PoolCall::SetVolume || self == PoolCall::GetVolume ==> d == 3_000_000_000,
            self == PoolCall::Load || self == PoolCall::Stop || self == PoolCall::Pause || self
                == PoolCall::Play ==> d == 6_000_000_000,
    {
        match self {
            PoolCall::SetVolume => VOLUME_TIMEOUT,
            PoolCall::GetVolume => VOLUME_TIMEOUT,
            _ => COMMAND_TIMEOUT,
        }
    }
}

/// Why a call to a worker got no answer.
#[derive(Debug, Clone, Copy, PartialEq, Eq, Structural)]
pub enum CallFailure {
    /// The worker does not take commands any more.
    Disconnected,
    /// The answer did not come in time.
    TimedOut,
    /// The worker dropped the answer.
    ReplyDropped,
}

/// The text of a call that got no answer.
pub open spec fn call_failure_text(
    call: PoolCall,
    failure: CallFailure,
    device_id: Seq<char>,
) -> Seq<char> {
    match failure {
        CallFailure::Disconnected => "warm Cast worker for "@ + device_id + " disconnected"@,
        CallFailure::TimedOut => "warm Cast "@ + call.word() + (if call == PoolCall::Load {
            " timed out after 6s for "@
        } else {
            " timed out for "@
        }) + device_id,
        CallFailure::ReplyDropped => "warm Cast "@ + call.word() + " reply dropped for "@
            + device_id,
    }
}

/// The error of a call that got no answer.
pub fn call_error(call: PoolCall, failure: CallFailure, device_id: &str) -> (r: Error)
    ensures
        r matches Error::Cast(m) && m@ == call_failure_text(call, failure, device_id@),
{
    let mut out: Vec<char> = Vec::new();
    match failure {
        CallFailure::Disconnected => {
            push_str(&mut out, "warm Cast worker for ");
            push_str(&mut out, device_id);
            push_str(&mut out, " disconnected");
        },
        CallFailure::TimedOut => {
            push_str(&mut out, "warm Cast ");
            push_str(&mut out, call.name());
            match call {
                PoolCall::Load => push_str(&mut out, " timed out after 6s for "),
                _ => push_str(&mut out, " timed out for "),
            }
            push_str(&mut out, device_id);
        },
        CallFailure::ReplyDropped => {
            push_str(&mut out, "warm Cast ");
            push_str(&mut out, call.name());
            push_str(&mut out, " reply dropped for ");
            push_str(&mut out, device_id);
        },
    }
    proof {
        assert(out@ =~= call_failure_text(call, failure, device_id@));
    }
    Error::Cast(string_of(out.as_slice()))
}

// ── What the policies promise ───────────────────────────────────────────────

/// An idle player was taken by another sender exactly when its reason says interrupted.
/// One that finished, failed, was cancelled or says nothing stopped by itself; one that
/// plays, buffers or is paused is not idle.
pub proof fn law_only_an_interrupted_player_was_taken(
    state: PlayerState,
    reason: Option<IdleReason>,
)
    ensures
        idle_class(state, reason) == Some(IdleReasonKind::Interrupted) <==> state
            == PlayerState::Idle && reason == Some(IdleReason::Interrupted),
        idle_class(state, reason) == Some(IdleReasonKind::Recoverable) <==> state
            == PlayerState::Idle && (reason is None || reason == Some(IdleReason::Finished)
            || reason == Some(IdleReason::Error) || reason == Some(IdleReason::Cancelled)),
        idle_class(state, reason) is None <==> state == PlayerState::Playing || state
            == PlayerState::Buffering || state == PlayerState::Paused,
{
    match reason {
        Some(IdleReason::Cancelled) | Some(IdleReason::Interrupted) => {},
        Some(IdleReason::Finished) | Some(IdleReason::Error) | None => {},
    }
}

/// A player that stopped by itself, for whatever reason but another sender, is loaded
/// again when that was not tried before and no LOAD is recent; one that another sender
/// took is given up.
pub proof fn law_stopped_player_is_loaded_again(
    state: PlayerState,
    reason: Option<IdleReason>,
    i: OwnershipInputs,
)
    requires
        state == PlayerState::Idle,
        i.idle_reason == idle_class(state, reason),
        i.media_failure is None,
    ensures
        reason == Some(IdleReason::Interrupted) ==> policy(i) == OwnershipAction::LostSignal,
        reason != Some(IdleReason::Interrupted) && !i.reload_attempted && !i.load_within_guard
            ==> policy(i) == OwnershipAction::AttemptReload,
        reason != Some(IdleReason::Interrupted) && (i.reload_attempted || i.load_within_guard)
            ==> policy(i) == OwnershipAction::LostSignal,
{
}

/// What each answer to a probe means. A parse failure means nothing; a wire failure
/// means a reconnect; the third BUFFERING in a row is a stopped player; an entry for our
/// session is ours; without a word on it, the receiver's list of applications decides.
pub proof fn law_probe_answers_have_one_meaning(i: OwnershipInputs)
    ensures
        policy(i) == OwnershipAction::Inconclusive <==> i.media_failure == Some(
            ProbeFailureKind::Parse,
        ),
        policy(i) == OwnershipAction::SuspectReconnect <==> i.media_failure == Some(
            ProbeFailureKind::Transport,
        ),
        policy(i) == OwnershipAction::Owned <==> i.media_failure is None && i.idle_reason is None
            && !(i.buffering && i.buffering_streak >= 3) && (i.media_session_present == Some(true)
            || (i.media_session_present is None && i.transport_listed)),
        policy(i) == OwnershipAction::AttemptReload <==> i.media_failure is None
            && !i.reload_attempted && !i.load_within_guard && (i.idle_reason == Some(
            IdleReasonKind::Recoverable,
        ) || (i.idle_reason is None && i.buffering && i.buffering_streak >= 3)),
{
}

/// Errors that say the device answered are parse failures; all that concern the wire are
/// transport failures; an internal error is one when its words, in any case, speak of a
/// timeout, a broken pipe or a connection.
pub proof fn law_errors_are_wire_or_words(err: CastClientError)
    ensures
        err is Io || err is Tls || err is Timeout || err is Dns || err is Protobuf ==> failure_kind(
            err,
        ) == ProbeFailureKind::Transport,
        err is Serialization || err is Parsing || err is Namespace ==> failure_kind(err)
            == ProbeFailureKind::Parse,
        err matches CastClientError::Internal(m) ==> (failure_kind(err)
            == ProbeFailureKind::Transport <==> text::has_sub(text::lower(m@), "timed out"@)
            || text::has_sub(text::lower(m@), "timeout"@) || text::has_sub(
            text::lower(m@),
            "broken pipe"@,
        ) || text::has_sub(text::lower(m@), "connection"@)),
{
}

/// A failed query says only that it failed.
pub proof fn law_failed_query_tells_nothing_else(kind: ProbeFailureKind)
    ensures
        failed_probe(kind).failure == Some(kind),
        failed_probe(kind).session_present is None,
        failed_probe(kind).idle_reason is None,
        !failed_probe(kind).buffering,
{
}

/// At most eight messages are drained, and none after one that failed.
pub proof fn law_draining_stops_after_eight(seen: u32, last: Drained)
    ensures
        seen >= 8 ==> !keep_draining(seen, last),
        last is Failed || last is PongFailed ==> !keep_draining(seen, last),
        seen < 8 && (last is Answered || last is Other) ==> keep_draining(seen, last),
{
}

/// The first retry waits about a second, each further one about twice as long as the one
/// before, none longer than about a minute: within a fifth, the delay before attempt `k`
/// is 2^k seconds for the first six and sixty seconds from then on.
pub proof fn law_backoff_is_exponential(attempt: u32, jitter_seed: u64)
    ensures
        ({
            let nominal = if attempt < 6 {
                1000 * vstd::arithmetic::power2::pow2(attempt as nat)
            } else {
                60_000
            };
            let millis = backoff_millis(attempt, jitter_seed);
            nominal * 8 <= millis * 10 < nominal * 12
        }),
{
    lemma_backoff_base(attempt as nat);
    vstd::arithmetic::power2::lemma2_to64();
    reveal_with_fuel(backoff_base, 8);
    if attempt >= 6 {
        lemma_backoff_capped(attempt as nat);
    }
    let base = backoff_base(attempt as nat) as int;
    let factor = jitter_permille(attempt, jitter_seed);
    assert(800 <= factor <= 1199);
    assert(base * 800 <= base * factor <= base * 1199) by (nonlinear_arith)
        requires
            base >= 0,
            800 <= factor <= 1199,
    ;
}

/// The delay spreads with the seed: above its least value it takes two fifths of a permille
/// for each unit in the last three digits of the mix of seed and attempt.
pub proof fn law_jitter_follows_the_seed(attempt: u32, jitter_seed: u64, mix: int)
    requires
        mix == (jitter_seed * 0x9E37_79B9_7F4A_7C15 + attempt * 0x85EB_CA6B)
            % 0x1_0000_0000_0000_0000,
    ensures
        2 * (mix % 1000) - 5 < 5 * (jitter_permille(attempt, jitter_seed) - 800) <= 2 * (mix
            % 1000),
{
    let a = jitter_seed * 0x9E37_79B9_7F4A_7C15;
    let b = attempt * 0x85EB_CA6B;
    vstd::arithmetic::div_mod::lemma_add_mod_noop(a, b, 0x1_0000_0000_0000_0000);
}

/// The seed of an id is its bytes as the digits of a number to base 31, modulo 2^64.
pub proof fn law_seed_reads_bytes_as_digits(bytes: Seq<u8>, last: u8)
    ensures
        id_seed(Seq::empty()) == 0,
        id_seed(bytes.push(last)) == (31 * id_seed(bytes) + last) % 0x1_0000_0000_0000_0000,
{
    assert(bytes.push(last).drop_last() =~= bytes);
    let scaled = id_seed(bytes) * 31;
    vstd::arithmetic::div_mod::lemma_add_mod_noop(scaled, last as int, 0x1_0000_0000_0000_0000);
}

/// Two workers reach a device at the same place exactly when address, hostname and port
/// all agree.
pub proof fn law_endpoint_is_address_name_and_port<H>(w: WarmWorker<H>, device: Device)
    ensures
        same_endpoint(w, device) ==> w.host@ == device.host@,
        same_endpoint(w, device) ==> w.hostname@ == device.hostname@,
        same_endpoint(w, device) ==> w.port == device.port,
        w.host@ == device.host@ && w.hostname@ == device.hostname@ && w.port == device.port
            ==> same_endpoint(w, device),
{
}

/// A position is that of the session's entry exactly when no earlier one is.
pub proof fn law_first_entry_counts(status: Status, media_session_id: i32, i: int, j: int)
    requires
        is_entry_of(status, media_session_id, i),
    ensures
        0 <= i < status.entries@.len(),
        status.entries@[i].media_session_id == media_session_id,
        0 <= j < i ==> status.entries@[j].media_session_id != media_session_id,
        is_entry_of(status, media_session_id, j) ==> i == j,
{
    if is_entry_of(status, media_session_id, j) && i != j {
        assert(status.entries@[j].media_session_id == media_session_id);
    }
}

/// `p` is what an answer to a media status query tells about a session.
pub open spec fn is_probe_of(reply: MediaReply, media_session_id: i32, p: MediaProbe) -> bool {
    match reply {
        MediaReply::NotConnected => p == failed_probe(ProbeFailureKind::Transport),
        MediaReply::Failed(err) => p == failed_probe(failure_kind(err)),
        MediaReply::Status(status) => {
            ||| {
                &&& p.session_present == Some(false)
                &&& p.idle_reason is None && !p.buffering && p.failure is None
                &&& forall|j: int|
                    0 <= j < status.entries@.len() ==> (#[trigger] status.entries@[j]).media_session_id
                        != media_session_id
            }
            ||| exists|i: int|
                {
                    let e = #[trigger] status.entries@[i];
                    &&& is_entry_of(status, media_session_id, i)
                    &&& p.session_present == Some(true)
                    &&& p.idle_reason == idle_class(e.player_state, e.idle_reason)
                    &&& p.buffering == (e.player_state == PlayerState::Buffering)
                    &&& p.failure is None
                }
        },
    }
}

/// A probe tells of the first entry for the session: that it is there, whether it
/// buffers, and, when it is idle, whether another sender took it. A status without such
/// an entry tells that it is gone. Without a connection, and after a failed query, it
/// tells only of the failure.
pub proof fn law_probe_tells_of_the_first_entry(
    reply: MediaReply,
    media_session_id: i32,
    p: MediaProbe,
    status: Status,
    err: CastClientError,
    i: int,
)
    requires
        is_probe_of(reply, media_session_id, p),
    ensures
        reply is NotConnected ==> p.session_present is None && p.failure == Some(
            ProbeFailureKind::Transport,
        ) && p.idle_reason is None && !p.buffering,
        reply == MediaReply::Failed(err) ==> p.session_present is None && p.failure == Some(
            failure_kind(err),
        ) && p.idle_reason is None && !p.buffering,
        reply == MediaReply::Status(status) ==> p.failure is None && p.session_present is Some,
        reply == MediaReply::Status(status) && is_entry_of(status, media_session_id, i) ==> {
            let e = status.entries@[i];
            &&& p.session_present == Some(true)
            &&& p.buffering <==> e.player_state == PlayerState::Buffering
            &&& p.idle_reason is Some <==> e.player_state == PlayerState::Idle
            &&& p.idle_reason == Some(IdleReasonKind::Interrupted) <==> e.player_state
                == PlayerState::Idle && e.idle_reason == Some(IdleReason::Interrupted)
        },
        reply == MediaReply::Status(status) && p.session_present == Some(true) ==> exists|k: int|
            0 <= k < status.entries@.len() && (#[trigger] status.entries@[k]).media_session_id
                == media_session_id,
{
    if reply == MediaReply::Status(status) && is_entry_of(status, media_session_id, i) {
        assert(status.entries@[i].media_session_id == media_session_id);
        let k = choose|k: int|
            {
                let e = #[trigger] status.entries@[k];
                &&& is_entry_of(status, media_session_id, k)
                &&& p.session_present == Some(true)
                &&& p.idle_reason == idle_class(e.player_state, e.idle_reason)
                &&& p.buffering == (e.player_state == PlayerState::Buffering)
                &&& p.failure is None
            };
        law_first_entry_counts(status, media_session_id, i, k);
    }
}

/// What making sure of a device's worker asks for.
pub open spec fn ensure_verdict<H>(
    workers: Map<Seq<char>, WarmWorker<H>>,
    device: Device,
) -> EnsureWorker {
    if !workers.dom().contains(device.id@) {
        EnsureWorker::Spawn
    } else if same_endpoint(workers[device.id@], device) {
        EnsureWorker::Unchanged
    } else {
        EnsureWorker::Update
    }
}

/// A worker is started exactly for a device that has none, and told of its endpoint
/// exactly when its address, its hostname or its port has changed.
pub proof fn law_worker_is_told_of_every_move<H>(
    workers: Map<Seq<char>, WarmWorker<H>>,
    device: Device,
)
    ensures
        ensure_verdict(workers, device) == EnsureWorker::Spawn <==> !workers.dom().contains(
            device.id@,
        ),
        ensure_verdict(workers, device) == EnsureWorker::Update <==> workers.dom().contains(
            device.id@,
        ) && (workers[device.id@].host@ != device.host@ || workers[device.id@].hostname@
            != device.hostname@ || workers[device.id@].port != device.port),
{
}

/// A player that stopped by itself is loaded again exactly when that was not tried
/// before and no LOAD is recent; else it counts as lost.
pub proof fn law_reload_is_tried_once(reload_attempted: bool, load_within_guard: bool)
    ensures
        reload_or_lost(reload_attempted, load_within_guard) == OwnershipAction::AttemptReload
            <==> !reload_attempted && !load_within_guard,
        reload_or_lost(reload_attempted, load_within_guard) == OwnershipAction::LostSignal
            <==> reload_attempted || load_within_guard,
{
}

/// A delay is its base times its jitter, in whole milliseconds.
pub proof fn law_delay_is_base_times_jitter(attempt: u32, jitter_seed: u64)
    ensures
        ({
            let exact = backoff_base(attempt as nat) * jitter_permille(attempt, jitter_seed);
            1000 * backoff_millis(attempt, jitter_seed) <= exact < 1000 * backoff_millis(
                attempt,
                jitter_seed,
            ) + 1000
        }),
{
}

/// A call that got no answer says which call it was and for which device: that its worker
/// is gone, that the time is up, which for a load is six seconds, or that the answer was
/// dropped.
pub proof fn law_unanswered_calls_say_what_happened(call: PoolCall, id: Seq<char>)
    ensures
        PoolCall::Load.word() == "load"@,
        PoolCall::SetVolume.word() == "set_volume"@,
        PoolCall::GetVolume.word() == "get_volume"@,
        PoolCall::Stop.word() == "stop"@,
        PoolCall::Pause.word() == "pause"@,
        PoolCall::Play.word() == "play"@,
        call_failure_text(call, CallFailure::Disconnected, id) == "warm Cast worker for "@ + id
            + " disconnected"@,
        call_failure_text(call, CallFailure::ReplyDropped, id) == "warm Cast "@ + call.word()
            + " reply dropped for "@ + id,
        call == PoolCall::Load ==> call_failure_text(call, CallFailure::TimedOut, id)
            == "warm Cast "@ + "load"@ + " timed out after 6s for "@ + id,
        call != PoolCall::Load ==> call_failure_text(call, CallFailure::TimedOut, id)
            == "warm Cast "@ + call.word() + " timed out for "@ + id,
{
}

} // verus!
