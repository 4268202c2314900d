//! AirPlay receivers: their stable identity, when their audio counts as paused, and
//! which of them are advertised.
//!
//! The caller runs the receivers themselves. `R` stands for a PCM ring handle, `V`
//! for a volume and `S` for a running receiver.

use std::collections::hash_map::DefaultHasher;
use std::hash::{Hash, Hasher};
use vstd::prelude::*;
use vstd::std_specs::hash::DefaultHasherAdditionalSpecFns;
use crate::audio::pcm;
use crate::audio::pcm::PcmRing;
use crate::clock::Duration;
use crate::table::Table;
use crate::text;
use crate::text::{chars_of, str_eq, string_of};

verus! {

/// First TCP port of the RAOP listeners.
pub const RAOP_PORT_BASE: u16 = 5100;

/// Number of ports that the listeners are spread over.
pub const RAOP_PORT_SPAN: u64 = 1000;

/// Default stereo capacity (about 2 s at 48 kHz) until a stream sets the real layout.
pub const DEFAULT_RING_FRAMES: usize = 96_000;

/// Product max channels for Cast stereo path.
pub const OUTPUT_MAX_CHANNELS: u8 = 2;

/// No PCM for this long and an empty ring means that AirPlay is paused.
///
/// Buffered streams often gap one or two seconds between chunks while the track is
/// still playing; a flush still pauses immediately.
pub const PAUSE_IDLE: Duration = 2_500_000_000;

/// [`PAUSE_IDLE`] in milliseconds.
pub const PAUSE_IDLE_MILLIS: u64 = 2_500;

/// Pause-watch poll cadence.
pub const PAUSE_POLL: Duration = 50_000_000;

/// How long a speaker stays withdrawn after a hard kick before it is advertised again.
pub const KICK_WITHDRAW_HOLD: Duration = 1_500_000_000;

/// Lifecycle events from an AirPlay receiver toward the bridge.
#[derive(Debug)]
pub enum AirPlaySessionEvent<R, V> {
    /// Client started an audio stream (PCM format known).
    Started {
        /// Device id this receiver is bound to.
        device_id: String,
        /// Sample rate of the decoded PCM stream.
        sample_rate: u32,
        /// Ring receiving this stream's decoded PCM. It pins the event to its stream.
        ring: R,
    },
    /// Client disconnected; the bridge stops Cast and drops media.
    Ended {
        /// Device id this receiver is bound to.
        device_id: String,
    },
    /// AirPlay playout stopped (or PCM idle); Cast should pause promptly.
    Paused {
        /// Device id this receiver is bound to.
        device_id: String,
    },
    /// PCM flowing again after pause; Cast should play.
    Resumed {
        /// Device id this receiver is bound to.
        device_id: String,
    },
    /// AirPlay buffer cleared; the ring is already cleared, Cast should pause.
    Flushed {
        /// Device id this receiver is bound to.
        device_id: String,
    },
    /// AirPlay volume change.
    Volume {
        /// Device id this receiver is bound to.
        device_id: String,
        /// The new volume.
        volume: V,
    },
}

impl<R, V> AirPlaySessionEvent<R, V> {
    /// The device that the event is about.
    pub open spec fn device(&self) -> Seq<char> {
        match self {
            AirPlaySessionEvent::Started { device_id, .. } => device_id@,
            AirPlaySessionEvent::Ended { device_id } => device_id@,
            AirPlaySessionEvent::Paused { device_id } => device_id@,
            AirPlaySessionEvent::Resumed { device_id } => device_id@,
            AirPlaySessionEvent::Flushed { device_id } => device_id@,
            AirPlaySessionEvent::Volume { device_id, .. } => device_id@,
        }
    }

    /// The device that the event is about.
    pub fn event_device_id(&self) -> (r: &str)
        ensures
            r@ == self.device(),
    {
        match self {
            AirPlaySessionEvent::Started { device_id, .. } => device_id.as_str(),
            AirPlaySessionEvent::Ended { device_id } => device_id.as_str(),
            AirPlaySessionEvent::Paused { device_id } => device_id.as_str(),
            AirPlaySessionEvent::Resumed { device_id } => device_id.as_str(),
            AirPlaySessionEvent::Flushed { device_id } => device_id.as_str(),
            AirPlaySessionEvent::Volume { device_id, .. } => device_id.as_str(),
        }
    }
}

// ── Identity ────────────────────────────────────────────────────────────────

/// The writes that a hasher has taken once a text was hashed into it.
pub uninterp spec fn hashed_with(writes: Seq<Seq<u8>>, s: Seq<char>) -> Seq<Seq<u8>>;

/// Feeds `s` to a hasher with `str`'s [`Hash::hash`].
///
/// What it writes is a function of the text and of what was written before; the
/// standard library does not say which bytes these are, so they only get a name.
#[verifier::external_body]
fn hash_text(s: &str, hasher: &mut DefaultHasher)
    ensures
        final(hasher)@ == hashed_with(old(hasher)@, s@),
{
    s.hash(hasher);
}

/// The hash of a device id, in a fresh default hasher.
pub open spec fn device_hash(device_id: Seq<char>) -> u64 {
    DefaultHasher::spec_finish(hashed_with(Seq::empty(), device_id))
}

/// The hash of a device id.
pub fn hash_device_id(device_id: &str) -> (h: u64)
    ensures
        h == device_hash(device_id@),
{
    let mut hasher = DefaultHasher::new();
    hash_text(device_id, &mut hasher);
    hasher.finish()
}

/// The six octets of a locally administered unicast MAC address with the low 48 bits
/// of `h`, but for the two bits that say so.
pub open spec fn hwaddr(h: u64) -> Seq<u8> {
    seq![
        (h as int / 0x100_0000_0000 % 0x100 / 4 * 4 + 2) as u8,
        (h as int / 0x1_0000_0000 % 0x100) as u8,
        (h as int / 0x100_0000 % 0x100) as u8,
        (h as int / 0x1_0000 % 0x100) as u8,
        (h as int / 0x100 % 0x100) as u8,
        (h as int % 0x100) as u8,
    ]
}

/// The MAC address made from a hash.
pub fn hwaddr_from_hash(h: u64) -> (mac: [u8; 6])
    ensures
        mac@ == hwaddr(h),
{
    let top: u8 = ((h / 0x100_0000_0000) % 0x100) as u8;
    let mac = [
        top / 4 * 4 + 2,
        ((h / 0x1_0000_0000) % 0x100) as u8,
        ((h / 0x100_0000) % 0x100) as u8,
        ((h / 0x1_0000) % 0x100) as u8,
        ((h / 0x100) % 0x100) as u8,
        (h % 0x100) as u8,
    ];
    proof {
        assert(mac@ =~= hwaddr(h));
    }
    mac
}

/// Stable 6-byte MAC derived from `device_id` with locally administered unicast bits.
pub fn stable_hwaddr(device_id: &str) -> (mac: [u8; 6])
    ensures
        mac@ == hwaddr(device_hash(device_id@)),
{
    hwaddr_from_hash(hash_device_id(device_id))
}

/// A derived address is unicast (lowest bit of the first octet clear) and locally
/// administered (next bit set), whatever it is derived from.
pub proof fn law_hwaddr_is_local_unicast(h: u64)
    ensures
        hwaddr(h).len() == 6,
        hwaddr(h)[0] % 2 == 0,
        hwaddr(h)[0] / 2 % 2 == 1,
        hwaddr(h)[0] & 0x01 == 0,
        hwaddr(h)[0] & 0x02 == 0x02,
{
    let b = hwaddr(h)[0];
    assert(b % 4 == 2);
    assert(b & 0x01 == 0 && b & 0x02 == 0x02) by (bit_vector)
        requires
            b % 4 == 2,
    ;
}

/// The listen port for a hash.
pub open spec fn raop_port(h: u64) -> int {
    RAOP_PORT_BASE + h % RAOP_PORT_SPAN
}

/// The listen port for a hash.
pub fn raop_port_from_hash(h: u64) -> (port: u16)
    ensures
        port == raop_port(h),
{
    let offset: u16 = (h % RAOP_PORT_SPAN) as u16;
    RAOP_PORT_BASE + offset
}

/// Stable RAOP listen port in `5100..=6099` derived from `device_id`.
///
/// The receiver moves upward when the derived port is already bound, so collisions
/// only shift the port.
pub fn stable_raop_port(device_id: &str) -> (port: u16)
    ensures
        port == raop_port(device_hash(device_id@)),
        5100 <= port <= 6099,
{
    raop_port_from_hash(hash_device_id(device_id))
}

/// Lower-case hexadecimal digit.
pub open spec fn hex_digit(n: int) -> char {
    if n < 10 {
        ('0' as int + n) as char
    } else {
        ('a' as int + (n - 10)) as char
    }
}

/// An octet in two hexadecimal digits.
pub open spec fn hex2(b: u8) -> Seq<char> {
    seq![hex_digit(b as int / 16), hex_digit(b as int % 16)]
}

/// Octets in hexadecimal, separated by colons.
pub open spec fn hex_octets(octets: Seq<u8>) -> Seq<char>
    decreases octets.len(),
{
    if octets.len() == 0 {
        Seq::empty()
    } else if octets.len() == 1 {
        hex2(octets[0])
    } else {
        hex_octets(octets.drop_last()) + ":"@ + hex2(octets.last())
    }
}

fn push_hex_digit(out: &mut Vec<char>, n: u8)
    requires
        n < 16,
    ensures
        final(out)@ == old(out)@.push(hex_digit(n as int)),
{
    if n < 10 {
        out.push((48u8 + n) as char);
    } else {
        out.push((87u8 + n) as char);
    }
}

/// A MAC address as text.
pub fn format_hwaddr(mac: [u8; 6]) -> (r: String)
    ensures
        r@ == hex_octets(mac@),
{
    let mut out: Vec<char> = Vec::new();
    let mut i: usize = 0;
    proof {
        assert(mac@.take(0) =~= Seq::<u8>::empty());
    }
    while i < 6
        invariant
            i <= 6,
            mac@.len() == 6,
            out@ == hex_octets(mac@.take(i as int)),
        decreases 6 - i,
    {
        let ghost before = out@;
        proof {
            assert(mac@.take(i as int + 1).drop_last() =~= mac@.take(i as int));
            assert(mac@.take(i as int + 1).last() == mac@[i as int]);
            if i == 0 {
                assert(mac@.take(1)[0] == mac@[0]);
            }
        }
        if i > 0 {
            text::push_str(&mut out, ":");
        }
        push_hex_digit(&mut out, mac[i] / 16);
        push_hex_digit(&mut out, mac[i] % 16);
        proof {
            if i == 0 {
                assert(out@ =~= hex2(mac@[0]));
            } else {
                assert(out@ =~= before + ":"@ + hex2(mac@[i as int]));
            }
        }
        i += 1;
    }
    proof {
        assert(mac@.take(6) =~= mac@);
    }
    string_of(out.as_slice())
}

/// A device id cut to its first eight characters.
pub fn short_device_id(id: &str) -> (r: String)
    ensures
        r@ == if id@.len() <= 8 {
            id@
        } else {
            id@.take(8)
        },
{
    let c = chars_of(id);
    if c.len() <= 8 {
        return string_of(c.as_slice());
    }
    let head = vstd::slice::slice_subrange(c.as_slice(), 0, 8);
    proof {
        assert(head@ =~= id@.take(8));
    }
    string_of(head)
}

// ── Streams ─────────────────────────────────────────────────────────────────

/// The sample rate used for a stream: at least one.
pub open spec fn stream_rate(sample_rate: u32) -> u32 {
    if sample_rate == 0 {
        1
    } else {
        sample_rate
    }
}

/// The channel count used for a stream: one or two.
pub open spec fn stream_channels(channels: u8) -> nat {
    if channels == 0 {
        1
    } else if channels > OUTPUT_MAX_CHANNELS {
        OUTPUT_MAX_CHANNELS as nat
    } else {
        channels as nat
    }
}

/// The ring capacity in frames for a stream: two seconds, and no less than the
/// default.
pub open spec fn stream_capacity(sample_rate: u32) -> nat {
    let two_seconds = if stream_rate(sample_rate) * 2 > usize::MAX {
        usize::MAX as nat
    } else {
        (stream_rate(sample_rate) * 2) as nat
    };
    if two_seconds < DEFAULT_RING_FRAMES {
        DEFAULT_RING_FRAMES as nat
    } else {
        two_seconds
    }
}

/// The sample rate and the fresh ring of a stream that starts in this format.
pub fn audio_init(sample_rate: u32, channels: u8) -> (r: (u32, PcmRing))
    ensures
        r.0 == stream_rate(sample_rate),
        r.1.wf(),
        r.1@.samples == Seq::<i16>::empty(),
        r.1.dropped() == 0 && r.1.underruns() == 0,
        r.1.channel_count() == stream_channels(channels),
        r.1.capacity() == (if stream_capacity(sample_rate) * stream_channels(channels)
            <= usize::MAX {
            (stream_capacity(sample_rate) * stream_channels(channels)) as int
        } else {
            usize::MAX as int
        }),
{
    let rate: u32 = if sample_rate == 0 {
        1
    } else {
        sample_rate
    };
    let count: u16 = if channels == 0 {
        1
    } else if channels > OUTPUT_MAX_CHANNELS {
        OUTPUT_MAX_CHANNELS as u16
    } else {
        channels as u16
    };
    let two_seconds: usize = match (rate as usize).checked_mul(2) {
        Some(n) => n,
        None => usize::MAX,
    };
    let capacity: usize = if two_seconds < DEFAULT_RING_FRAMES {
        DEFAULT_RING_FRAMES
    } else {
        two_seconds
    };
    (rate, PcmRing::new(count, capacity))
}

/// Idle long enough, with nothing left to play.
pub open spec fn is_idle_pause(idle_ms: u64, idle_threshold_ms: u64, ring_frames: nat) -> bool {
    idle_ms >= idle_threshold_ms && ring_frames == 0
}

/// Whether the idle watcher should pause Cast.
///
/// Requires long enough silence and no residual PCM in the ring so buffered chunk
/// gaps do not thrash the speaker while audio is still queued.
#[must_use]
pub fn should_emit_idle_pause(idle_ms: u64, idle_threshold_ms: u64, ring_frames: usize) -> (r: bool)
    ensures
        r == is_idle_pause(idle_ms, idle_threshold_ms, ring_frames as nat),
{
    idle_ms >= idle_threshold_ms && ring_frames == 0
}

/// Something that a stream tells the bridge.
#[derive(Debug, Clone, Copy, PartialEq, Eq, Structural)]
pub enum StreamNotice {
    /// The client cleared its buffer.
    Flushed,
    /// Playout stopped.
    Paused,
    /// Playout goes on.
    Resumed,
}

/// The pause state of one audio stream.
///
/// Idle pause is inferred only when PCM stops for [`PAUSE_IDLE`] and the ring is
/// empty. A flush pauses at once.
#[derive(Debug, Clone, Copy, PartialEq, Eq, Structural)]
pub struct RingSession {
    /// When PCM last came or was flushed, in milliseconds.
    pub last_process_ms: u64,
    /// At least one PCM buffer was delivered (avoids false pause before playout).
    pub had_pcm: bool,
    /// The bridge was told to pause.
    pub cast_paused: bool,
}

/// Milliseconds from `since` to `now`, none when `now` is not later.
pub open spec fn idle_millis(since: u64, now: u64) -> u64 {
    if now > since {
        (now - since) as u64
    } else {
        0
    }
}

impl RingSession {
    /// A stream that starts at `now_ms`.
    pub fn new(now_ms: u64) -> (r: RingSession)
        ensures
            r == (RingSession { last_process_ms: now_ms, had_pcm: false, cast_paused: false }),
    {
        RingSession { last_process_ms: now_ms, had_pcm: false, cast_paused: false }
    }

    /// PCM came: it goes to the ring, and a paused stream resumes.
    pub fn audio_process(&mut self, ring: &mut PcmRing, samples: &[i16], now_ms: u64) -> (r: Option<
        StreamNotice,
    >)
        requires
            old(ring).wf(),
        ensures
            *final(self) == (RingSession {
                last_process_ms: now_ms,
                had_pcm: true,
                cast_paused: false,
            }),
            r == if old(self).cast_paused {
                Some(StreamNotice::Resumed)
            } else {
                None
            },
            final(ring).wf(),
            final(ring).same_shape(old(ring)),
            final(ring)@.samples == pcm::newest(
                old(ring)@.samples + samples@,
                old(ring).capacity(),
            ),
            final(ring).dropped() == pcm::wrap_u64(
                old(ring).dropped() + pcm::excess(
                    old(ring)@.samples.len() + samples@.len(),
                    old(ring).capacity(),
                ) / old(ring).channel_count(),
            ),
            final(ring).underruns() == old(ring).underruns(),
            (*final(self), r) == old(self).fed(now_ms),
    {
        let notice = self.note_pcm(now_ms);
        ring.push_i16(samples);
        notice
    }

    /// Note that PCM came; a paused stream resumes.
    pub fn note_pcm(&mut self, now_ms: u64) -> (r: Option<StreamNotice>)
        ensures
            *final(self) == (RingSession {
                last_process_ms: now_ms,
                had_pcm: true,
                cast_paused: false,
            }),
            r == if old(self).cast_paused {
                Some(StreamNotice::Resumed)
            } else {
                None
            },
            (*final(self), r) == old(self).fed(now_ms),
    {
        let was_paused: bool = self.cast_paused;
        self.had_pcm = true;
        self.last_process_ms = now_ms;
        self.cast_paused = false;
        if was_paused {
            Some(StreamNotice::Resumed)
        } else {
            None
        }
    }

    /// The client cleared its buffer: the ring empties, and the stream is paused.
    pub fn audio_flush(&mut self, ring: &mut PcmRing, now_ms: u64) -> (r: Vec<StreamNotice>)
        requires
            old(ring).wf(),
        ensures
            *final(self) == (RingSession {
                last_process_ms: now_ms,
                had_pcm: old(self).had_pcm,
                cast_paused: true,
            }),
            r@ == if old(self).cast_paused {
                seq![StreamNotice::Flushed]
            } else {
                seq![StreamNotice::Flushed, StreamNotice::Paused]
            },
            final(ring).wf(),
            final(ring).same_shape(old(ring)),
            final(ring)@.samples == Seq::<i16>::empty(),
            final(ring).dropped() == old(ring).dropped(),
            final(ring).underruns() == old(ring).underruns(),
            (*final(self), r@) == old(self).flushed(now_ms),
    {
        ring.clear();
        self.last_process_ms = now_ms;
        let mut out: Vec<StreamNotice> = Vec::new();
        out.push(StreamNotice::Flushed);
        if !self.cast_paused {
            out.push(StreamNotice::Paused);
        }
        self.cast_paused = true;
        out
    }

    /// One poll of the idle watcher, which finds `ring_frames` in the ring.
    pub fn poll_idle(&mut self, ring_frames: usize, now_ms: u64) -> (r: Option<StreamNotice>)
        ensures
            ({
                let idle = old(self).had_pcm && is_idle_pause(
                    idle_millis(old(self).last_process_ms, now_ms),
                    PAUSE_IDLE_MILLIS,
                    ring_frames as nat,
                );
                &&& *final(self) == (RingSession {
                    cast_paused: old(self).cast_paused || idle,
                    ..*old(self)
                })
                &&& r == if idle && !old(self).cast_paused {
                    Some(StreamNotice::Paused)
                } else {
                    None
                }
            }),
            (*final(self), r) == old(self).watched(ring_frames as nat, now_ms),
    {
        if !self.had_pcm {
            return None;
        }
        let idle_ms: u64 = if now_ms > self.last_process_ms {
            now_ms - self.last_process_ms
        } else {
            0
        };
        if !should_emit_idle_pause(idle_ms, PAUSE_IDLE_MILLIS, ring_frames) {
            return None;
        }
        if self.cast_paused {
            return None;
        }
        self.cast_paused = true;
        Some(StreamNotice::Paused)
    }
}

/// A stream never pauses on its own while PCM is queued, before its first PCM, or
/// within the idle time of its last PCM.
pub proof fn law_no_idle_pause_while_playing(s: RingSession, ring_frames: nat, now_ms: u64)
    requires
        ring_frames > 0 || !s.had_pcm || idle_millis(s.last_process_ms, now_ms) < PAUSE_IDLE_MILLIS,
    ensures
        !(s.had_pcm && is_idle_pause(
            idle_millis(s.last_process_ms, now_ms),
            PAUSE_IDLE_MILLIS,
            ring_frames,
        )),
{
}

// ── Advertised receivers ────────────────────────────────────────────────────

/// One running AirPlay advertisement for a Cast device.
#[derive(Debug)]
pub struct AirPlayReceiver<S> {
    /// Advertised AirPlay name.
    pub name: String,
    /// TCP port that the listener asks for (stable per device id).
    pub port: u16,
    /// The reported volume was taken over from Cast.
    pub volume_seeded_from_cast: bool,
    /// The running receiver.
    pub server: S,
}

/// What making sure of a receiver asks for.
#[derive(Debug)]
pub enum EnsurePlan<S> {
    /// The device is being kicked: leave it alone.
    Kicking,
    /// A receiver with this name is running.
    Running,
    /// Stop the receiver that was withdrawn, if any, and start one.
    Start(Option<AirPlayReceiver<S>>),
}

/// The set of live AirPlay receivers by Cast device id.
#[derive(Debug)]
pub struct AirPlayManager<S> {
    receivers: Table<AirPlayReceiver<S>>,
    kicking: Table<()>,
}

impl<S> AirPlayManager<S> {
    /// The receivers by device id.
    pub closed spec fn receivers(&self) -> Map<Seq<char>, AirPlayReceiver<S>> {
        self.receivers@
    }

    /// The device ids in the middle of a kick.
    pub closed spec fn kicking(&self) -> Set<Seq<char>> {
        self.kicking@.dom()
    }

    /// The advertised device ids.
    pub closed spec fn active(&self) -> Seq<Seq<char>> {
        self.receivers.ids()
    }

    /// What every operation keeps: one receiver per listed id, each on the port that
    /// its device id stands for.
    pub closed spec fn wf(&self) -> bool {
        &&& self.receivers.wf()
        &&& self.kicking.wf()
        &&& forall|id: Seq<char>| #[trigger]
            self.receivers@.dom().contains(id) ==> self.receivers@[id].port == raop_port(
                device_hash(id),
            )
    }

    /// A manager without receivers.
    pub fn new() -> (r: AirPlayManager<S>)
        ensures
            r.wf(),
            r.receivers() == Map::<Seq<char>, AirPlayReceiver<S>>::empty(),
            r.kicking() == Set::<Seq<char>>::empty(),
    {
        let r = AirPlayManager { receivers: Table::new(), kicking: Table::new() };
        proof {
            assert(r.kicking() =~= Set::<Seq<char>>::empty());
        }
        r
    }

    /// Make sure of a receiver for `device_id` with the given AirPlay name.
    ///
    /// A receiver under another name is withdrawn first. A device that is being
    /// kicked stays withdrawn.
    pub fn ensure(&mut self, device_id: &str, airplay_name: &str) -> (plan: EnsurePlan<S>)
        requires
            old(self).wf(),
        ensures
            final(self).wf(),
            final(self).kicking() == old(self).kicking(),
            ({
                let had = old(self).receivers().dom().contains(device_id@);
                if old(self).kicking().contains(device_id@) {
                    plan is Kicking && *final(self) == *old(self)
                } else if had && old(self).receivers()[device_id@].name@ == airplay_name@ {
                    plan is Running && *final(self) == *old(self)
                } else {
                    &&& final(self).receivers() == old(self).receivers().remove(device_id@)
                    &&& plan == EnsurePlan::Start(
                        if had {
                            Some(old(self).receivers()[device_id@])
                        } else {
                            None
                        },
                    )
                }
            }),
            is_plan_of(
                old(self).kicking().contains(device_id@),
                if old(self).receivers().dom().contains(device_id@) {
                    Some(old(self).receivers()[device_id@])
                } else {
                    None
                },
                airplay_name@,
                plan,
            ),
    {
        if self.kicking.contains(device_id) {
            return EnsurePlan::Kicking;
        }
        match self.receivers.get(device_id) {
            Some(existing) => {
                if str_eq(existing.name.as_str(), airplay_name) {
                    return EnsurePlan::Running;
                }
            },
            None => {},
        }
        EnsurePlan::Start(self.receivers.remove(device_id))
    }

    /// A receiver was started for `device_id`; the one that it replaces, if any.
    pub fn started(&mut self, device_id: String, airplay_name: String, server: S) -> (r: Option<
        AirPlayReceiver<S>,
    >)
        requires
            old(self).wf(),
        ensures
            final(self).wf(),
            final(self).kicking() == old(self).kicking(),
            final(self).receivers().dom() == old(self).receivers().dom().insert(device_id@),
            final(self).receivers().remove(device_id@) == old(self).receivers().remove(device_id@),
            ({
                let rx = final(self).receivers()[device_id@];
                &&& rx.name == airplay_name
                &&& rx.port == raop_port(device_hash(device_id@))
                &&& !rx.volume_seeded_from_cast
                &&& rx.server == server
            }),
            r == if old(self).receivers().dom().contains(device_id@) {
                Some(old(self).receivers()[device_id@])
            } else {
                None
            },
    {
        let port: u16 = stable_raop_port(device_id.as_str());
        let ghost before = self.receivers();
        let ghost id = device_id@;
        let rx = AirPlayReceiver {
            name: airplay_name,
            port,
            volume_seeded_from_cast: false,
            server,
        };
        let ghost made = rx;
        let replaced = self.receivers.insert(device_id, rx);
        proof {
            assert(self.receivers() =~= before.insert(id, made));
            assert(self.receivers().remove(id) =~= before.remove(id));
            assert(self.receivers().dom() =~= before.dom().insert(id));
        }
        replaced
    }

    /// Withdraw the receiver of `device_id`, which the caller then stops.
    pub fn remove(&mut self, device_id: &str) -> (r: Option<AirPlayReceiver<S>>)
        requires
            old(self).wf(),
        ensures
            final(self).wf(),
            final(self).kicking() == old(self).kicking(),
            final(self).receivers() == old(self).receivers().remove(device_id@),
            r == if old(self).receivers().dom().contains(device_id@) {
                Some(old(self).receivers()[device_id@])
            } else {
                None
            },
    {
        self.receivers.remove(device_id)
    }

    /// Begin to kick the clients of `device_id`: its receiver is withdrawn, and
    /// [`AirPlayManager::ensure`] leaves the device alone until the kick is over.
    ///
    /// The caller stops the receiver hard, waits for [`KICK_WITHDRAW_HOLD`], starts
    /// one under the same name and reports it with [`AirPlayManager::started`].
    pub fn begin_kick(&mut self, device_id: &str) -> (r: Option<AirPlayReceiver<S>>)
        requires
            old(self).wf(),
        ensures
            final(self).wf(),
            final(self).kicking() == old(self).kicking().insert(device_id@),
            final(self).receivers() == old(self).receivers().remove(device_id@),
            r == if old(self).receivers().dom().contains(device_id@) {
                Some(old(self).receivers()[device_id@])
            } else {
                None
            },
    {
        let ghost before = self.kicking();
        let _inserted = self.kicking.insert(string_of(chars_of(device_id).as_slice()), ());
        proof {
            assert(self.kicking() =~= before.insert(device_id@));
        }
        self.receivers.remove(device_id)
    }

    /// The kick of `device_id` is over, whether or not it was advertised again.
    pub fn end_kick(&mut self, device_id: &str)
        requires
            old(self).wf(),
        ensures
            final(self).wf(),
            final(self).kicking() == old(self).kicking().remove(device_id@),
            final(self).receivers() == old(self).receivers(),
    {
        let ghost before = self.kicking();
        let _removed = self.kicking.remove(device_id);
        proof {
            assert(self.kicking() =~= before.remove(device_id@));
        }
    }

    /// Active device ids currently advertised.
    pub fn active_ids(&self) -> (out: Vec<String>)
        requires
            self.wf(),
        ensures
            text::views(out@) == self.active(),
            self.active().no_duplicates(),
            forall|id: Seq<char>|
                #![trigger self.active().contains(id)]
                self.active().contains(id) <==> self.receivers().dom().contains(id),
    {
        self.receivers.keys()
    }

    /// The running receiver of a device, if one is advertised.
    pub fn receiver(&self, device_id: &str) -> (r: Option<&AirPlayReceiver<S>>)
        requires
            self.wf(),
        ensures
            match r {
                Some(rx) => self.receivers().dom().contains(device_id@) && *rx
                    == self.receivers()[device_id@],
                None => !self.receivers().dom().contains(device_id@),
            },
    {
        self.receivers.get(device_id)
    }

    /// Note that the reported volume of a device was set (no-op if unknown).
    pub fn note_reported_volume(&mut self, device_id: &str) -> (known: bool)
        requires
            old(self).wf(),
        ensures
            final(self).wf(),
            final(self).kicking() == old(self).kicking(),
            known == old(self).receivers().dom().contains(device_id@),
            !known ==> *final(self) == *old(self),
            known ==> final(self).receivers() == old(self).receivers().insert(
                device_id@,
                AirPlayReceiver {
                    volume_seeded_from_cast: true,
                    ..old(self).receivers()[device_id@]
                },
            ),
    {
        match self.receivers.remove(device_id) {
            Some(rx) => {
                let AirPlayReceiver { name, port, volume_seeded_from_cast: _, server } = rx;
                let ghost before = old(self).receivers();
                let seeded = AirPlayReceiver {
                    name,
                    port,
                    volume_seeded_from_cast: true,
                    server,
                };
                let ghost made = seeded;
                let _none = self.receivers.insert(
                    string_of(chars_of(device_id).as_slice()),
                    seeded,
                );
                proof {
                    assert(self.receivers() =~= before.insert(device_id@, made));
                }
                true
            },
            None => false,
        }
    }

    /// Whether `device_id` still needs a Cast volume for its reported volume.
    pub fn needs_volume_seed(&self, device_id: &str) -> (r: bool)
        requires
            self.wf(),
        ensures
            r == (self.receivers().dom().contains(device_id@)
                && !self.receivers()[device_id@].volume_seeded_from_cast),
    {
        match self.receivers.get(device_id) {
            Some(rx) => !rx.volume_seeded_from_cast,
            None => false,
        }
    }
}

/// Every advertised device is on the port of its id, so it comes back on the same
/// port whenever it is advertised again.
pub proof fn law_port_is_stable<S>(manager: AirPlayManager<S>, id: Seq<char>)
    requires
        manager.wf(),
        manager.receivers().dom().contains(id),
    ensures
        manager.receivers()[id].port == raop_port(device_hash(id)),
        5100 <= manager.receivers()[id].port <= 6099,
{
}

/// An address holds the low 48 bits of its hash, the high octet first, but for the two
/// low bits of that octet.
pub proof fn law_hwaddr_holds_the_hash(h: u64)
    ensures
        ({
            let mac = hwaddr(h);
            let low = mac[1] * 0x1_0000_0000 + mac[2] * 0x100_0000 + mac[3] * 0x1_0000 + mac[4]
                * 0x100 + mac[5];
            &&& low == h % 0x100_0000_0000
            &&& mac[0] / 4 == h / 0x100_0000_0000 % 0x100 / 4
        }),
{
    let n = h as int;
    lemma_five_octets(n);
    let top = n / 0x100_0000_0000 % 0x100;
    assert((top / 4 * 4 + 2) / 4 == top / 4);
}

/// The low forty bits of a number are its five low octets.
proof fn lemma_five_octets(n: int)
    requires
        n >= 0,
    ensures
        n % 0x100_0000_0000 == n / 0x1_0000_0000 % 0x100 * 0x1_0000_0000 + n / 0x100_0000 % 0x100
            * 0x100_0000 + n / 0x1_0000 % 0x100 * 0x1_0000 + n / 0x100 % 0x100 * 0x100 + n % 0x100,
{
    lemma_octet_step(n, 0x100);
    lemma_octet_step(n, 0x1_0000);
    lemma_octet_step(n, 0x100_0000);
    lemma_octet_step(n, 0x1_0000_0000);
}

/// One octet more of a number.
proof fn lemma_octet_step(n: int, unit: int)
    requires
        n >= 0,
        unit > 0,
    ensures
        n % (unit * 0x100) == n / unit % 0x100 * unit + n % unit,
{
    let q = n / unit;
    let r = n % unit;
    let a = q / 0x100;
    let b = q % 0x100;
    assert(n == (unit * 0x100) * a + (b * unit + r) && 0 <= b * unit + r < unit * 0x100)
        by (nonlinear_arith)
        requires
            n >= 0,
            unit > 0,
            q == n / unit,
            r == n % unit,
            a == q / 0x100,
            b == q % 0x100,
    ;
    vstd::arithmetic::div_mod::lemma_fundamental_div_mod_converse(
        n,
        unit * 0x100,
        a,
        b * unit + r,
    );
}

/// The port of a hash is one of the thousand from 5100 on, counted through in turn.
pub proof fn law_ports_are_counted_through(h: u64)
    ensures
        5100 <= raop_port(h) < 6100,
        (raop_port(h) - 5100 - h) % 1000 == 0,
        raop_port(0) == 5100,
{
}

/// An octet is written in two digits of base sixteen, the high one first, small letters
/// standing for ten to fifteen.
pub proof fn law_octets_are_written_in_base_sixteen(b: u8)
    ensures
        hex2(b).len() == 2,
        hex_value(hex2(b)[0]) * 16 + hex_value(hex2(b)[1]) == b,
        hex2(b)[0] != 'A' && hex2(b)[1] != 'A',
{
}

/// What a digit of base sixteen stands for.
pub open spec fn hex_value(c: char) -> int {
    if '0' <= c <= '9' {
        c as int - 48
    } else if 'a' <= c <= 'f' {
        c as int - 87
    } else {
        -1000
    }
}

/// An address is written octet by octet, in order, with a colon between two.
pub proof fn law_address_is_written_octet_by_octet(octets: Seq<u8>, i: int)
    requires
        0 <= i < octets.len(),
    ensures
        hex_octets(octets).len() == 3 * octets.len() - 1,
        hex_octets(octets).subrange(3 * i, 3 * i + 2) == hex2(octets[i]),
        i > 0 ==> hex_octets(octets)[3 * i - 1] == ':',
    decreases octets.len(),
{
    reveal_strlit(":");
    let all = hex_octets(octets);
    if octets.len() == 1 {
        assert(all.subrange(0, 2) =~= hex2(octets[0]));
    } else {
        let n = octets.len() - 1;
        let head = octets.drop_last();
        law_address_is_written_octet_by_octet(head, 0);
        if i < n {
            law_address_is_written_octet_by_octet(head, i);
            assert(all.subrange(3 * i, 3 * i + 2) =~= hex_octets(head).subrange(3 * i, 3 * i + 2));
            assert(head[i] == octets[i]);
        } else {
            assert(all.subrange(3 * i, 3 * i + 2) =~= hex2(octets[i]));
        }
    }
}

/// A stream keeps its rate, and one or two channels; none becomes one and more become
/// two. Its ring holds two seconds of it and never less than 96 000 frames.
pub proof fn law_stream_format_and_ring(sample_rate: u32, channels: u8)
    ensures
        sample_rate > 0 ==> stream_rate(sample_rate) == sample_rate,
        stream_rate(0) == 1,
        channels == 1 || channels == 2 ==> stream_channels(channels) == channels,
        stream_channels(0) == 1,
        channels > 2 ==> stream_channels(channels) == 2,
        stream_capacity(sample_rate) >= 96_000,
        sample_rate <= 48_000 ==> stream_capacity(sample_rate) == 96_000,
        sample_rate > 48_000 && 2 * sample_rate <= usize::MAX ==> stream_capacity(sample_rate) == 2
            * sample_rate,
        2 * sample_rate > usize::MAX ==> stream_capacity(sample_rate) == usize::MAX,
{
}

/// A stream is idle exactly when its ring is empty and its last PCM is as long ago as is
/// asked; on a stream, that is two and a half seconds.
pub proof fn law_stream_is_idle_after_silence(since: u64, now: u64, threshold: u64, frames: nat)
    ensures
        now >= since ==> since + idle_millis(since, now) == now,
        now <= since ==> idle_millis(since, now) == 0,
        is_idle_pause(idle_millis(since, now), threshold, frames) <==> frames == 0 && (threshold == 0
            || since + threshold <= now),
        is_idle_pause(idle_millis(since, now), PAUSE_IDLE_MILLIS, frames) <==> frames == 0 && since
            + 2_500 <= now,
{
}

impl RingSession {
    /// The stream after PCM came, and what it tells the bridge.
    pub open spec fn fed(self, now_ms: u64) -> (RingSession, Option<StreamNotice>) {
        (
            RingSession { last_process_ms: now_ms, had_pcm: true, cast_paused: false },
            if self.cast_paused {
                Some(StreamNotice::Resumed)
            } else {
                None
            },
        )
    }

    /// The stream after a flush, and what it tells the bridge.
    pub open spec fn flushed(self, now_ms: u64) -> (RingSession, Seq<StreamNotice>) {
        (
            RingSession { last_process_ms: now_ms, cast_paused: true, ..self },
            if self.cast_paused {
                seq![StreamNotice::Flushed]
            } else {
                seq![StreamNotice::Flushed, StreamNotice::Paused]
            },
        )
    }

    /// The stream after a look at its ring, and what it tells the bridge.
    pub open spec fn watched(self, ring_frames: nat, now_ms: u64) -> (
        RingSession,
        Option<StreamNotice>,
    ) {
        let idle = self.had_pcm && is_idle_pause(
            idle_millis(self.last_process_ms, now_ms),
            PAUSE_IDLE_MILLIS,
            ring_frames,
        );
        (
            RingSession { cast_paused: self.cast_paused || idle, ..self },
            if idle && !self.cast_paused {
                Some(StreamNotice::Paused)
            } else {
                None
            },
        )
    }
}

/// PCM resumes a stream exactly when it was paused; whatever came before, the stream has
/// had PCM just now and is not paused.
pub proof fn law_pcm_resumes_a_paused_stream(
    s: RingSession,
    next: RingSession,
    told: Option<StreamNotice>,
    now_ms: u64,
)
    requires
        (next, told) == s.fed(now_ms),
    ensures
        told == Some(StreamNotice::Resumed) <==> s.cast_paused,
        told is None <==> !s.cast_paused,
        next.had_pcm && !next.cast_paused && next.last_process_ms == now_ms,
{
}

/// A flush is always told, and a pause behind it exactly when the stream was not paused;
/// after it the stream is paused, and has had PCM exactly when it had before.
pub proof fn law_flush_pauses_a_stream_once(
    s: RingSession,
    next: RingSession,
    told: Seq<StreamNotice>,
    now_ms: u64,
)
    requires
        (next, told) == s.flushed(now_ms),
    ensures
        told.len() >= 1 && told[0] == StreamNotice::Flushed,
        told.len() == 2 <==> !s.cast_paused,
        told.len() <= 2,
        !s.cast_paused ==> told[1] == StreamNotice::Paused,
        next.cast_paused && next.last_process_ms == now_ms && next.had_pcm == s.had_pcm,
{
}

/// A look at the ring pauses a stream exactly when it has had PCM, the last of it two and
/// a half seconds ago or more, the ring is empty and the stream is not paused; nothing
/// else changes.
pub proof fn law_silence_pauses_a_stream_once(
    s: RingSession,
    next: RingSession,
    told: Option<StreamNotice>,
    ring_frames: nat,
    now_ms: u64,
)
    requires
        (next, told) == s.watched(ring_frames, now_ms),
    ensures
        told == Some(StreamNotice::Paused) <==> s.had_pcm && ring_frames == 0 && !s.cast_paused
            && s.last_process_ms + 2_500 <= now_ms,
        told is Some ==> told == Some(StreamNotice::Paused),
        next.cast_paused <==> s.cast_paused || told is Some,
        next.had_pcm == s.had_pcm && next.last_process_ms == s.last_process_ms,
{
}

/// `plan` is what making sure of a receiver under a name asks for, when the device is
/// being kicked or not and has a receiver or not.
pub open spec fn is_plan_of<S>(
    kicked: bool,
    running: Option<AirPlayReceiver<S>>,
    name: Seq<char>,
    plan: EnsurePlan<S>,
) -> bool {
    if kicked {
        plan is Kicking
    } else if running is Some && running->0.name@ == name {
        plan is Running
    } else {
        plan == EnsurePlan::Start(running)
    }
}

/// A device that is being kicked is left alone. One whose receiver has the name goes on;
/// any other gets a receiver, and the one with another name, if there is one, stops.
pub proof fn law_receiver_is_started_under_its_name<S>(
    kicked: bool,
    running: Option<AirPlayReceiver<S>>,
    name: Seq<char>,
    plan: EnsurePlan<S>,
)
    requires
        is_plan_of(kicked, running, name, plan),
    ensures
        plan is Kicking <==> kicked,
        plan is Running <==> !kicked && running is Some && running->0.name@ == name,
        plan is Start <==> !kicked && (running is None || running->0.name@ != name),
        plan matches EnsurePlan::Start(stopped) ==> stopped == running,
{
}

} // verus!
