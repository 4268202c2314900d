//! Live bodies: progressive WAV and FLAC pulled from a PCM ring.
//!
//! A body is a state machine. Each call of `step` is told which request owns the
//! ring and what time it is, and answers with the next thing to do: end, wait for
//! PCM, or send a chunk. Three layers keep a Cast device from underrunning: a
//! prebuffer before the device is told to load, a silence preroll at the start of
//! the body, and the lead that the pacer maintains. Silence is never inserted in the
//! middle of a body; on underrun the body waits.

use vstd::prelude::*;
use crate::audio::flac;
use crate::audio::pcm;
use crate::audio::wav;
use crate::clock;
use crate::media::pace;
use crate::audio::flac::{encode_i16_block_to_frame, StreamInfo, FLAC_BLOCK_SIZE, FRAME_NUMBER_LIMIT};
use crate::audio::pcm::PcmRing;
use crate::audio::wav::{push_pcm, WAV_HEADER_LEN};
use crate::clock::{saturating_duration_since, Duration, Instant, LATEST_INSTANT};
use crate::media::pace::{pace_realtime_shared, LIVE_LEAD, PACE_LATE_SLACK};

verus! {

/// Frames requested per WAV chunk (about 21 ms at 48 kHz).
pub const LIVE_CHUNK_FRAMES: usize = 1024;

/// Wait when the ring underruns, so that the body stays open without silence.
pub const LIVE_UNDERRUN_SLEEP: Duration = 5_000_000;

/// Silence before real PCM, in milliseconds.
///
/// It is not paced but counts as sent, so the pacer starts about one lead ahead.
pub const SILENCE_PREROLL_MILLIS: u64 = 2000;

/// Least time between two reports of ring overflow.
pub const DROP_LOG_INTERVAL: Duration = 1_000_000_000;

/// Content-Length of a continuous WAV body: the advertised data and the header.
pub const LIVE_CONTENT_LENGTH: u64 = 0x7FFF_FFFF + 44;

/// Byte count at which a WAV body ends and asks for a re-LOAD: its Content-Length,
/// never less than the header.
pub fn live_body_threshold(max_body_bytes: u64) -> (r: u64)
    ensures
        r == body_threshold(max_body_bytes),
{
    if max_body_bytes < 44 {
        44
    } else {
        max_body_bytes
    }
}

/// The Content-Length of a WAV body that may hold `max_body_bytes`.
pub open spec fn body_threshold(max_body_bytes: u64) -> u64 {
    if max_body_bytes < 44 {
        44
    } else {
        max_body_bytes
    }
}

/// Frames of silence that precede real PCM at a sample rate.
pub open spec fn preroll_frames(sample_rate: u32) -> int {
    let rate = if sample_rate == 0 {
        1
    } else {
        sample_rate as int
    };
    rate * SILENCE_PREROLL_MILLIS / 1000
}

/// Silence frames before real PCM at `sample_rate`.
pub fn silence_preroll_frames(sample_rate: u32) -> (r: usize)
    ensures
        r == (if preroll_frames(sample_rate) <= usize::MAX {
            preroll_frames(sample_rate)
        } else {
            usize::MAX as int
        }),
{
    let rate: u64 = if sample_rate == 0 {
        1
    } else {
        sample_rate as u64
    };
    let n: u64 = rate * SILENCE_PREROLL_MILLIS / 1000;
    if n <= usize::MAX as u64 {
        n as usize
    } else {
        usize::MAX
    }
}

/// What the driver of a body does next.
#[derive(Debug)]
pub enum LiveStep {
    /// The body is over.
    End,
    /// No PCM yet: wait this long and step again.
    Wait(Duration),
    /// Hold for `hold`, if any, and send `bytes`; `rollover` asks for a re-LOAD.
    Chunk {
        /// Bytes to send.
        bytes: Vec<u8>,
        /// How long to hold them.
        hold: Option<Duration>,
        /// The body reached its Content-Length with these bytes.
        rollover: bool,
    },
}

/// Rate limit on reports of ring overflow.
#[derive(Debug, Clone, Copy, PartialEq, Eq, Structural)]
pub struct DropLog {
    /// When the last report was made.
    pub last_drop_log: Option<Instant>,
    /// The drop counter at the last report.
    pub last_drops_seen: u64,
}

impl DropLog {
    /// Nothing reported yet.
    pub fn new() -> (r: DropLog)
        ensures
            r == (DropLog { last_drop_log: None, last_drops_seen: 0 }),
    {
        DropLog { last_drop_log: None, last_drops_seen: 0 }
    }

    /// A report is due: the counter grew and the last report is old enough.
    pub open spec fn due(&self, drops: u64, now: Instant) -> bool {
        &&& drops > self.last_drops_seen
        &&& match self.last_drop_log {
            Some(t) => clock::elapsed(t, now) >= DROP_LOG_INTERVAL,
            None => true,
        }
    }

    /// The frames dropped since the last report, if a report is due.
    pub fn maybe_log_ring_drops(&mut self, drops: u64, now: Instant) -> (delta: Option<u64>)
        ensures
            old(self).due(drops, now) ==> delta == Some((drops - old(self).last_drops_seen) as u64)
                && *final(self) == (DropLog { last_drop_log: Some(now), last_drops_seen: drops }),
            !old(self).due(drops, now) ==> delta is None && *final(self) == *old(self),
    {
        if drops <= self.last_drops_seen {
            return None;
        }
        let due: bool = match self.last_drop_log {
            Some(t) => saturating_duration_since(now, t) >= DROP_LOG_INTERVAL,
            None => true,
        };
        if !due {
            return None;
        }
        let delta: u64 = drops - self.last_drops_seen;
        self.last_drops_seen = drops;
        self.last_drop_log = Some(now);
        Some(delta)
    }
}

/// A vector of `n` zero bytes.
fn zero_bytes(n: usize) -> (out: Vec<u8>)
    ensures
        out@ == zeros(n as nat),
{
    let out: Vec<u8> = vec![0u8; n];
    proof {
        assert(out@ =~= zeros(n as nat));
    }
    out
}

/// `n` zero bytes.
pub open spec fn zeros(n: nat) -> Seq<u8> {
    Seq::new(n, |i: int| 0u8)
}

/// `n` zero samples.
pub open spec fn zero_samples(n: nat) -> Seq<i16> {
    Seq::new(n, |i: int| 0i16)
}

// ── WAV body ────────────────────────────────────────────────────────────────

/// How far a WAV body has come.
#[derive(Debug, Clone, Copy, PartialEq, Eq, Structural)]
pub struct BodyPos {
    /// The 44 header bytes have been sent.
    pub header_sent: bool,
    /// Silence frames still to send.
    pub preroll_left: usize,
    /// Bytes sent.
    pub sent: u64,
}

/// One chunk of a WAV body.
#[derive(Debug, Clone, Copy, PartialEq, Eq, Structural)]
pub enum BodyPart {
    /// The WAV header.
    Header,
    /// Preroll silence.
    Silence {
        /// Frames of silence.
        frames: usize,
    },
    /// Zero bytes that fill the partial frame before the Content-Length.
    Pad {
        /// Bytes to fill.
        bytes: u64,
    },
    /// PCM from the ring.
    Pcm {
        /// Frames taken.
        frames: usize,
    },
}

/// What a WAV body does next.
pub enum BodyNext {
    /// It ends.
    End,
    /// It waits for PCM.
    Wait,
    /// It sends this part.
    Emit(BodyPart),
}

/// The smaller of two numbers.
pub open spec fn smaller(a: nat, b: nat) -> nat {
    if a <= b {
        a
    } else {
        b
    }
}

/// The next move of a WAV body: end when superseded or full; otherwise the header,
/// then the preroll, then PCM in chunks, never past the Content-Length.
pub open spec fn body_next(
    pos: BodyPos,
    threshold: u64,
    channels: u16,
    ring_frames: nat,
    superseded: bool,
) -> BodyNext {
    if superseded || pos.sent >= threshold {
        BodyNext::End
    } else if !pos.header_sent {
        BodyNext::Emit(BodyPart::Header)
    } else {
        let fit = ((threshold - pos.sent) / (2 * channels)) as nat;
        let most = smaller(LIVE_CHUNK_FRAMES as nat, fit);
        if fit == 0 {
            BodyNext::Emit(BodyPart::Pad { bytes: (threshold - pos.sent) as u64 })
        } else if pos.preroll_left > 0 {
            BodyNext::Emit(
                BodyPart::Silence { frames: smaller(pos.preroll_left as nat, most) as usize },
            )
        } else if ring_frames == 0 {
            BodyNext::Wait
        } else {
            BodyNext::Emit(BodyPart::Pcm { frames: smaller(ring_frames, most) as usize })
        }
    }
}

/// Bytes in a part, with `channels` samples per silence frame and `ring_channels`
/// per frame from the ring.
pub open spec fn part_len(part: BodyPart, channels: u16, ring_channels: nat) -> nat {
    match part {
        BodyPart::Header => WAV_HEADER_LEN as nat,
        BodyPart::Silence { frames } => (frames * (2 * channels)) as nat,
        BodyPart::Pad { bytes } => bytes as nat,
        BodyPart::Pcm { frames } => (2 * (frames * ring_channels)) as nat,
    }
}

/// PCM frames in a part, preroll silence included.
pub open spec fn part_frames(part: BodyPart) -> nat {
    match part {
        BodyPart::Header => 0,
        BodyPart::Silence { frames } => frames as nat,
        BodyPart::Pad { .. } => 0,
        BodyPart::Pcm { frames } => frames as nat,
    }
}

/// The bytes of a part.
pub open spec fn part_bytes(
    part: BodyPart,
    header: Seq<u8>,
    channels: u16,
    ring: Seq<i16>,
    ring_channels: nat,
) -> Seq<u8> {
    match part {
        BodyPart::Header => header,
        BodyPart::Silence { frames } => zeros((frames * (2 * channels)) as nat),
        BodyPart::Pad { bytes } => zeros(bytes as nat),
        BodyPart::Pcm { frames } => wav::pcm_bytes(ring.take((frames * ring_channels) as int)),
    }
}

/// Where a body stands after a part.
pub open spec fn pos_after(pos: BodyPos, part: BodyPart, len: nat) -> BodyPos {
    BodyPos {
        header_sent: pos.header_sent || part is Header,
        preroll_left: match part {
            BodyPart::Silence { frames } => (pos.preroll_left - frames) as usize,
            _ => pos.preroll_left,
        },
        sent: pace::sat64(pos.sent + len) as u64,
    }
}

/// A progressive WAV body: header, silence preroll, then paced PCM from a ring.
#[derive(Debug)]
pub struct LiveWavBody {
    /// The header that opens the body.
    pub header: [u8; 44],
    /// How far the body has come.
    pub pos: BodyPos,
    /// Channel count of the header.
    pub channels: u16,
    /// Sample rate of the header.
    pub sample_rate: u32,
    /// The request that this body answers.
    pub generation: u64,
    /// Frames sent, preroll included.
    pub frames_emitted: u64,
    /// Clock reading that pacing counts from.
    pub pace_origin: Option<Instant>,
    /// Content-Length.
    pub threshold: u64,
}

/// The pace origin of a body is a reading of the clock.
pub open spec fn origin_ok(pace_origin: Option<Instant>) -> bool {
    pace_origin matches Some(o) ==> o <= LATEST_INSTANT
}

/// How long a chunk of `frames` frames is held, and the origin afterwards.
pub open spec fn paced(
    frames_emitted: u64,
    pace_origin: Option<Instant>,
    sample_rate: u32,
    frames: usize,
    backlog: nat,
    backlog_threshold: usize,
    now: Instant,
) -> (Option<Duration>, Option<Instant>) {
    let origin = pace::origin_or(pace_origin, now);
    let plan = pace::plan_for(
        pace::wake_at(pace::due_at(frames_emitted, frames, sample_rate, origin), origin, LIVE_LEAD),
        now,
        PACE_LATE_SLACK,
    );
    let shifted = match plan.rebaseline {
        Some(late) => if backlog >= backlog_threshold {
            origin
        } else {
            (origin + late) as u128
        },
        None => origin,
    };
    (plan.sleep, Some(shifted))
}

/// Audio time within a 64-bit count of milliseconds never passes the end of the clock.
proof fn lemma_due_fits(frames_emitted: u64, frames: usize, sample_rate: u32, origin: Instant)
    requires
        origin <= LATEST_INSTANT,
    ensures
        origin <= pace::due_at(frames_emitted, frames, sample_rate, origin) <= u128::MAX,
{
    let rate = if sample_rate == 0 {
        1int
    } else {
        sample_rate as int
    };
    let scaled = pace::sat64(pace::sat64(frames_emitted + frames) * 1000);
    assert(0 <= scaled / rate <= scaled) by (nonlinear_arith)
        requires
            rate >= 1,
            scaled >= 0,
    ;
    assert(pace::audio_millis(frames_emitted, frames, sample_rate) == scaled / rate);
}

/// A paced origin stays within the clock.
proof fn lemma_paced_origin_ok(
    frames_emitted: u64,
    pace_origin: Option<Instant>,
    sample_rate: u32,
    frames: usize,
    backlog: nat,
    backlog_threshold: usize,
    now: Instant,
)
    requires
        origin_ok(pace_origin),
        now + LIVE_LEAD <= LATEST_INSTANT,
    ensures
        origin_ok(
            paced(
                frames_emitted,
                pace_origin,
                sample_rate,
                frames,
                backlog,
                backlog_threshold,
                now,
            ).1,
        ),
{
    lemma_due_fits(frames_emitted, frames, sample_rate, pace::origin_or(pace_origin, now));
}

impl LiveWavBody {
    /// A body that its driver may step.
    pub open spec fn wf(&self) -> bool {
        self.channels >= 1 && origin_ok(self.pace_origin)
    }

    /// Start the body that answers request `generation`.
    pub fn new(
        header: [u8; 44],
        channels: u16,
        sample_rate: u32,
        preroll_frames: usize,
        generation: u64,
        threshold: u64,
    ) -> (body: LiveWavBody)
        requires
            channels >= 1,
        ensures
            body.wf(),
            body == (LiveWavBody {
                header,
                pos: BodyPos { header_sent: false, preroll_left: preroll_frames, sent: 0 },
                channels,
                sample_rate: if sample_rate == 0 {
                    1
                } else {
                    sample_rate
                },
                generation,
                frames_emitted: 0,
                pace_origin: None,
                threshold,
            }),
    {
        LiveWavBody {
            header,
            pos: BodyPos { header_sent: false, preroll_left: preroll_frames, sent: 0 },
            channels,
            sample_rate: if sample_rate == 0 {
                1
            } else {
                sample_rate
            },
            generation,
            frames_emitted: 0,
            pace_origin: None,
            threshold,
        }
    }

    /// Everything but the position, the frame count and the pace origin is as in `other`.
    pub open spec fn same_stream(&self, other: &LiveWavBody) -> bool {
        &&& self.header == other.header
        &&& self.channels == other.channels
        &&& self.sample_rate == other.sample_rate
        &&& self.generation == other.generation
        &&& self.threshold == other.threshold
    }

    /// Account for a chunk and hand it out.
    ///
    /// A connection is not polled again once its Content-Length is satisfied, so the
    /// chunk that reaches it asks for the re-LOAD.
    fn emit_chunk(&mut self, bytes: Vec<u8>, frames: usize, hold: Option<Duration>) -> (r: LiveStep)
        ensures
            final(self).same_stream(old(self)),
            final(self).pace_origin == old(self).pace_origin,
            final(self).frames_emitted == pace::sat64(old(self).frames_emitted + frames),
            final(self).pos == (BodyPos {
                sent: pace::sat64(old(self).pos.sent + bytes@.len()) as u64,
                ..old(self).pos
            }),
            r matches LiveStep::Chunk { bytes: b, hold: h, rollover } && b@ == bytes@ && h == hold
                && rollover == (old(self).pos.sent < old(self).threshold && final(self).pos.sent
                >= old(self).threshold),
    {
        let before: u64 = self.pos.sent;
        let n: u64 = bytes.len() as u64;
        self.pos.sent = before.saturating_add(n);
        self.frames_emitted = self.frames_emitted.saturating_add(frames as u64);
        let rollover: bool = before < self.threshold && self.pos.sent >= self.threshold;
        LiveStep::Chunk { bytes, hold, rollover }
    }

    /// Advance the body by one move.
    ///
    /// `current_generation` is the newest request for the stream: an older body ends
    /// before it takes anything from the ring. PCM leaves the ring only to be sent.
    pub fn step(&mut self, ring: &mut PcmRing, current_generation: u64, now: Instant) -> (r:
        LiveStep)
        requires
            old(self).wf(),
            old(ring).wf(),
            now + LIVE_LEAD <= LATEST_INSTANT,
        ensures
            final(self).wf(),
            final(ring).wf(),
            final(ring).same_shape(old(ring)),
            final(ring).dropped() == old(ring).dropped(),
            match body_next(
                old(self).pos,
                old(self).threshold,
                old(self).channels,
                old(ring).frames(),
                current_generation != old(self).generation,
            ) {
                BodyNext::End => {
                    &&& r is End
                    &&& *final(self) == *old(self)
                    &&& final(ring)@.samples == old(ring)@.samples
                    &&& final(ring).underruns() == old(ring).underruns()
                },
                BodyNext::Wait => {
                    &&& r matches LiveStep::Wait(d) && d == LIVE_UNDERRUN_SLEEP
                    &&& *final(self) == *old(self)
                    &&& final(ring)@.samples == old(ring)@.samples
                    &&& final(ring).underruns() == pcm::wrap_u64(old(ring).underruns() + 1)
                },
                BodyNext::Emit(part) => {
                    let ch = old(ring).channel_count();
                    let len = part_len(part, old(self).channels, ch);
                    &&& final(self).same_stream(old(self))
                    &&& final(self).pos == pos_after(old(self).pos, part, len)
                    &&& final(self).frames_emitted == pace::sat64(
                        old(self).frames_emitted + part_frames(part),
                    )
                    &&& final(ring).underruns() == old(ring).underruns()
                    &&& final(ring)@.samples == match part {
                        BodyPart::Pcm { frames } => old(ring)@.samples.skip((frames * ch) as int),
                        _ => old(ring)@.samples,
                    }
                    &&& r matches LiveStep::Chunk { bytes, hold, rollover } && {
                        &&& bytes@ == part_bytes(
                            part,
                            old(self).header@,
                            old(self).channels,
                            old(ring)@.samples,
                            ch,
                        )
                        &&& bytes@.len() == len
                        &&& rollover == (final(self).pos.sent >= old(self).threshold)
                        &&& (hold, final(self).pace_origin) == match part {
                            BodyPart::Pcm { frames } => paced(
                                old(self).frames_emitted,
                                old(self).pace_origin,
                                old(self).sample_rate,
                                frames,
                                final(ring).frames(),
                                LIVE_CHUNK_FRAMES,
                                now,
                            ),
                            _ => (None, old(self).pace_origin),
                        }
                    }
                },
            },
            r matches LiveStep::Wait(d) ==> d == 5_000_000,
            r matches LiveStep::Chunk { bytes, hold, rollover } ==> rollover == asks_for_reload(
                final(self).pos.sent,
                old(self).threshold,
            ),
            match body_next(
                old(self).pos,
                old(self).threshold,
                old(self).channels,
                old(ring).frames(),
                current_generation != old(self).generation,
            ) {
                BodyNext::Emit(part) => final(ring)@.samples == ring_left(
                    part,
                    old(ring)@.samples,
                    old(ring).channel_count(),
                ),
                _ => final(ring)@.samples == old(ring)@.samples,
            },
    {
        if current_generation != self.generation {
            return LiveStep::End;
        }
        if self.pos.sent >= self.threshold {
            return LiveStep::End;
        }
        if !self.pos.header_sent {
            self.pos.header_sent = true;
            let mut bytes: Vec<u8> = Vec::new();
            bytes.extend_from_slice(self.header.as_slice());
            proof {
                assert(bytes@ =~= old(self).header@);
            }
            return self.emit_chunk(bytes, 0, None);
        }
        let remaining: u64 = self.threshold - self.pos.sent;
        let per_frame: u64 = 2 * self.channels as u64;
        let fit: u64 = remaining / per_frame;
        if fit == 0 {
            proof {
                assert(remaining < per_frame) by (nonlinear_arith)
                    requires
                        remaining / per_frame == 0,
                        per_frame > 0,
                ;
            }
            let bytes = zero_bytes(remaining as usize);
            return self.emit_chunk(bytes, 0, None);
        }
        let most: usize = if fit < LIVE_CHUNK_FRAMES as u64 {
            fit as usize
        } else {
            LIVE_CHUNK_FRAMES
        };
        if self.pos.preroll_left > 0 {
            let n: usize = if self.pos.preroll_left < most {
                self.pos.preroll_left
            } else {
                most
            };
            self.pos.preroll_left = self.pos.preroll_left - n;
            proof {
                assert(0 <= n * per_frame <= 1024 * 131070) by (nonlinear_arith)
                    requires
                        0 <= n <= 1024,
                        0 <= per_frame <= 131070,
                ;
            }
            let bytes = zero_bytes(n * per_frame as usize);
            return self.emit_chunk(bytes, n, None);
        }
        let mut samples: Vec<i16> = Vec::new();
        let frames: usize = ring.pop_i16(most, &mut samples);
        if frames == 0 {
            proof {
                assert(old(ring).frames() == 0);
                assert(old(ring)@.samples.skip(0) =~= old(ring)@.samples);
                assert(0 * old(ring).channel_count() == 0);
            }
            return LiveStep::Wait(LIVE_UNDERRUN_SLEEP);
        }
        proof {
            lemma_due_fits(
                self.frames_emitted,
                frames,
                self.sample_rate,
                pace::origin_or(self.pace_origin, now),
            );
            lemma_paced_origin_ok(
                self.frames_emitted,
                self.pace_origin,
                self.sample_rate,
                frames,
                ring.frames(),
                LIVE_CHUNK_FRAMES,
                now,
            );
        }
        let backlog: usize = ring.occupancy_frames();
        let hold = pace_realtime_shared(
            self.frames_emitted,
            &mut self.pace_origin,
            self.sample_rate,
            frames,
            backlog,
            LIVE_CHUNK_FRAMES,
            now,
        );
        let mut bytes: Vec<u8> = Vec::new();
        push_pcm(&mut bytes, samples.as_slice());
        proof {
            assert(bytes@ =~= wav::pcm_bytes(samples@));
        }
        self.emit_chunk(bytes, frames, hold)
    }
}

/// Where a body stands after one poll that finds `ring_frames` frames in a ring of
/// the body's own channel count, while no newer request has come.
pub open spec fn poll_pos(pos: BodyPos, threshold: u64, channels: u16, ring_frames: nat) -> BodyPos {
    match body_next(pos, threshold, channels, ring_frames, false) {
        BodyNext::Emit(part) => pos_after(pos, part, part_len(part, channels, channels as nat)),
        _ => pos,
    }
}

/// Bytes that one poll sends.
pub open spec fn poll_len(pos: BodyPos, threshold: u64, channels: u16, ring_frames: nat) -> nat {
    match body_next(pos, threshold, channels, ring_frames, false) {
        BodyNext::Emit(part) => part_len(part, channels, channels as nat),
        _ => 0,
    }
}

/// Re-LOADs that one poll asks for.
pub open spec fn poll_rollovers(
    pos: BodyPos,
    threshold: u64,
    channels: u16,
    ring_frames: nat,
) -> nat {
    match body_next(pos, threshold, channels, ring_frames, false) {
        BodyNext::Emit(part) => if poll_pos(pos, threshold, channels, ring_frames).sent
            >= threshold {
            1
        } else {
            0
        },
        _ => 0,
    }
}

/// Where a body stands after a series of polls.
pub open spec fn body_pos(start: BodyPos, threshold: u64, channels: u16, polls: Seq<nat>) -> BodyPos
    decreases polls.len(),
{
    if polls.len() == 0 {
        start
    } else {
        poll_pos(
            body_pos(start, threshold, channels, polls.drop_last()),
            threshold,
            channels,
            polls.last(),
        )
    }
}

/// Bytes that a series of polls sends.
pub open spec fn body_len(start: BodyPos, threshold: u64, channels: u16, polls: Seq<nat>) -> nat
    decreases polls.len(),
{
    if polls.len() == 0 {
        0
    } else {
        body_len(start, threshold, channels, polls.drop_last()) + poll_len(
            body_pos(start, threshold, channels, polls.drop_last()),
            threshold,
            channels,
            polls.last(),
        )
    }
}

/// Re-LOADs that a series of polls asks for.
pub open spec fn body_rollovers(
    start: BodyPos,
    threshold: u64,
    channels: u16,
    polls: Seq<nat>,
) -> nat
    decreases polls.len(),
{
    if polls.len() == 0 {
        0
    } else {
        body_rollovers(start, threshold, channels, polls.drop_last()) + poll_rollovers(
            body_pos(start, threshold, channels, polls.drop_last()),
            threshold,
            channels,
            polls.last(),
        )
    }
}

/// A poll never sends past the Content-Length and, unless it waits or the body is
/// over, sends something.
proof fn lemma_poll(pos: BodyPos, threshold: u64, channels: u16, ring_frames: nat)
    requires
        channels >= 1,
        threshold >= WAV_HEADER_LEN,
        pos.sent <= threshold,
        !pos.header_sent ==> pos.sent == 0,
    ensures
        ({
            let after = poll_pos(pos, threshold, channels, ring_frames);
            let len = poll_len(pos, threshold, channels, ring_frames);
            &&& after.sent == pos.sent + len
            &&& after.sent <= threshold
            &&& !after.header_sent ==> after.sent == 0
            &&& pos.sent < threshold && ring_frames > 0 ==> len > 0
        }),
{
    if let BodyNext::Emit(part) = body_next(pos, threshold, channels, ring_frames, false) {
        let fit = ((threshold - pos.sent) / (2 * channels)) as nat;
        match part {
            BodyPart::Silence { frames } => {
                lemma_part_fits(frames as int, channels as int, threshold - pos.sent);
            },
            BodyPart::Pcm { frames } => {
                lemma_part_fits(frames as int, channels as int, threshold - pos.sent);
            },
            _ => {},
        }
    }
}

/// As many frames as fit take no more bytes than remain.
pub(crate) proof fn lemma_part_fits(frames: int, channels: int, remaining: int)
    requires
        channels >= 1,
        remaining >= 0,
        1 <= frames <= remaining / (2 * channels),
    ensures
        0 < frames * (2 * channels) <= remaining,
        2 * (frames * channels) == frames * (2 * channels),
{
    assert(0 < frames * (2 * channels) <= remaining) by (nonlinear_arith)
        requires
            channels >= 1,
            remaining >= 0,
            1 <= frames <= remaining / (2 * channels),
    ;
    assert(2 * (frames * channels) == frames * (2 * channels)) by (nonlinear_arith);
}

/// A WAV body never sends more than its Content-Length, whatever the ring delivers,
/// and asks for a re-LOAD exactly once: with the chunk that reaches the
/// Content-Length.
pub proof fn law_body_ends_exactly_at_content_length(
    preroll: usize,
    threshold: u64,
    channels: u16,
    polls: Seq<nat>,
)
    requires
        channels >= 1,
        threshold >= WAV_HEADER_LEN,
    ensures
        ({
            let start = BodyPos { header_sent: false, preroll_left: preroll, sent: 0 };
            let end = body_pos(start, threshold, channels, polls);
            let len = body_len(start, threshold, channels, polls);
            &&& end.sent == len
            &&& len <= threshold
            &&& !end.header_sent ==> end.sent == 0
            &&& body_rollovers(start, threshold, channels, polls) == (if len == threshold {
                1nat
            } else {
                0nat
            })
            &&& forall|frames: nat|
                #[trigger] body_next(end, threshold, channels, frames, false) is End <==> len
                    == threshold
        }),
    decreases polls.len(),
{
    let start = BodyPos { header_sent: false, preroll_left: preroll, sent: 0 };
    if polls.len() > 0 {
        let before = polls.drop_last();
        law_body_ends_exactly_at_content_length(preroll, threshold, channels, before);
        let mid = body_pos(start, threshold, channels, before);
        lemma_poll(mid, threshold, channels, polls.last());
    }
}

/// While a body is not over, every poll that finds PCM brings it closer to its
/// Content-Length.
pub proof fn law_body_makes_progress(
    preroll: usize,
    threshold: u64,
    channels: u16,
    polls: Seq<nat>,
    ring_frames: nat,
)
    requires
        channels >= 1,
        threshold >= WAV_HEADER_LEN,
        ring_frames > 0,
    ensures
        ({
            let start = BodyPos { header_sent: false, preroll_left: preroll, sent: 0 };
            let len = body_len(start, threshold, channels, polls);
            len < threshold ==> body_len(start, threshold, channels, polls.push(ring_frames)) > len
        }),
{
    let start = BodyPos { header_sent: false, preroll_left: preroll, sent: 0 };
    law_body_ends_exactly_at_content_length(preroll, threshold, channels, polls);
    assert(polls.push(ring_frames).drop_last() =~= polls);
    lemma_poll(body_pos(start, threshold, channels, polls), threshold, channels, ring_frames);
}

/// A body that has been superseded takes nothing from the ring and sends nothing.
pub proof fn law_superseded_body_ends(
    pos: BodyPos,
    threshold: u64,
    channels: u16,
    ring_frames: nat,
)
    ensures
        body_next(pos, threshold, channels, ring_frames, true) is End,
{
}

/// Silence comes only from the preroll and from the last partial frame: once the
/// preroll is spent and a frame still fits, a body sends PCM or waits.
pub proof fn law_no_silence_mid_stream(
    pos: BodyPos,
    threshold: u64,
    channels: u16,
    ring_frames: nat,
)
    requires
        channels >= 1,
        pos.header_sent,
        pos.preroll_left == 0,
        pos.sent + 2 * channels <= threshold,
    ensures
        match body_next(pos, threshold, channels, ring_frames, false) {
            BodyNext::Emit(part) => part is Pcm && ring_frames > 0,
            BodyNext::Wait => ring_frames == 0,
            BodyNext::End => false,
        },
{
    let remaining = threshold - pos.sent;
    assert(remaining / (2 * channels) >= 1) by (nonlinear_arith)
        requires
            remaining >= 2 * channels,
            channels >= 1,
    ;
}

// ── FLAC body ───────────────────────────────────────────────────────────────

/// A progressive FLAC body: stream header, silence preroll, then paced PCM blocks.
///
/// It has no Content-Length and no rollover. Every frame holds a full block.
#[derive(Debug)]
pub struct LiveFlacBody {
    /// The stream header that opens the body.
    pub header: Vec<u8>,
    /// The header has been sent.
    pub header_sent: bool,
    /// Silence frames still to send.
    pub preroll_left: usize,
    /// Format of the stream.
    pub info: StreamInfo,
    /// The request that this body answers.
    pub generation: u64,
    /// Bytes sent.
    pub bytes_sent: u64,
    /// PCM frames sent, preroll included.
    pub frames_emitted: u64,
    /// Clock reading that pacing counts from.
    pub pace_origin: Option<Instant>,
    /// Number of the next FLAC frame.
    pub frame_number: usize,
}

/// What a FLAC body does next.
pub enum FlacNext {
    /// It ends.
    End,
    /// It waits for a full block.
    Wait,
    /// It sends the stream header.
    Header,
    /// It sends a frame of this many silence frames.
    Silence(nat),
    /// It sends a full block from the ring.
    Block,
}

/// The next move of a FLAC body: end when superseded; otherwise the header, then the
/// preroll, then full blocks, waiting while the ring holds less than one.
pub open spec fn flac_next(
    header_sent: bool,
    preroll_left: usize,
    ring_frames: nat,
    superseded: bool,
) -> FlacNext {
    if superseded {
        FlacNext::End
    } else if !header_sent {
        FlacNext::Header
    } else if preroll_left > 0 {
        FlacNext::Silence(smaller(preroll_left as nat, FLAC_BLOCK_SIZE as nat))
    } else if ring_frames < FLAC_BLOCK_SIZE {
        FlacNext::Wait
    } else {
        FlacNext::Block
    }
}

impl LiveFlacBody {
    /// A body that its driver may step.
    pub open spec fn wf(&self) -> bool {
        self.info.encodable() && origin_ok(self.pace_origin)
    }

    /// Everything that never changes is as in `other`.
    pub open spec fn same_stream(&self, other: &LiveFlacBody) -> bool {
        &&& self.header == other.header
        &&& self.info == other.info
        &&& self.generation == other.generation
    }

    /// The next move of this body.
    pub open spec fn next(&self, ring_frames: nat, superseded: bool) -> FlacNext {
        flac_next(self.header_sent, self.preroll_left, ring_frames, superseded)
    }

    /// The encoder takes `len` samples as the next frame.
    pub open spec fn takes(&self, len: nat) -> bool {
        let ch = self.info.channels as nat;
        &&& len % ch == 0
        &&& 1 <= len / ch <= FLAC_BLOCK_SIZE
        &&& self.frame_number < FRAME_NUMBER_LIMIT
    }

    /// `r` and the state after it are those of sending `samples` as one frame, or of
    /// ending because the encoder does not take them.
    pub open spec fn frame_sent(
        &self,
        before: &LiveFlacBody,
        samples: Seq<i16>,
        frames: nat,
        hold: Option<Duration>,
        r: LiveStep,
    ) -> bool {
        if before.takes(samples.len()) {
            &&& self.frame_number == before.frame_number + 1
            &&& self.frames_emitted == pace::sat64(before.frames_emitted + frames)
            &&& r matches LiveStep::Chunk { bytes, hold: h, rollover } && {
                &&& h == hold
                &&& !rollover
                &&& self.bytes_sent == pace::sat64(before.bytes_sent + bytes@.len())
                &&& bytes@.len() > 2 && bytes@[2] % 16 == flac::rate_tag(before.info.sample_rate)
                &&& flac::flac_frame_parts(bytes@) == (
                    before.frame_number as nat,
                    before.info.channels as nat,
                    flac::widened(samples),
                )
            }
        } else {
            &&& self.frame_number == before.frame_number
            &&& self.frames_emitted == before.frames_emitted
            &&& self.bytes_sent == before.bytes_sent
            &&& r is End
        }
    }

    /// Start the body that answers request `generation`.
    pub fn new(header: Vec<u8>, info: StreamInfo, preroll_frames: usize, generation: u64) -> (body:
        LiveFlacBody)
        requires
            info.encodable(),
        ensures
            body.wf(),
            body.header == header,
            body.info == info,
            body.generation == generation,
            !body.header_sent,
            body.preroll_left == preroll_frames,
            body.bytes_sent == 0,
            body.frames_emitted == 0,
            body.pace_origin is None,
            body.frame_number == 0,
    {
        LiveFlacBody {
            header,
            header_sent: false,
            preroll_left: preroll_frames,
            info,
            generation,
            bytes_sent: 0,
            frames_emitted: 0,
            pace_origin: None,
            frame_number: 0,
        }
    }

    /// Encode `samples` as the next frame and hand it out; end when the encoder
    /// refuses.
    fn send_frame(&mut self, samples: &[i16], frames: usize, hold: Option<Duration>) -> (r: LiveStep)
        requires
            old(self).wf(),
        ensures
            final(self).wf(),
            final(self).same_stream(old(self)),
            final(self).header_sent == old(self).header_sent,
            final(self).preroll_left == old(self).preroll_left,
            final(self).pace_origin == old(self).pace_origin,
            final(self).frame_sent(old(self), samples@, frames as nat, hold, r),
    {
        match encode_i16_block_to_frame(
            samples,
            self.info.channels,
            self.frame_number,
            &self.info,
        ) {
            Ok(bytes) => {
                self.frame_number = self.frame_number + 1;
                self.bytes_sent = self.bytes_sent.saturating_add(bytes.len() as u64);
                self.frames_emitted = self.frames_emitted.saturating_add(frames as u64);
                LiveStep::Chunk { bytes, hold, rollover: false }
            },
            Err(_) => LiveStep::End,
        }
    }

    /// Advance the body by one move.
    ///
    /// `current_generation` is the newest request for the stream: an older body ends
    /// before it takes anything from the ring.
    pub fn step(&mut self, ring: &mut PcmRing, current_generation: u64, now: Instant) -> (r:
        LiveStep)
        requires
            old(self).wf(),
            old(ring).wf(),
            now + LIVE_LEAD <= LATEST_INSTANT,
        ensures
            final(self).wf(),
            final(self).same_stream(old(self)),
            final(ring).wf(),
            final(ring).same_shape(old(ring)),
            final(ring).dropped() == old(ring).dropped(),
            final(ring).underruns() == old(ring).underruns(),
            match old(self).next(old(ring).frames(), current_generation != old(self).generation) {
                FlacNext::End => {
                    &&& r is End
                    &&& *final(self) == *old(self)
                    &&& final(ring)@.samples == old(ring)@.samples
                },
                FlacNext::Wait => {
                    &&& r matches LiveStep::Wait(d) && d == LIVE_UNDERRUN_SLEEP
                    &&& *final(self) == *old(self)
                    &&& final(ring)@.samples == old(ring)@.samples
                },
                FlacNext::Header => {
                    &&& r matches LiveStep::Chunk { bytes, hold, rollover } && bytes@
                        == old(self).header@ && hold is None && !rollover
                    &&& final(self).header_sent
                    &&& final(self).preroll_left == old(self).preroll_left
                    &&& final(self).bytes_sent == pace::sat64(
                        old(self).bytes_sent + old(self).header@.len(),
                    )
                    &&& final(self).frames_emitted == old(self).frames_emitted
                    &&& final(self).pace_origin == old(self).pace_origin
                    &&& final(self).frame_number == old(self).frame_number
                    &&& final(ring)@.samples == old(ring)@.samples
                },
                FlacNext::Silence(n) => {
                    &&& final(self).header_sent
                    &&& final(self).preroll_left == old(self).preroll_left - n
                    &&& final(self).pace_origin == old(self).pace_origin
                    &&& final(self).frame_sent(
                        old(self),
                        zero_samples(n * old(self).info.channels as nat),
                        n,
                        None,
                        r,
                    )
                    &&& final(ring)@.samples == old(ring)@.samples
                },
                FlacNext::Block => {
                    let taken = (FLAC_BLOCK_SIZE * old(ring).channel_count()) as int;
                    let pace = paced(
                        old(self).frames_emitted,
                        old(self).pace_origin,
                        old(self).info.sample_rate,
                        FLAC_BLOCK_SIZE,
                        final(ring).frames(),
                        FLAC_BLOCK_SIZE,
                        now,
                    );
                    &&& final(self).header_sent
                    &&& final(self).preroll_left == 0
                    &&& final(self).pace_origin == pace.1
                    &&& final(self).frame_sent(
                        old(self),
                        old(ring)@.samples.take(taken),
                        FLAC_BLOCK_SIZE as nat,
                        pace.0,
                        r,
                    )
                    &&& final(ring)@.samples == old(ring)@.samples.skip(taken)
                },
            },
            r matches LiveStep::Wait(d) ==> d == 5_000_000,
    {
        if current_generation != self.generation {
            return LiveStep::End;
        }
        if !self.header_sent {
            self.header_sent = true;
            let mut bytes: Vec<u8> = Vec::new();
            bytes.extend_from_slice(self.header.as_slice());
            proof {
                assert(bytes@ =~= old(self).header@);
            }
            self.bytes_sent = self.bytes_sent.saturating_add(bytes.len() as u64);
            return LiveStep::Chunk { bytes, hold: None, rollover: false };
        }
        if self.preroll_left > 0 {
            let n: usize = if self.preroll_left < FLAC_BLOCK_SIZE {
                self.preroll_left
            } else {
                FLAC_BLOCK_SIZE
            };
            self.preroll_left = self.preroll_left - n;
            let ch: usize = self.info.channels as usize;
            proof {
                assert(0 <= n * ch <= 4096 * 8) by (nonlinear_arith)
                    requires
                        0 <= n <= 4096,
                        0 <= ch <= 8,
                ;
            }
            let samples: Vec<i16> = vec![0i16; n * ch];
            proof {
                assert(samples@ =~= zero_samples((n * ch) as nat));
            }
            return self.send_frame(samples.as_slice(), n, None);
        }
        if ring.available_frames() < FLAC_BLOCK_SIZE {
            return LiveStep::Wait(LIVE_UNDERRUN_SLEEP);
        }
        let mut samples: Vec<i16> = Vec::new();
        let frames: usize = ring.pop_i16(FLAC_BLOCK_SIZE, &mut samples);
        proof {
            lemma_due_fits(
                self.frames_emitted,
                frames,
                self.info.sample_rate,
                pace::origin_or(self.pace_origin, now),
            );
            lemma_paced_origin_ok(
                self.frames_emitted,
                self.pace_origin,
                self.info.sample_rate,
                frames,
                ring.frames(),
                FLAC_BLOCK_SIZE,
                now,
            );
        }
        let backlog: usize = ring.occupancy_frames();
        let hold = pace_realtime_shared(
            self.frames_emitted,
            &mut self.pace_origin,
            self.info.sample_rate,
            frames,
            backlog,
            FLAC_BLOCK_SIZE,
            now,
        );
        self.send_frame(samples.as_slice(), frames, hold)
    }
}

/// A FLAC body never encodes a short frame: with a preroll of whole blocks, every
/// silence frame is a full block and leaves a preroll of whole blocks, and every PCM
/// frame is a full block from a ring that holds one.
pub proof fn law_flac_frames_are_full_blocks(body: LiveFlacBody, ring_frames: nat, superseded: bool)
    requires
        body.preroll_left as nat % (FLAC_BLOCK_SIZE as nat) == 0,
    ensures
        match body.next(ring_frames, superseded) {
            FlacNext::Silence(n) => n == FLAC_BLOCK_SIZE && (body.preroll_left - n) % (
            FLAC_BLOCK_SIZE as int) == 0,
            FlacNext::Block => ring_frames >= FLAC_BLOCK_SIZE,
            _ => true,
        },
{
}

/// Once the preroll is spent a FLAC body sends real PCM or waits; it never fills a
/// gap with silence.
pub proof fn law_no_flac_silence_mid_stream(body: LiveFlacBody, ring_frames: nat)
    requires
        body.header_sent,
        body.preroll_left == 0,
    ensures
        body.next(ring_frames, false) is Block || body.next(ring_frames, false) is Wait,
        body.next(ring_frames, true) is End,
{
}

// ── What the bodies promise ─────────────────────────────────────────────────

/// A Content-Length is what was asked for, and always holds the header.
pub proof fn law_content_length_holds_the_header(max_body_bytes: u64)
    ensures
        body_threshold(max_body_bytes) >= 44,
        max_body_bytes >= 44 ==> body_threshold(max_body_bytes) == max_body_bytes,
        max_body_bytes < 44 ==> body_threshold(max_body_bytes) == 44,
{
}

/// Two seconds of silence precede real PCM at every rate.
pub proof fn law_preroll_lasts_two_seconds(sample_rate: u32)
    ensures
        sample_rate >= 1 ==> preroll_frames(sample_rate) == 2 * sample_rate,
        sample_rate == 0 ==> preroll_frames(sample_rate) == 2,
{
}

/// Overflow is reported when the count has grown, and at most once a second.
pub proof fn law_overflow_reports_are_a_second_apart(log: DropLog, drops: u64, now: Instant)
    ensures
        log.due(drops, now) <==> drops > log.last_drops_seen && (log.last_drop_log matches Some(t)
            ==> now - t >= 1_000_000_000),
{
}

/// A body sends its header first, then all of the preroll, then PCM; it waits only for
/// PCM, and ends only at its Content-Length or when a newer request took over.
pub proof fn law_wav_parts_come_in_order(
    pos: BodyPos,
    threshold: u64,
    channels: u16,
    ring_frames: nat,
    superseded: bool,
)
    requires
        channels >= 1,
    ensures
        ({
            let next = body_next(pos, threshold, channels, ring_frames, superseded);
            let room = threshold - pos.sent;
            let frame_fits = room >= 2 * channels;
            &&& next is End <==> superseded || pos.sent >= threshold
            &&& next == BodyNext::Emit(BodyPart::Header) <==> !superseded && room > 0
                && !pos.header_sent
            &&& (next matches BodyNext::Emit(part) && part is Pad) <==> !superseded && room > 0
                && pos.header_sent && !frame_fits
            &&& next matches BodyNext::Emit(BodyPart::Pad { bytes }) ==> bytes == room
            &&& (next matches BodyNext::Emit(part) && part is Silence) <==> !superseded
                && pos.header_sent && frame_fits && pos.preroll_left > 0
            &&& next is Wait <==> !superseded && pos.header_sent && frame_fits && pos.preroll_left
                == 0 && ring_frames == 0
            &&& (next matches BodyNext::Emit(part) && part is Pcm) <==> !superseded
                && pos.header_sent && frame_fits && pos.preroll_left == 0 && ring_frames > 0
        }),
{
    if threshold > pos.sent {
        let room = threshold - pos.sent;
        let per = 2 * channels;
        assert(room / per == 0 <==> room < per) by (nonlinear_arith)
            requires
                room > 0,
                per > 0,
        ;
    }
}

/// A chunk is as large as it may be: at most 1024 frames, what there is, and what still
/// fits; never less than all three allow.
pub proof fn law_wav_chunks_are_as_large_as_allowed(
    pos: BodyPos,
    threshold: u64,
    channels: u16,
    ring_frames: nat,
)
    requires
        channels >= 1,
    ensures
        ({
            let room = threshold - pos.sent;
            let per = 2 * channels;
            match body_next(pos, threshold, channels, ring_frames, false) {
                BodyNext::Emit(BodyPart::Silence { frames }) => {
                    &&& 1 <= frames <= 1024 && frames <= pos.preroll_left && frames * per <= room
                    &&& frames == 1024 || frames == pos.preroll_left || (frames + 1) * per > room
                },
                BodyNext::Emit(BodyPart::Pcm { frames }) => {
                    &&& 1 <= frames <= 1024 && frames <= ring_frames && frames * per <= room
                    &&& frames == 1024 || frames == ring_frames || (frames + 1) * per > room
                },
                _ => true,
            }
        }),
{
    if threshold > pos.sent {
        let room = threshold - pos.sent;
        let per = 2 * channels;
        let fit = room / per;
        assert(fit >= 0 && fit * per <= room < (fit + 1) * per) by (nonlinear_arith)
            requires
                room > 0,
                per > 0,
                fit == room / per,
        ;
        assert forall|f: int| 0 <= f <= fit implies #[trigger] (f * per) <= room by {
            assert(f * per <= fit * per) by (nonlinear_arith)
                requires
                    0 <= f <= fit,
                    per > 0,
            ;
        }
        match body_next(pos, threshold, channels, ring_frames, false) {
            BodyNext::Emit(BodyPart::Silence { frames }) => {
                assert(frames as int * per <= room);
            },
            BodyNext::Emit(BodyPart::Pcm { frames }) => {
                assert(frames as int * per <= room);
            },
            _ => {},
        }
    }
}

/// What is sent is counted: two bytes for each sample of each frame, the 44 bytes of the
/// header, and every frame once toward the pace.
pub proof fn law_sent_bytes_and_frames_are_counted(
    pos: BodyPos,
    part: BodyPart,
    channels: u16,
    len: nat,
)
    requires
        len == part_len(part, channels, channels as nat),
        pos.sent + len <= u64::MAX,
        part matches BodyPart::Silence { frames } ==> frames <= pos.preroll_left,
    ensures
        ({
            let after = pos_after(pos, part, len);
            &&& after.sent == pos.sent + len
            &&& match part {
                BodyPart::Header => len == 44 && part_frames(part) == 0 && after.header_sent
                    && after.preroll_left == pos.preroll_left,
                BodyPart::Silence { frames } => len == frames * channels * 2 && part_frames(part)
                    == frames && after.preroll_left == pos.preroll_left - frames
                    && after.header_sent == pos.header_sent,
                BodyPart::Pad { bytes } => len == bytes && part_frames(part) == 0
                    && after.preroll_left == pos.preroll_left && after.header_sent
                    == pos.header_sent,
                BodyPart::Pcm { frames } => len == frames * channels * 2 && part_frames(part)
                    == frames && after.preroll_left == pos.preroll_left && after.header_sent
                    == pos.header_sent,
            }
        }),
{
    match part {
        BodyPart::Silence { frames } => {
            assert(frames * (2 * channels) == frames * channels * 2) by (nonlinear_arith);
        },
        BodyPart::Pcm { frames } => {
            assert(2 * (frames * channels) == frames * channels * 2) by (nonlinear_arith);
        },
        _ => {},
    }
}

/// The bytes of a part are its header, zeros, or the oldest samples of the ring in
/// order, least significant byte first.
pub proof fn law_parts_carry_the_oldest_samples(
    part: BodyPart,
    header: Seq<u8>,
    channels: u16,
    ring: Seq<i16>,
    i: int,
)
    requires
        0 <= i < part_bytes(part, header, channels, ring, channels as nat).len(),
        part matches BodyPart::Pcm { frames } ==> frames * channels <= ring.len(),
    ensures
        ({
            let bytes = part_bytes(part, header, channels, ring, channels as nat);
            match part {
                BodyPart::Header => bytes == header,
                BodyPart::Silence { frames } => bytes[i] == 0 && bytes.len() == frames * (2
                    * channels),
                BodyPart::Pad { bytes: n } => bytes[i] == 0 && bytes.len() == n,
                BodyPart::Pcm { frames } => {
                    let s = ring[i / 2] as int;
                    let bits = if s < 0 {
                        s + 65536
                    } else {
                        s
                    };
                    &&& bytes.len() == 2 * (frames * channels)
                    &&& bytes[i] == if i % 2 == 0 {
                        bits % 256
                    } else {
                        bits / 256
                    }
                },
            }
        }),
{
    match part {
        BodyPart::Pcm { frames } => {
            assert(frames * channels >= 0) by (nonlinear_arith);
            let taken = ring.take((frames * channels) as int);
            assert(taken[i / 2] == ring[i / 2]);
        },
        _ => {},
    }
}

/// A live chunk leaves two seconds before its audio time, at the earliest; when it is
/// more than 50 ms late and less than a chunk waits, the schedule moves to now.
pub proof fn law_live_lead_is_two_seconds(
    frames_emitted: u64,
    pace_origin: Option<Instant>,
    sample_rate: u32,
    frames: usize,
    backlog: nat,
    backlog_threshold: usize,
    now: Instant,
    millis: int,
)
    requires
        sample_rate >= 1,
        (frames_emitted + frames) * 1000 <= u64::MAX,
        millis * sample_rate <= (frames_emitted + frames) * 1000 < (millis + 1) * sample_rate,
        origin_ok(pace_origin),
        2_000_000_000 <= now && now + LIVE_LEAD <= LATEST_INSTANT,
        pace_origin matches Some(o) ==> o >= 2_000_000_000,
    ensures
        ({
            let p = paced(
                frames_emitted,
                pace_origin,
                sample_rate,
                frames,
                backlog,
                backlog_threshold,
                now,
            );
            let origin = match pace_origin {
                Some(o) => o,
                None => now,
            };
            let leave = origin + millis * 1_000_000 - 2_000_000_000;
            &&& p.0 is Some <==> leave > now
            &&& p.0 matches Some(hold) ==> now + hold == leave
            &&& p.1 == Some(
                if now - leave > 50_000_000 && backlog < backlog_threshold {
                    (origin + (now - leave)) as u128
                } else {
                    origin
                },
            )
        }),
{
    let n = (frames_emitted + frames) * 1000;
    let r = sample_rate as int;
    let m = pace::audio_millis(frames_emitted, frames, sample_rate);
    assert(m == n / r);
    assert(m == millis) by (nonlinear_arith)
        requires
            r >= 1,
            m == n / r,
            millis * r <= n < (millis + 1) * r,
    ;
    assert(millis >= 0) by (nonlinear_arith)
        requires
            n >= 0,
            r >= 1,
            n < (millis + 1) * r,
    ;
    lemma_due_fits(frames_emitted, frames, sample_rate, pace::origin_or(pace_origin, now));
}

/// A FLAC body sends its header first, then all of the preroll, then a block of 4096
/// frames whenever the ring holds one; it waits only for a full block, and ends only
/// when a newer request took over.
pub proof fn law_flac_parts_come_in_order(
    header_sent: bool,
    preroll_left: usize,
    ring_frames: nat,
    superseded: bool,
)
    ensures
        ({
            let next = flac_next(header_sent, preroll_left, ring_frames, superseded);
            &&& next is End <==> superseded
            &&& next is Header <==> !superseded && !header_sent
            &&& next is Silence <==> !superseded && header_sent && preroll_left > 0
            &&& next matches FlacNext::Silence(n) ==> n <= preroll_left && n <= 4096 && (n
                == preroll_left || n == 4096)
            &&& next is Block <==> !superseded && header_sent && preroll_left == 0 && ring_frames
                >= 4096
            &&& next is Wait <==> !superseded && header_sent && preroll_left == 0 && ring_frames
                < 4096
        }),
{
}

/// A FLAC frame takes one to 4096 whole frames, as long as frame numbers last, and is
/// numbered and counted in turn.
pub proof fn law_flac_frames_are_numbered_in_turn(
    before: LiveFlacBody,
    after: LiveFlacBody,
    samples: Seq<i16>,
    frames: nat,
    hold: Option<Duration>,
    r: LiveStep,
)
    requires
        before.wf(),
        after.frame_sent(&before, samples, frames, hold, r),
    ensures
        ({
            let ch = before.info.channels as int;
            let takes = samples.len() % (ch as nat) == 0 && ch <= samples.len() <= 4096 * ch
                && before.frame_number < 0x8000_0000;
            &&& r is Chunk <==> takes
            &&& r is End <==> !takes
            &&& takes ==> after.frame_number == before.frame_number + 1
            &&& takes && before.frames_emitted + frames <= u64::MAX ==> after.frames_emitted
                == before.frames_emitted + frames
            &&& !takes ==> after.frame_number == before.frame_number && after.frames_emitted
                == before.frames_emitted
            &&& r matches LiveStep::Chunk { bytes, hold: h, rollover } ==> h == hold && !rollover
                && flac::flac_frame_parts(bytes@).0 == before.frame_number
                && flac::flac_frame_parts(bytes@).1 == ch && flac::flac_frame_parts(bytes@).2.len()
                == samples.len() && forall|i: int|
                0 <= i < samples.len() ==> flac::flac_frame_parts(bytes@).2[i] == #[trigger] samples[i]
        }),
{
    let ch = before.info.channels as int;
    let n = samples.len() as int;
    assert(1 <= n / ch <= 4096 <==> ch <= n && n / ch <= 4096) by (nonlinear_arith)
        requires
            ch >= 1,
            n >= 0,
    ;
    assert(n % ch == 0 ==> (n / ch <= 4096 <==> n <= 4096 * ch)) by (nonlinear_arith)
        requires
            ch >= 1,
            n >= 0,
    ;
}

/// A body that has sent so much asks for a re-LOAD.
pub open spec fn asks_for_reload(sent: u64, threshold: u64) -> bool {
    sent >= threshold
}

/// What a part leaves in the ring.
pub open spec fn ring_left(part: BodyPart, ring: Seq<i16>, ring_channels: nat) -> Seq<i16> {
    match part {
        BodyPart::Pcm { frames } => ring.skip((frames * ring_channels) as int),
        _ => ring,
    }
}

/// The chunk that reaches the Content-Length asks for a re-LOAD, and none before it does.
pub proof fn law_reload_is_asked_for_at_the_end(sent: u64, threshold: u64)
    ensures
        sent < threshold ==> !asks_for_reload(sent, threshold),
        sent == threshold ==> asks_for_reload(sent, threshold),
        sent > threshold ==> asks_for_reload(sent, threshold),
{
}

/// PCM that was sent leaves the ring from its old end, and nothing else does; the other
/// parts leave the ring as it is.
pub proof fn law_sent_samples_leave_the_ring(part: BodyPart, ring: Seq<i16>, channels: nat)
    ensures
        part matches BodyPart::Pcm { frames } ==> (frames * channels <= ring.len() ==> ring
            == ring.take((frames * channels) as int) + ring_left(part, ring, channels)),
        !(part is Pcm) ==> ring_left(part, ring, channels) == ring,
{
    if let BodyPart::Pcm { frames } = part {
        if frames * channels <= ring.len() {
            assert(0 <= frames * channels) by (nonlinear_arith);
            assert(ring =~= ring.take((frames * channels) as int) + ring_left(
                part,
                ring,
                channels,
            ));
        }
    }
}

/// A body stays with its stream: neither its header nor its format, its generation or its
/// end changes while it is sent.
pub proof fn law_body_stays_with_its_stream(
    wav: LiveWavBody,
    wav_before: LiveWavBody,
    flac: LiveFlacBody,
    flac_before: LiveFlacBody,
)
    requires
        wav.same_stream(&wav_before),
        flac.same_stream(&flac_before),
    ensures
        wav.header@ == wav_before.header@,
        wav.channels == wav_before.channels && wav.sample_rate == wav_before.sample_rate,
        wav.generation == wav_before.generation && wav.threshold == wav_before.threshold,
        flac.header@ == flac_before.header@,
        flac.info.channels == flac_before.info.channels && flac.info.sample_rate
            == flac_before.info.sample_rate,
        flac.generation == flac_before.generation,
{
}

/// The bytes of a FLAC frame are counted, as far as the count goes; where none is sent,
/// none is counted.
pub proof fn law_flac_bytes_are_counted(
    before: LiveFlacBody,
    after: LiveFlacBody,
    samples: Seq<i16>,
    frames: nat,
    hold: Option<Duration>,
    r: LiveStep,
)
    requires
        after.frame_sent(&before, samples, frames, hold, r),
    ensures
        r matches LiveStep::Chunk { bytes, hold: h, rollover } ==> {
            &&& before.bytes_sent + bytes@.len() <= u64::MAX ==> after.bytes_sent
                == before.bytes_sent + bytes@.len()
            &&& before.bytes_sent + bytes@.len() > u64::MAX ==> after.bytes_sent == u64::MAX
        },
        r is End ==> after.bytes_sent == before.bytes_sent,
{
}

} // verus!
