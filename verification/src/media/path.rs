//! The way of PCM through a live body, over any run of pushes and steps.
//!
//! Nothing here runs: these are the laws that span the ring, the bodies and many
//! steps.

use vstd::prelude::*;
use crate::audio::flac::{FLAC_BLOCK_SIZE, FRAME_NUMBER_LIMIT};
use crate::audio::pcm;
use crate::audio::wav;
use crate::audio::wav::WAV_HEADER_LEN;
use crate::media::live;
use crate::media::live::{BodyNext, BodyPart, BodyPos, FlacNext};

verus! {

/// What happens to a ring that a body reads from.
pub enum PathEvent {
    /// PCM is pushed into the ring.
    Pushed(Seq<i16>),
    /// The body is stepped.
    Stepped,
}

/// Everything that was pushed, in order.
pub open spec fn pushed(events: Seq<PathEvent>) -> Seq<i16>
    decreases events.len(),
{
    if events.len() == 0 {
        Seq::empty()
    } else {
        match events.last() {
            PathEvent::Pushed(samples) => pushed(events.drop_last()) + samples,
            PathEvent::Stepped => pushed(events.drop_last()),
        }
    }
}

// ── WAV ─────────────────────────────────────────────────────────────────────

/// What a WAV stream is made of.
pub struct WavStream {
    /// The 44 bytes that open the body.
    pub header: Seq<u8>,
    /// Silence frames before PCM.
    pub preroll: usize,
    /// Content-Length.
    pub threshold: u64,
    /// Channel count of the header and of the ring.
    pub channels: u16,
    /// Samples that the ring holds at most.
    pub capacity: nat,
}

/// A WAV body that answers the newest request, and its ring.
pub struct WavPath {
    /// How far the body has come.
    pub pos: BodyPos,
    /// Samples in the ring.
    pub ring: Seq<i16>,
    /// Samples that the body has taken from the ring.
    pub taken: Seq<i16>,
    /// Bytes that the body has sent.
    pub body: Seq<u8>,
}

impl WavStream {
    /// A stream with a whole header that fits.
    pub open spec fn wf(self) -> bool {
        self.channels >= 1 && self.header.len() == WAV_HEADER_LEN && self.threshold
            >= WAV_HEADER_LEN
    }

    /// Where an event leads: a push keeps the newest samples, a step does what
    /// [`live::body_next`] says.
    pub open spec fn after(self, p: WavPath, event: PathEvent) -> WavPath {
        match event {
            PathEvent::Pushed(samples) => WavPath {
                ring: pcm::newest(p.ring + samples, self.capacity),
                ..p
            },
            PathEvent::Stepped => {
                let ch = self.channels as nat;
                match live::body_next(p.pos, self.threshold, self.channels, p.ring.len() / ch, false) {
                    BodyNext::Emit(part) => {
                        let n = match part {
                            BodyPart::Pcm { frames } => (frames * ch) as int,
                            _ => 0,
                        };
                        WavPath {
                            pos: live::pos_after(
                                p.pos,
                                part,
                                live::part_len(part, self.channels, ch),
                            ),
                            ring: p.ring.skip(n),
                            taken: p.taken + p.ring.take(n),
                            body: p.body + live::part_bytes(
                                part,
                                self.header,
                                self.channels,
                                p.ring,
                                ch,
                            ),
                        }
                    },
                    _ => p,
                }
            },
        }
    }

    /// Where a run of events leads, from an empty ring and a new body.
    pub open spec fn run(self, events: Seq<PathEvent>) -> WavPath
        decreases events.len(),
    {
        if events.len() == 0 {
            WavPath {
                pos: BodyPos { header_sent: false, preroll_left: self.preroll, sent: 0 },
                ring: Seq::empty(),
                taken: Seq::empty(),
                body: Seq::empty(),
            }
        } else {
            self.after(self.run(events.drop_last()), events.last())
        }
    }

    /// Every push of the run finds room in the ring.
    pub open spec fn never_overflows(self, events: Seq<PathEvent>) -> bool
        decreases events.len(),
    {
        events.len() > 0 ==> {
            &&& self.never_overflows(events.drop_last())
            &&& events.last() matches PathEvent::Pushed(samples) ==> self.run(
                events.drop_last(),
            ).ring.len() + samples.len() <= self.capacity
        }
    }

    /// Preroll bytes sent.
    pub open spec fn silence_sent(self, p: WavPath) -> int {
        (self.preroll - p.pos.preroll_left) * (2 * self.channels)
    }

    /// Bytes that fill the partial frame before the Content-Length.
    pub open spec fn padding_sent(self, p: WavPath) -> int {
        p.pos.sent - WAV_HEADER_LEN - self.silence_sent(p) - 2 * p.taken.len()
    }

    /// The body is the header, silence, the samples taken and padding; the padding is
    /// less than a frame and comes only with the end.
    pub open spec fn in_order(self, p: WavPath) -> bool {
        if !p.pos.header_sent {
            &&& p.body == Seq::<u8>::empty()
            &&& p.taken == Seq::<i16>::empty()
            &&& p.pos.sent == 0
            &&& p.pos.preroll_left == self.preroll
        } else {
            &&& p.body == self.header + live::zeros(self.silence_sent(p) as nat) + wav::pcm_bytes(
                p.taken,
            ) + live::zeros(self.padding_sent(p) as nat)
            &&& p.pos.preroll_left <= self.preroll
            &&& p.taken.len() > 0 ==> p.pos.preroll_left == 0
            &&& 0 <= self.silence_sent(p)
            &&& 0 <= self.padding_sent(p) < 2 * self.channels
            &&& self.padding_sent(p) > 0 ==> p.pos.sent == self.threshold
            &&& p.pos.sent <= self.threshold
        }
    }
}

/// Bytes of joined samples are the joined bytes.
proof fn lemma_pcm_bytes_join(a: Seq<i16>, b: Seq<i16>)
    ensures
        wav::pcm_bytes(a + b) == wav::pcm_bytes(a) + wav::pcm_bytes(b),
{
    let joined = wav::pcm_bytes(a) + wav::pcm_bytes(b);
    assert forall|i: int| 0 <= i < joined.len() implies wav::pcm_bytes(a + b)[i] == joined[i] by {
        if i >= 2 * a.len() {
            assert(i / 2 - a.len() == (i - 2 * a.len()) / 2);
            assert(i % 2 == (i - 2 * a.len()) % 2);
        }
    }
    assert(wav::pcm_bytes(a + b) =~= joined);
}

/// A step keeps the body in order.
proof fn lemma_step_in_order(s: WavStream, p: WavPath)
    requires
        s.wf(),
        s.in_order(p),
    ensures
        s.in_order(s.after(p, PathEvent::Stepped)),
{
    let ch = s.channels as nat;
    let q = s.after(p, PathEvent::Stepped);
    let frames_in_ring = p.ring.len() / ch;
    match live::body_next(p.pos, s.threshold, s.channels, frames_in_ring, false) {
        BodyNext::Emit(part) => {
            match part {
                BodyPart::Header => {
                    assert(q.taken =~= p.taken);
                    assert(s.silence_sent(q) == 0) by (nonlinear_arith)
                        requires
                            s.silence_sent(q) == (s.preroll - q.pos.preroll_left) * (2
                                * s.channels),
                            q.pos.preroll_left == s.preroll,
                    ;
                    assert(q.body =~= s.header + live::zeros(0) + wav::pcm_bytes(q.taken)
                        + live::zeros(0));
                },
                BodyPart::Silence { frames } => {
                    let remaining = s.threshold - p.pos.sent;
                    live::lemma_part_fits(frames as int, s.channels as int, remaining);
                    assert(q.taken =~= p.taken);
                    let more = frames * (2 * s.channels);
                    assert(s.silence_sent(q) == s.silence_sent(p) + more) by (nonlinear_arith)
                        requires
                            s.silence_sent(q) == (s.preroll - q.pos.preroll_left) * (2
                                * s.channels),
                            s.silence_sent(p) == (s.preroll - p.pos.preroll_left) * (2
                                * s.channels),
                            q.pos.preroll_left == p.pos.preroll_left - frames,
                            more == frames * (2 * s.channels),
                    ;
                    assert(q.body =~= s.header + live::zeros(s.silence_sent(q) as nat)
                        + wav::pcm_bytes(q.taken) + live::zeros(0));
                },
                BodyPart::Pad { bytes } => {
                    assert(q.taken =~= p.taken);
                    let remaining = s.threshold - p.pos.sent;
                    assert(remaining < 2 * s.channels) by (nonlinear_arith)
                        requires
                            remaining / (2 * s.channels) == 0,
                            remaining >= 0,
                            s.channels >= 1,
                    ;
                    assert(q.body =~= s.header + live::zeros(s.silence_sent(q) as nat)
                        + wav::pcm_bytes(q.taken) + live::zeros(remaining as nat));
                },
                BodyPart::Pcm { frames } => {
                    let remaining = s.threshold - p.pos.sent;
                    live::lemma_part_fits(frames as int, s.channels as int, remaining);
                    assert(frames * ch <= p.ring.len()) by (nonlinear_arith)
                        requires
                            frames <= p.ring.len() / ch,
                            ch >= 1,
                    ;
                    let block = p.ring.take((frames * ch) as int);
                    lemma_pcm_bytes_join(p.taken, block);
                    assert(q.body =~= s.header + live::zeros(s.silence_sent(q) as nat)
                        + wav::pcm_bytes(q.taken) + live::zeros(0));
                },
            }
        },
        _ => {},
    }
}

/// A step moves samples from the ring into the body and loses none.
proof fn lemma_step_keeps_samples(s: WavStream, p: WavPath)
    requires
        s.wf(),
    ensures
        ({
            let q = s.after(p, PathEvent::Stepped);
            q.taken + q.ring == p.taken + p.ring
        }),
{
    let ch = s.channels as nat;
    let q = s.after(p, PathEvent::Stepped);
    match live::body_next(p.pos, s.threshold, s.channels, p.ring.len() / ch, false) {
        BodyNext::Emit(BodyPart::Pcm { frames }) => {
            assert(0 <= frames * ch <= p.ring.len()) by (nonlinear_arith)
                requires
                    frames <= p.ring.len() / ch,
                    ch >= 1,
            ;
        },
        _ => {},
    }
    assert(q.taken + q.ring =~= p.taken + p.ring);
}

/// The Cast hop is lossless: whatever the pushes and steps, a WAV body is its header,
/// the preroll, then the pushed samples in order and nothing else, up to less than a
/// frame of padding at its very end; and as long as the ring never overflows, every
/// pushed sample is either in the body or still in the ring.
pub proof fn law_wav_path_is_lossless(s: WavStream, events: Seq<PathEvent>)
    requires
        s.wf(),
    ensures
        s.in_order(s.run(events)),
        s.never_overflows(events) ==> s.run(events).taken + s.run(events).ring == pushed(events),
    decreases events.len(),
{
    if events.len() > 0 {
        let before = events.drop_last();
        law_wav_path_is_lossless(s, before);
        let p = s.run(before);
        match events.last() {
            PathEvent::Pushed(samples) => {
                if s.never_overflows(events) {
                    assert(p.taken + (p.ring + samples) =~= (p.taken + p.ring) + samples);
                }
            },
            PathEvent::Stepped => {
                lemma_step_in_order(s, p);
                lemma_step_keeps_samples(s, p);
            },
        }
    } else {
        assert(s.run(events).taken + s.run(events).ring =~= pushed(events));
    }
}

// ── FLAC ────────────────────────────────────────────────────────────────────

/// What a live FLAC stream is made of.
pub struct FlacStream {
    /// Silence frames before PCM.
    pub preroll: usize,
    /// Channel count of the stream and of the ring.
    pub channels: u16,
    /// Samples that the ring holds at most.
    pub capacity: nat,
}

/// A FLAC body that answers the newest request, and its ring.
pub struct FlacPath {
    /// The stream header has been sent.
    pub header_sent: bool,
    /// Silence frames still to send.
    pub preroll_left: usize,
    /// FLAC frames sent.
    pub frames: nat,
    /// The body ended because it ran out of frame numbers.
    pub ended: bool,
    /// Samples in the ring.
    pub ring: Seq<i16>,
    /// Samples that the body has taken from the ring and sent.
    pub taken: Seq<i16>,
    /// What a decoder reads from the frames sent.
    pub decoded: Seq<i16>,
}

impl FlacStream {
    /// Where an event leads: a push keeps the newest samples, a step does what
    /// [`live::flac_next`] says, while there are frame numbers.
    pub open spec fn after(self, p: FlacPath, event: PathEvent) -> FlacPath {
        let ch = self.channels as nat;
        match event {
            PathEvent::Pushed(samples) => FlacPath {
                ring: pcm::newest(p.ring + samples, self.capacity),
                ..p
            },
            PathEvent::Stepped => if p.ended {
                p
            } else {
                match live::flac_next(p.header_sent, p.preroll_left, p.ring.len() / ch, false) {
                    FlacNext::Header => FlacPath { header_sent: true, ..p },
                    FlacNext::Silence(n) => if p.frames < FRAME_NUMBER_LIMIT {
                        FlacPath {
                            preroll_left: (p.preroll_left - n) as usize,
                            frames: p.frames + 1,
                            decoded: p.decoded + live::zero_samples(n * ch),
                            ..p
                        }
                    } else {
                        FlacPath { ended: true, preroll_left: (p.preroll_left - n) as usize, ..p }
                    },
                    FlacNext::Block => {
                        let n = (FLAC_BLOCK_SIZE * ch) as int;
                        if p.frames < FRAME_NUMBER_LIMIT {
                            FlacPath {
                                frames: p.frames + 1,
                                ring: p.ring.skip(n),
                                taken: p.taken + p.ring.take(n),
                                decoded: p.decoded + p.ring.take(n),
                                ..p
                            }
                        } else {
                            FlacPath { ended: true, ring: p.ring.skip(n), ..p }
                        }
                    },
                    _ => p,
                }
            },
        }
    }

    /// Where a run of events leads, from an empty ring and a new body.
    pub open spec fn run(self, events: Seq<PathEvent>) -> FlacPath
        decreases events.len(),
    {
        if events.len() == 0 {
            FlacPath {
                header_sent: false,
                preroll_left: self.preroll,
                frames: 0,
                ended: false,
                ring: Seq::empty(),
                taken: Seq::empty(),
                decoded: Seq::empty(),
            }
        } else {
            self.after(self.run(events.drop_last()), events.last())
        }
    }

    /// Every push of the run finds room in the ring.
    pub open spec fn never_overflows(self, events: Seq<PathEvent>) -> bool
        decreases events.len(),
    {
        events.len() > 0 ==> {
            &&& self.never_overflows(events.drop_last())
            &&& events.last() matches PathEvent::Pushed(samples) ==> self.run(
                events.drop_last(),
            ).ring.len() + samples.len() <= self.capacity
        }
    }

    /// Preroll samples sent, while the body has not ended.
    pub open spec fn silence_sent(self, p: FlacPath) -> int {
        (self.preroll - p.preroll_left) * self.channels
    }

    /// A decoder reads silence, then the samples taken.
    pub open spec fn in_order(self, p: FlacPath) -> bool {
        &&& p.preroll_left <= self.preroll
        &&& 0 <= self.silence_sent(p)
        &&& !p.ended ==> p.decoded == live::zero_samples(self.silence_sent(p) as nat) + p.taken
        &&& p.taken.len() > 0 ==> p.preroll_left == 0
    }
}

/// A step keeps a FLAC body in order and loses no sample.
proof fn lemma_flac_step(s: FlacStream, p: FlacPath)
    requires
        s.channels >= 1,
        s.in_order(p),
    ensures
        ({
            let q = s.after(p, PathEvent::Stepped);
            &&& s.in_order(q)
            &&& !q.ended ==> !p.ended && q.taken + q.ring == p.taken + p.ring
        }),
{
    let ch = s.channels as nat;
    let q = s.after(p, PathEvent::Stepped);
    if !p.ended {
        match live::flac_next(p.header_sent, p.preroll_left, p.ring.len() / ch, false) {
            FlacNext::Silence(n) => {
                assert(s.silence_sent(q) == s.silence_sent(p) + n * ch && n * ch >= 0)
                    by (nonlinear_arith)
                    requires
                        s.silence_sent(q) == (s.preroll - q.preroll_left) * s.channels,
                        s.silence_sent(p) == (s.preroll - p.preroll_left) * s.channels,
                        q.preroll_left == p.preroll_left - n,
                        ch == s.channels,
                ;
                if !q.ended {
                    assert(q.decoded =~= live::zero_samples(s.silence_sent(q) as nat) + q.taken);
                }
            },
            FlacNext::Block => {
                let n = (FLAC_BLOCK_SIZE * ch) as int;
                assert(0 <= n <= p.ring.len()) by (nonlinear_arith)
                    requires
                        FLAC_BLOCK_SIZE <= p.ring.len() / ch,
                        n == FLAC_BLOCK_SIZE * ch,
                        ch >= 1,
                ;
                if !q.ended {
                    assert(q.decoded =~= live::zero_samples(s.silence_sent(q) as nat) + q.taken);
                    assert(q.taken + q.ring =~= p.taken + p.ring);
                }
            },
            _ => {},
        }
    }
}

/// A live FLAC stream is lossless: whatever the pushes and steps, a decoder reads the
/// preroll and then the pushed samples in order; and as long as the ring never
/// overflows, every pushed sample has either been sent or is still in the ring.
pub proof fn law_flac_path_is_lossless(s: FlacStream, events: Seq<PathEvent>)
    requires
        s.channels >= 1,
    ensures
        s.in_order(s.run(events)),
        s.never_overflows(events) && !s.run(events).ended ==> s.run(events).taken + s.run(
            events,
        ).ring == pushed(events),
    decreases events.len(),
{
    if events.len() > 0 {
        let before = events.drop_last();
        law_flac_path_is_lossless(s, before);
        let p = s.run(before);
        match events.last() {
            PathEvent::Pushed(samples) => {
                if s.never_overflows(events) && !p.ended {
                    assert(p.taken + (p.ring + samples) =~= (p.taken + p.ring) + samples);
                }
            },
            PathEvent::Stepped => {
                lemma_flac_step(s, p);
            },
        }
    } else {
        let start = s.run(events);
        assert(s.silence_sent(start) == 0) by (nonlinear_arith)
            requires
                s.silence_sent(start) == (s.preroll - start.preroll_left) * s.channels,
                start.preroll_left == s.preroll,
        ;
        assert(start.decoded =~= live::zero_samples(0) + start.taken);
        assert(start.taken + start.ring =~= pushed(events));
    }
}

} // verus!
