//! Pre-sized interleaved PCM ring buffer for the steady-state audio path.
//!
//! Samples are interleaved (L,R,L,R,…). Capacity is in sample frames; one frame
//! is one sample per channel. A full ring drops its oldest samples.

use std::collections::VecDeque;
use vstd::prelude::*;

verus! {

/// Interleaved 16-bit PCM ring between the AirPlay decoder and the Cast egress.
#[derive(Debug)]
pub struct PcmRing {
    channels: u16,
    buf: VecDeque<i16>,
    capacity_samples: usize,
    frames_dropped_overflow: u64,
    underrun_polls: u64,
}

/// The last `n` samples of `s`, or all of them when there are fewer.
pub open spec fn newest(s: Seq<i16>, n: nat) -> Seq<i16> {
    if s.len() <= n {
        s
    } else {
        s.skip(s.len() - n)
    }
}

/// How many samples of `len` do not fit in a ring of `capacity` samples.
pub open spec fn excess(len: nat, capacity: nat) -> nat {
    if len > capacity {
        (len - capacity) as nat
    } else {
        0
    }
}

/// The number of frames that a request for `want` frames takes from a ring that
/// holds `len` samples.
pub open spec fn frames_taken(len: nat, channels: nat, want: nat) -> nat {
    if want <= len / channels {
        want
    } else {
        len / channels
    }
}

/// The underrun count after a pop from a ring that holds `frames` complete frames.
pub open spec fn polled(underruns: u64, frames: nat) -> u64 {
    if frames == 0 {
        wrap_u64(underruns + 1)
    } else {
        underruns
    }
}

/// `a` modulo 2^64.
pub open spec fn wrap_u64(a: int) -> u64 {
    (a % 0x1_0000_0000_0000_0000) as u64
}

/// What a ring holds and has counted.
pub struct RingState {
    /// The buffered samples, oldest first.
    pub samples: Seq<i16>,
    /// Channel count.
    pub channels: nat,
    /// Greatest number of samples that the ring holds.
    pub capacity: nat,
    /// Frames discarded on overflow since construction, modulo 2^64.
    pub dropped: u64,
    /// Pops that found no complete frame since construction, modulo 2^64.
    pub underruns: u64,
}

impl View for PcmRing {
    type V = RingState;

    closed spec fn view(&self) -> RingState {
        RingState {
            samples: self.buf@,
            channels: self.channels as nat,
            capacity: self.capacity_samples as nat,
            dropped: self.frames_dropped_overflow,
            underruns: self.underrun_polls,
        }
    }
}

impl PcmRing {
    /// Channel count of the ring.
    pub open spec fn channel_count(&self) -> nat {
        self@.channels
    }

    /// Greatest number of samples that the ring holds.
    pub open spec fn capacity(&self) -> nat {
        self@.capacity
    }

    /// Frames discarded on overflow since construction, modulo 2^64.
    pub open spec fn dropped(&self) -> u64 {
        self@.dropped
    }

    /// Pops that found no complete frame since construction, modulo 2^64.
    pub open spec fn underruns(&self) -> u64 {
        self@.underruns
    }

    /// What every operation keeps: at least one channel, never more samples than
    /// the capacity.
    pub open spec fn wf(&self) -> bool {
        &&& 1 <= self.channel_count() <= u16::MAX
        &&& self@.samples.len() <= self.capacity()
        &&& self.capacity() <= usize::MAX
    }

    /// Complete frames in the ring.
    pub open spec fn frames(&self) -> nat {
        self@.samples.len() / self.channel_count()
    }

    /// Everything but the buffered samples and the two counters is as in `other`.
    pub open spec fn same_shape(&self, other: &PcmRing) -> bool {
        self.channel_count() == other.channel_count() && self.capacity() == other.capacity()
    }

    /// Create a ring that holds up to `capacity_frames` frames at `channels`.
    ///
    /// A channel count of zero is taken as one.
    pub fn new(channels: u16, capacity_frames: usize) -> (ring: PcmRing)
        ensures
            ring.wf(),
            ring@.samples == Seq::<i16>::empty(),
            ring.channel_count() == (if channels == 0 {
                1
            } else {
                channels as int
            }),
            ring.capacity() == (if capacity_frames * ring.channel_count() <= usize::MAX {
                capacity_frames * ring.channel_count()
            } else {
                usize::MAX as int
            }),
            ring.dropped() == 0,
            ring.underruns() == 0,
    {
        let ch: u16 = if channels == 0 {
            1
        } else {
            channels
        };
        let capacity_samples: usize = match capacity_frames.checked_mul(ch as usize) {
            Some(n) => n,
            None => usize::MAX,
        };
        PcmRing {
            channels: ch,
            buf: VecDeque::new(),
            capacity_samples,
            frames_dropped_overflow: 0,
            underrun_polls: 0,
        }
    }

    /// Channel count.
    pub fn channels(&self) -> (n: u16)
        ensures
            n == self.channel_count(),
    {
        self.channels
    }

    /// Push interleaved samples; on overflow the oldest samples are dropped.
    ///
    /// The ring then holds the newest samples that fit, and the drop counter grows
    /// by the number of complete frames discarded (a partial leftover sample is not
    /// a frame).
    pub fn push_i16(&mut self, samples: &[i16])
        requires
            old(self).wf(),
        ensures
            final(self).wf(),
            final(self).same_shape(old(self)),
            final(self)@.samples == newest(old(self)@.samples + samples@, old(self).capacity()),
            final(self).dropped() == wrap_u64(
                old(self).dropped() + excess(
                    old(self)@.samples.len() + samples@.len(),
                    old(self).capacity(),
                ) / old(self).channel_count(),
            ),
            final(self).underruns() == old(self).underruns(),
    {
        let have: usize = self.buf.len();
        let incoming: usize = samples.len();
        let total: u128 = have as u128 + incoming as u128;
        if total > self.capacity_samples as u128 {
            let drop_samples: u128 = total - self.capacity_samples as u128;
            let frames: u128 = drop_samples / (self.channels as u128);
            proof {
                assert(frames <= drop_samples) by (nonlinear_arith)
                    requires
                        frames == drop_samples / (self.channels as u128),
                        self.channels >= 1,
                ;
            }
            self.frames_dropped_overflow = wrapping_count(self.frames_dropped_overflow, frames);
        }
        let ghost all = old(self)@.samples + samples@;
        let mut i: usize = 0;
        proof {
            assert(old(self)@.samples + samples@.take(0) =~= old(self)@.samples);
            assert(newest(old(self)@.samples, old(self).capacity()) =~= old(self)@.samples);
        }
        while i < samples.len()
            invariant
                i <= samples.len(),
                self.channels == old(self).channels,
                self.capacity_samples == old(self).capacity_samples,
                self.underrun_polls == old(self).underrun_polls,
                self.frames_dropped_overflow == wrap_u64(
                    old(self).dropped() + excess(
                        old(self)@.samples.len() + samples@.len(),
                        old(self).capacity(),
                    ) / old(self).channel_count(),
                ),
                self.buf@ == newest(old(self)@.samples + samples@.take(i as int), old(self).capacity()),
            decreases samples.len() - i,
        {
            let ghost sofar = old(self)@.samples + samples@.take(i as int);
            let ghost next = old(self)@.samples + samples@.take(i as int + 1);
            proof {
                assert(next =~= sofar.push(samples@[i as int]));
            }
            if self.buf.len() >= self.capacity_samples {
                if self.capacity_samples > 0 {
                    let _oldest = self.buf.pop_front();
                    self.buf.push_back(samples[i]);
                }
            } else {
                self.buf.push_back(samples[i]);
            }
            proof {
                assert(self.buf@ =~= newest(next, old(self).capacity()));
            }
            i += 1;
        }
        proof {
            assert(samples@.take(samples@.len() as int) =~= samples@);
        }
    }

    /// Pop up to `frame_count` frames as interleaved PCM into `out`.
    ///
    /// Returns the number of frames written; a pop that finds no complete frame counts
    /// as an underrun. Samples come out in the order in which they went in.
    pub fn pop_i16(&mut self, frame_count: usize, out: &mut Vec<i16>) -> (frames: usize)
        requires
            old(self).wf(),
        ensures
            final(self).wf(),
            final(self).same_shape(old(self)),
            frames == frames_taken(old(self)@.samples.len(), old(self).channel_count(), frame_count as nat),
            frames * old(self).channel_count() <= old(self)@.samples.len(),
            final(out)@ == old(self)@.samples.take((frames * old(self).channel_count()) as int),
            final(self)@.samples == old(self)@.samples.skip((frames * old(self).channel_count()) as int),
            final(self).dropped() == old(self).dropped(),
            final(self).underruns() == polled(old(self).underruns(), old(self).frames()),
    {
        let ch: usize = self.channels as usize;
        out.clear();
        let available: usize = self.buf.len() / ch;
        let take: usize = if frame_count < available {
            frame_count
        } else {
            available
        };
        if take == 0 {
            if available == 0 {
                self.underrun_polls = wrapping_count(self.underrun_polls, 1);
            }
            proof {
                assert(old(self)@.samples.take(0) =~= Seq::<i16>::empty());
                assert(old(self)@.samples.skip(0) =~= old(self)@.samples);
            }
            return 0;
        }
        proof {
            lemma_frames_fit(self.buf@.len() as int, ch as int, take as int);
        }
        let n: usize = take * ch;
        let mut i: usize = 0;
        proof {
            assert(old(self)@.samples.skip(0) =~= old(self)@.samples);
            assert(old(self)@.samples.take(0) =~= Seq::<i16>::empty());
        }
        while i < n
            invariant
                i <= n,
                n <= old(self)@.samples.len(),
                self.channels == old(self).channels,
                self.capacity_samples == old(self).capacity_samples,
                self.underrun_polls == old(self).underrun_polls,
                self.frames_dropped_overflow == old(self).frames_dropped_overflow,
                self.buf@ == old(self)@.samples.skip(i as int),
                out@ == old(self)@.samples.take(i as int),
            decreases n - i,
        {
            match self.buf.pop_front() {
                Some(s) => {
                    out.push(s);
                    proof {
                        assert(old(self)@.samples.take(i as int + 1) =~= old(self)@.samples.take(i as int).push(
                            old(self)@.samples[i as int],
                        ));
                        assert(old(self)@.samples.skip(i as int + 1) =~= old(self)@.samples.skip(i as int).subrange(
                            1,
                            old(self)@.samples.skip(i as int).len() as int,
                        ));
                    }
                },
                None => {},
            }
            i += 1;
        }
        take
    }

    /// Copy up to `frame_count` frames as interleaved PCM without consuming the ring.
    pub fn copy_i16(&self, frame_count: usize, out: &mut Vec<i16>) -> (frames: usize)
        requires
            self.wf(),
        ensures
            frames == frames_taken(self@.samples.len(), self.channel_count(), frame_count as nat),
            frames * self.channel_count() <= self@.samples.len(),
            final(out)@ == self@.samples.take((frames * self.channel_count()) as int),
    {
        let ch: usize = self.channels as usize;
        out.clear();
        let available: usize = self.buf.len() / ch;
        let take: usize = if frame_count < available {
            frame_count
        } else {
            available
        };
        proof {
            lemma_frames_fit(self.buf@.len() as int, ch as int, take as int);
        }
        let n: usize = take * ch;
        let mut i: usize = 0;
        while i < n
            invariant
                i <= n,
                n <= self.buf@.len(),
                out@ == self.buf@.take(i as int),
            decreases n - i,
        {
            out.push(self.buf[i]);
            proof {
                assert(self.buf@.take(i as int + 1) =~= self.buf@.take(i as int).push(
                    self.buf@[i as int],
                ));
            }
            i += 1;
        }
        take
    }

    /// Number of complete frames currently buffered.
    pub fn available_frames(&self) -> (n: usize)
        requires
            self.wf(),
        ensures
            n == self.frames(),
    {
        self.buf.len() / (self.channels as usize)
    }

    /// Occupancy in complete frames (alias of [`PcmRing::available_frames`]).
    pub fn occupancy_frames(&self) -> (n: usize)
        requires
            self.wf(),
        ensures
            n == self.frames(),
    {
        self.available_frames()
    }

    /// Frames discarded on overflow since construction.
    pub fn frames_dropped_overflow(&self) -> (n: u64)
        ensures
            n == self.dropped(),
    {
        self.frames_dropped_overflow
    }

    /// Pops that found no complete frame since construction.
    pub fn underrun_polls(&self) -> (n: u64)
        ensures
            n == self.underruns(),
    {
        self.underrun_polls
    }

    /// Clear all buffered samples.
    pub fn clear(&mut self)
        requires
            old(self).wf(),
        ensures
            final(self).wf(),
            final(self).same_shape(old(self)),
            final(self)@.samples == Seq::<i16>::empty(),
            final(self).dropped() == old(self).dropped(),
            final(self).underruns() == old(self).underruns(),
    {
        self.buf.clear();
    }
}

/// `take` frames of `ch` samples lie within `len` samples when `len` holds them.
proof fn lemma_frames_fit(len: int, ch: int, take: int)
    requires
        ch >= 1,
        len >= 0,
        0 <= take <= len / ch,
    ensures
        0 <= take * ch <= len,
{
    assert(0 <= take * ch <= len) by (nonlinear_arith)
        requires
            ch >= 1,
            len >= 0,
            0 <= take <= len / ch,
    ;
}

/// `count + n` modulo 2^64.
fn wrapping_count(count: u64, n: u128) -> (r: u64)
    requires
        n <= 0x2_0000_0000_0000_0000,
    ensures
        r == wrap_u64(count + n),
{
    let sum: u128 = count as u128 + n;
    (sum % 0x1_0000_0000_0000_0000) as u64
}

/// Samples pushed into an empty ring that has room for them come back unchanged
/// and in order when they are popped.
pub proof fn law_push_then_pop_round_trips(
    before: Seq<i16>,
    samples: Seq<i16>,
    capacity: nat,
    channels: nat,
    want: nat,
)
    requires
        before == Seq::<i16>::empty(),
        samples.len() <= capacity,
        channels >= 1,
        samples.len() == want * channels,
    ensures
        newest(before + samples, capacity) == samples,
        frames_taken(samples.len(), channels, want) == want,
        samples.take((want * channels) as int) == samples,
        excess(before.len() + samples.len(), capacity) == 0,
{
    assert(before + samples =~= samples);
    assert(samples.len() / channels == want) by (nonlinear_arith)
        requires
            channels >= 1,
            samples.len() == want * channels,
    ;
    assert(samples.take((want * channels) as int) =~= samples);
}

/// The ring never holds more than its capacity, and what it keeps is always the
/// newest end of everything that was pushed.
pub proof fn law_overflow_keeps_the_newest(
    held: Seq<i16>,
    first: Seq<i16>,
    second: Seq<i16>,
    capacity: nat,
)
    ensures
        newest(held + first, capacity).len() <= capacity,
        newest(newest(held + first, capacity) + second, capacity) == newest(
            held + first + second,
            capacity,
        ),
{
    let kept = newest(held + first, capacity);
    let all = held + first + second;
    assert(newest(kept + second, capacity) =~= newest(all, capacity));
}

/// What a ring keeps and what it drops make up what it was given: it keeps an end of it,
/// as much as fits, and drops exactly the rest.
pub proof fn law_ring_keeps_what_fits(s: Seq<i16>, capacity: nat)
    ensures
        newest(s, capacity).len() + excess(s.len(), capacity) == s.len(),
        s.len() <= capacity ==> newest(s, capacity) == s,
        s.len() > capacity ==> newest(s, capacity).len() == capacity,
        s == s.take(excess(s.len(), capacity) as int) + newest(s, capacity),
{
    assert(s =~= s.take(excess(s.len(), capacity) as int) + newest(s, capacity));
}

/// A request takes as many whole frames as it asks for, and where there are fewer, all of
/// them.
pub proof fn law_request_takes_whole_frames(len: nat, channels: nat, want: nat)
    requires
        channels >= 1,
    ensures
        ({
            let taken = frames_taken(len, channels, want);
            &&& taken <= want
            &&& taken * channels <= len
            &&& taken == want || len < (taken + 1) * channels
        }),
{
    let taken = frames_taken(len, channels, want);
    assert(taken * channels <= len && (taken == want || len < (taken + 1) * channels))
        by (nonlinear_arith)
        requires
            channels >= 1,
            taken == want && want <= len / channels || taken == len / channels,
    ;
}

/// A poll is counted as an underrun exactly when there was no frame, and counts go on
/// from their greatest value to zero.
pub proof fn law_only_dry_polls_are_underruns(underruns: u64, frames: nat, a: int)
    ensures
        frames > 0 ==> polled(underruns, frames) == underruns,
        frames == 0 && underruns < 0xffff_ffff_ffff_ffff ==> polled(underruns, frames) == underruns
            + 1,
        polled(0xffff_ffff_ffff_ffff, 0) == 0,
        0 <= a < 0x1_0000_0000_0000_0000 ==> wrap_u64(a) == a,
        wrap_u64(a + 0x1_0000_0000_0000_0000) == wrap_u64(a),
{
    assert((a + 0x1_0000_0000_0000_0000) % 0x1_0000_0000_0000_0000 == a % 0x1_0000_0000_0000_0000);
}

/// A ring that keeps its shape keeps its channel count and its capacity.
pub proof fn law_ring_keeps_its_shape(ring: PcmRing, before: PcmRing)
    ensures
        ring.same_shape(&before) <==> ring.channel_count() == before.channel_count()
            && ring.capacity() == before.capacity(),
{
}

} // verus!
