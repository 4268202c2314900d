//! Realtime pacing of live bodies.
//!
//! A Cast device would pull a live body as fast as the network allows. The pacer
//! holds it to at most [`LIVE_LEAD`] ahead of wall-clock audio time, so that the
//! device keeps a steady cushion.

use vstd::prelude::*;
use crate::clock;
use crate::clock::{saturating_duration_since, Duration, Instant, NANOS_PER_MILLI};

verus! {

/// How far ahead of wall-clock audio time a device may pull.
pub const LIVE_LEAD: Duration = 2_000_000_000;

/// When the schedule is late by more than this, the pace origin advances by the
/// lateness.
pub const PACE_LATE_SLACK: Duration = 50_000_000;

/// Pacing decision for one chunk.
#[derive(Debug, Clone, Copy, PartialEq, Eq, Structural)]
pub struct PacePlan {
    /// Sleep this long before emitting (schedule is early).
    pub sleep: Option<Duration>,
    /// Advance the pace origin by this lateness (schedule is late beyond slack).
    pub rebaseline: Option<Duration>,
}

/// `v`, but at most `u64::MAX`.
pub open spec fn sat64(v: int) -> int {
    if v > u64::MAX {
        u64::MAX as int
    } else {
        v
    }
}

/// Milliseconds of audio in the frames sent so far together with the next ones.
pub open spec fn audio_millis(frames_emitted: u64, next_frames: usize, sample_rate: u32) -> int {
    let rate = if sample_rate == 0 {
        1
    } else {
        sample_rate as int
    };
    sat64(sat64(frames_emitted + next_frames) * 1000) / rate
}

/// When the audio that ends with the next frames is due, counted from `origin`.
pub open spec fn due_at(
    frames_emitted: u64,
    next_frames: usize,
    sample_rate: u32,
    origin: Instant,
) -> int {
    origin + audio_millis(frames_emitted, next_frames, sample_rate) * NANOS_PER_MILLI
}

/// When the next chunk may leave: `live_lead` before it is due, or at the origin
/// when that lies before the clock's epoch.
pub open spec fn wake_at(due: int, origin: Instant, live_lead: Duration) -> int {
    if due >= live_lead {
        due - live_lead
    } else {
        origin as int
    }
}

/// The pacing decision for a chunk that may leave at `wake`.
pub open spec fn plan_for(wake: int, now: Instant, late_slack: Duration) -> PacePlan {
    if wake > now {
        PacePlan { sleep: Some((wake - now) as u128), rebaseline: None }
    } else if now - wake > late_slack {
        PacePlan { sleep: None, rebaseline: Some((now - wake) as u128) }
    } else {
        PacePlan { sleep: None, rebaseline: None }
    }
}

/// Compute sleep and rebaseline for realtime pacing with a maintained lead.
///
/// Drift-free: audio time is counted in frames from the origin, not from the
/// previous chunk.
pub fn pace_plan(
    frames_emitted: u64,
    next_frames: usize,
    sample_rate: u32,
    origin: Instant,
    now: Instant,
    live_lead: Duration,
    late_slack: Duration,
) -> (plan: PacePlan)
    requires
        due_at(frames_emitted, next_frames, sample_rate, origin) <= u128::MAX,
    ensures
        plan == plan_for(
            wake_at(
                due_at(frames_emitted, next_frames, sample_rate, origin),
                origin,
                live_lead,
            ),
            now,
            late_slack,
        ),
{
    let rate: u64 = if sample_rate == 0 {
        1
    } else {
        sample_rate as u64
    };
    let total: u64 = frames_emitted.saturating_add(next_frames as u64);
    let scaled: u64 = match total.checked_mul(1000) {
        Some(v) => v,
        None => u64::MAX,
    };
    let audio_ms: u64 = scaled / rate;
    let due: u128 = origin + (audio_ms as u128) * NANOS_PER_MILLI;
    let wake: u128 = if due >= live_lead {
        due - live_lead
    } else {
        origin
    };
    if wake > now {
        PacePlan { sleep: Some(saturating_duration_since(wake, now)), rebaseline: None }
    } else {
        let lateness: u128 = saturating_duration_since(now, wake);
        if lateness > late_slack {
            PacePlan { sleep: None, rebaseline: Some(lateness) }
        } else {
            PacePlan { sleep: None, rebaseline: None }
        }
    }
}

/// The origin that a chunk is paced against: the stored one, or `now` for the first
/// paced chunk.
pub open spec fn origin_or(pace_origin: Option<Instant>, now: Instant) -> Instant {
    match pace_origin {
        Some(o) => o,
        None => now,
    }
}

/// Pace one chunk of a live body and return how long to hold it.
///
/// When `now` is past the scheduled wake there is no hold. If the schedule is late
/// beyond the slack and the ring holds no backlog, the origin advances by the
/// lateness so that the schedule reflects reality. With a backlog the origin stays,
/// so successive chunks leave unpaced until the frames sent catch up with the wall
/// clock; pacing re-engages when they have.
pub fn pace_realtime_shared(
    frames_emitted: u64,
    pace_origin: &mut Option<Instant>,
    sample_rate: u32,
    next_frames: usize,
    occupancy_frames: usize,
    backlog_threshold: usize,
    now: Instant,
) -> (hold: Option<Duration>)
    requires
        due_at(frames_emitted, next_frames, sample_rate, origin_or(*old(pace_origin), now))
            <= u128::MAX,
        now + LIVE_LEAD <= u128::MAX,
    ensures
        ({
            let origin = origin_or(*old(pace_origin), now);
            let plan = plan_for(
                wake_at(
                    due_at(frames_emitted, next_frames, sample_rate, origin),
                    origin,
                    LIVE_LEAD,
                ),
                now,
                PACE_LATE_SLACK,
            );
            &&& hold == plan.sleep
            &&& *final(pace_origin) == Some(
                match plan.rebaseline {
                    Some(late) => if occupancy_frames >= backlog_threshold {
                        origin
                    } else {
                        (origin + late) as u128
                    },
                    None => origin,
                },
            )
        }),
        *final(pace_origin) == Some(
            origin_after(
                plan_for(
                    wake_at(
                        due_at(
                            frames_emitted,
                            next_frames,
                            sample_rate,
                            origin_or(*old(pace_origin), now),
                        ),
                        origin_or(*old(pace_origin), now),
                        LIVE_LEAD,
                    ),
                    now,
                    PACE_LATE_SLACK,
                ),
                origin_or(*old(pace_origin), now),
                occupancy_frames,
                backlog_threshold,
            ),
        ),
{
    let origin: Instant = match *pace_origin {
        Some(o) => o,
        None => now,
    };
    let plan = pace_plan(
        frames_emitted,
        next_frames,
        sample_rate,
        origin,
        now,
        LIVE_LEAD,
        PACE_LATE_SLACK,
    );
    let mut next_origin: Instant = origin;
    if let Some(late) = plan.rebaseline {
        if occupancy_frames < backlog_threshold {
            proof {
                lemma_rebaseline_fits(
                    due_at(frames_emitted, next_frames, sample_rate, origin),
                    origin,
                    now,
                );
            }
            next_origin = origin + late;
        }
    }
    *pace_origin = Some(next_origin);
    plan.sleep
}

/// Advancing the origin by the lateness never passes the end of the clock.
proof fn lemma_rebaseline_fits(due: int, origin: Instant, now: Instant)
    requires
        origin <= due <= u128::MAX,
        now + LIVE_LEAD <= u128::MAX,
    ensures
        plan_for(wake_at(due, origin, LIVE_LEAD), now, PACE_LATE_SLACK).rebaseline matches Some(
            late,
        ) ==> origin + late <= u128::MAX,
{
}

/// A device is never allowed further ahead than the lead: the hold ends exactly one
/// lead before the chunk is due, and a chunk leaves at once only when less than that
/// remains.
pub proof fn law_lead_is_capped(
    frames_emitted: u64,
    next_frames: usize,
    sample_rate: u32,
    origin: Instant,
    now: Instant,
    live_lead: Duration,
    late_slack: Duration,
)
    requires
        live_lead <= due_at(frames_emitted, next_frames, sample_rate, origin) <= u128::MAX,
    ensures
        ({
            let due = due_at(frames_emitted, next_frames, sample_rate, origin);
            let plan = plan_for(wake_at(due, origin, live_lead), now, late_slack);
            match plan.sleep {
                Some(hold) => now + hold == due - live_lead,
                None => due - now <= live_lead,
            }
        }),
{
}

/// A plan never both sleeps and advances the origin.
pub proof fn law_sleep_and_rebaseline_exclude_each_other(
    wake: int,
    now: Instant,
    late_slack: Duration,
)
    ensures
        plan_for(wake, now, late_slack).sleep is None || plan_for(
            wake,
            now,
            late_slack,
        ).rebaseline is None,
{
}

/// After the origin has advanced by the lateness, the same chunk would leave exactly
/// now, and any later chunk is paced again.
pub proof fn law_pacing_reengages_after_rebaseline(
    frames_emitted: u64,
    next_frames: usize,
    more_frames: usize,
    sample_rate: u32,
    origin: Instant,
    now: Instant,
    live_lead: Duration,
    late_slack: Duration,
    late: Duration,
)
    requires
        due_at(frames_emitted, next_frames, sample_rate, origin) >= live_lead,
        origin + late <= u128::MAX,
        plan_for(
            wake_at(
                due_at(frames_emitted, next_frames, sample_rate, origin),
                origin,
                live_lead,
            ),
            now,
            late_slack,
        ).rebaseline == Some(late),
        audio_millis(frames_emitted, next_frames, sample_rate) < audio_millis(
            frames_emitted,
            more_frames,
            sample_rate,
        ),
    ensures
        ({
            let shifted = (origin + late) as u128;
            let due = due_at(frames_emitted, next_frames, sample_rate, shifted);
            let later = due_at(frames_emitted, more_frames, sample_rate, shifted);
            &&& wake_at(due, shifted, live_lead) == now
            &&& plan_for(wake_at(later, shifted, live_lead), now, late_slack).sleep is Some
        }),
{
}

/// Audio time is real time: `n` frames at `r` frames a second are due after the whole
/// milliseconds in `n / r` seconds, at every rate; a rate of none counts as one.
pub proof fn law_audio_time_is_real_time(
    frames_emitted: u64,
    next_frames: usize,
    sample_rate: u32,
    origin: Instant,
    millis: int,
)
    requires
        (frames_emitted + next_frames) * 1000 <= u64::MAX,
        due_at(frames_emitted, next_frames, sample_rate, origin) == origin + millis * 1_000_000,
    ensures
        sample_rate >= 1 ==> millis * sample_rate <= (frames_emitted + next_frames) * 1000 < (millis
            + 1) * sample_rate,
        sample_rate == 0 ==> millis == (frames_emitted + next_frames) * 1000,
{
    let n = frames_emitted + next_frames;
    let m = audio_millis(frames_emitted, next_frames, sample_rate);
    assert(m == millis);
    if sample_rate >= 1 {
        let r = sample_rate as int;
        assert(m * r <= n * 1000 < (m + 1) * r) by (nonlinear_arith)
            requires
                r >= 1,
                m == (n * 1000) / r,
        ;
    }
}

/// A second of audio is a second of time: `sample_rate` frames more are due exactly one
/// second later.
pub proof fn law_a_second_of_frames_lasts_a_second(
    frames_emitted: u64,
    next_frames: usize,
    more_frames: usize,
    seconds: int,
    sample_rate: u32,
    origin: Instant,
)
    requires
        sample_rate >= 1,
        seconds >= 0,
        more_frames == next_frames + seconds * sample_rate,
        (frames_emitted + more_frames) * 1000 <= u64::MAX,
    ensures
        due_at(frames_emitted, more_frames, sample_rate, origin) == due_at(
            frames_emitted,
            next_frames,
            sample_rate,
            origin,
        ) + seconds * 1_000_000_000,
        due_at(0, 0, sample_rate, origin) == origin,
{
    let n = (frames_emitted + next_frames) * 1000;
    let r = sample_rate as int;
    assert(0 <= seconds * r) by (nonlinear_arith)
        requires
            seconds >= 0,
            r >= 1,
    ;
    assert((n + (seconds * r) * 1000) / r == n / r + seconds * 1000) by (nonlinear_arith)
        requires
            r >= 1,
    ;
    assert(0int / r == 0) by (nonlinear_arith)
        requires
            r >= 1,
    ;
}

/// Frame counts past 64 bits stay at the greatest count.
pub proof fn law_counts_saturate(v: int)
    ensures
        v <= 0xffff_ffff_ffff_ffff ==> sat64(v) == v,
        v > 0xffff_ffff_ffff_ffff ==> sat64(v) == 0xffff_ffff_ffff_ffff,
{
}

/// A chunk leaves exactly one lead before it is due, or at once when that has passed.
/// A schedule that is late by more than the slack says by how much, and no other does.
pub proof fn law_chunks_leave_one_lead_early(
    due: int,
    origin: Instant,
    now: Instant,
    live_lead: Duration,
    late_slack: Duration,
)
    requires
        0 <= due <= u128::MAX,
    ensures
        ({
            let plan = plan_for(wake_at(due, origin, live_lead), now, late_slack);
            let leave = if due < live_lead {
                origin as int
            } else {
                due - live_lead
            };
            &&& leave > now <==> plan.sleep is Some
            &&& plan.sleep matches Some(hold) ==> now + hold == leave
            &&& now > leave + late_slack <==> plan.rebaseline is Some
            &&& plan.rebaseline matches Some(late) ==> leave + late == now
        }),
{
}

/// Pacing counts from the first paced chunk.
pub proof fn law_pacing_counts_from_the_first_chunk(origin: Instant, now: Instant)
    ensures
        origin_or(None, now) == now,
        origin_or(Some(origin), now) == origin,
{
}

/// Where pacing counts from after a plan: later by the lateness, unless the ring holds a
/// backlog.
pub open spec fn origin_after(
    plan: PacePlan,
    origin: Instant,
    occupancy_frames: usize,
    backlog_threshold: usize,
) -> Instant {
    match plan.rebaseline {
        Some(late) => if occupancy_frames >= backlog_threshold {
            origin
        } else {
            (origin + late) as u128
        },
        None => origin,
    }
}

/// A schedule that is more than 50 ms late begins anew where it is, so that the chunk is
/// on time; with a backlog in the ring, or within the 50 ms, it stays.
pub proof fn law_late_schedule_begins_anew_without_backlog(
    due: int,
    origin: Instant,
    now: Instant,
    occupancy_frames: usize,
    backlog_threshold: usize,
)
    requires
        LIVE_LEAD <= due <= u128::MAX,
        origin + now <= u128::MAX,
    ensures
        ({
            let plan = plan_for(wake_at(due, origin, LIVE_LEAD), now, PACE_LATE_SLACK);
            let next = origin_after(plan, origin, occupancy_frames, backlog_threshold);
            let late = now - (due - 2_000_000_000);
            &&& late > 50_000_000 && occupancy_frames < backlog_threshold ==> next == origin + late
            &&& late > 50_000_000 && occupancy_frames >= backlog_threshold ==> next == origin
            &&& late <= 50_000_000 ==> next == origin
        }),
{
}

} // verus!
