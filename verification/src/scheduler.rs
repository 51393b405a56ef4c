//! Queue-depth bookkeeping shared by the streaming loops.

use vstd::prelude::*;

verus! {

/// How many points play in `elapsed` nanoseconds, in thousand-millionths of a point.
pub open spec fn played(elapsed: u64, pps: u32) -> int {
    elapsed * pps
}

/// Decay a software queue estimate based on elapsed wall-clock time.
///
/// What remains of a point is carried over to the next call, in thousand-millionths
/// of a point. Moments are in nanoseconds of one clock; none has passed if `now` is
/// before the last iteration.
pub fn advance_scheduled_ahead(
    scheduled_ahead: &mut u64,
    fractional_consumed: &mut u64,
    last_iteration: &mut u64,
    now: u64,
    pps: u32,
)
    requires
        *old(fractional_consumed) < 1_000_000_000,
    ensures
        ({
            let elapsed = if now >= *old(last_iteration) {
                (now - *old(last_iteration)) as u64
            } else {
                0
            };
            let consumed = played(elapsed, pps) + *old(fractional_consumed);
            &&& *final(scheduled_ahead) == if consumed / 1_000_000_000 <= *old(scheduled_ahead) {
                *old(scheduled_ahead) - consumed / 1_000_000_000
            } else {
                0
            }
            &&& *final(fractional_consumed) == consumed % 1_000_000_000
        }),
        *final(last_iteration) == now,
{
    let elapsed: u64 = now.saturating_sub(*last_iteration);
    proof {
        lemma_played_bound(elapsed, pps);
    }
    let consumed: u128 = elapsed as u128 * pps as u128 + *fractional_consumed as u128;
    let points_consumed: u128 = consumed / 1_000_000_000;
    *fractional_consumed = (consumed % 1_000_000_000) as u64;
    *scheduled_ahead = if points_consumed <= *scheduled_ahead as u128 {
        *scheduled_ahead - points_consumed as u64
    } else {
        0
    };
    *last_iteration = now;
}

pub(crate) proof fn lemma_played_bound(elapsed: u64, pps: u32)
    ensures
        0 <= played(elapsed, pps) <= 0xffff_ffff_ffff_ffff * 0xffff_ffff,
{
    assert(0 <= elapsed * pps <= 0xffff_ffff_ffff_ffff * 0xffff_ffff) by (nonlinear_arith)
        requires
            0 <= elapsed <= 0xffff_ffff_ffff_ffff,
            0 <= pps <= 0xffff_ffff,
    ;
}

/// No part of a point is lost: looking in between gives the same number of played
/// points and the same rest as looking once.
pub proof fn rests_add_up(first: u64, second: u64, pps: u32, rest: int)
    requires
        0 <= rest < 1_000_000_000,
        first + second <= u64::MAX,
    ensures
        ({
            let once = played((first + second) as u64, pps) + rest;
            let early = played(first, pps) + rest;
            let late = played(second, pps) + early % 1_000_000_000;
            &&& once / 1_000_000_000 == early / 1_000_000_000 + late / 1_000_000_000
            &&& once % 1_000_000_000 == late % 1_000_000_000
        }),
{
    let early = played(first, pps) + rest;
    let late = played(second, pps) + early % 1_000_000_000;
    assert((first + second) * pps == first * pps + second * pps) by (nonlinear_arith);
    lemma_played_bound(first, pps);
    lemma_played_bound(second, pps);
}

/// Combine software and hardware queue estimates conservatively: the lower of
/// the two when the hardware reports one, the software estimate otherwise.
pub fn conservative_buffered_points(software: u64, hardware: Option<u64>) -> (r: u64)
    ensures
        r == match hardware {
            Some(device_queue) => if device_queue <= software { device_queue } else { software },
            None => software,
        },
{
    match hardware {
        Some(device_queue) => if device_queue < software { device_queue } else { software },
        None => software,
    }
}

/// In whole seconds, the rate many points play for each.
pub proof fn seconds_play_the_rate(seconds: u64, pps: u32)
    requires
        seconds * 1_000_000_000 <= u64::MAX,
    ensures
        played((seconds * 1_000_000_000) as u64, pps) == seconds * pps * 1_000_000_000,
{
    assert((seconds * 1_000_000_000) * pps == seconds * pps * 1_000_000_000) by (nonlinear_arith);
}

/// Looking in between takes no less and no more: a time in which `n` points play leaves
/// `n` fewer, and one in which less than a point plays leaves all.
pub proof fn part_of_a_point_waits(elapsed: u64, pps: u32, n: int)
    requires
        n * 1_000_000_000 <= elapsed * pps < (n + 1) * 1_000_000_000,
    ensures
        played(elapsed, pps) / 1_000_000_000 == n,
{
}

/// Time that passes takes as many points as play in it from what is ahead, and never more
/// than there are; the rest of a point waits for the next look.
pub proof fn passing_time_plays_what_is_ahead()
    ensures
        forall|ahead: &mut u64, rest: &mut u64, last: &mut u64, now: u64, pps: u32| #[trigger]
            call_ensures(advance_scheduled_ahead, (ahead, rest, last, now, pps), ()) && *rest
                < 1_000_000_000 ==> {
                &&& *final(last) == now
                &&& *final(rest) < 1_000_000_000
                &&& *final(ahead) <= *ahead
                &&& now >= *last && *final(ahead) > 0 ==> (*ahead - *final(ahead)) * 1_000_000_000
                    + *final(rest) == (now - *last) * pps + *rest
                &&& now <= *last ==> *final(ahead) == *ahead && *final(rest) == *rest
            },
        forall|software: u64, hardware: Option<u64>, r: u64| #[trigger]
            call_ensures(conservative_buffered_points, (software, hardware), r) ==> {
                &&& r <= software
                &&& hardware is None ==> r == software
                &&& hardware is Some ==> r <= hardware->0 && (r == software || r == hardware->0)
            },
{
}

} // verus!
