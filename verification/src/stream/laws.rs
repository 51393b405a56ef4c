//! What holds of every running stream.

use vstd::prelude::*;

use crate::device::DacCapabilities;
use crate::error::Error;
use crate::scheduler;
use crate::stream::control::ControlMsg;
use crate::stream::dac::{self, Dac};
use crate::stream::run::{self, ControlStep, Link, StreamAction, WriteReply};
use crate::stream::{self, RunPhase, Stream, StreamView};
use crate::types::{ChunkRequest, ChunkResult, LaserPoint, RunExit, StreamConfig, StreamStatus, UnderrunPolicy};

verus! {

/// Nothing bright leaves a disarmed stream, whatever the producer or the underrun
/// policy has: each point that goes out is dark.
pub proof fn disarmed_output_is_dark(
    before: StreamView,
    result: ChunkResult,
    color_delay: u64,
    after: StreamView,
    action: StreamAction,
    i: int,
)
    requires
        before.wf(),
        before.phase is Producing,
        run::produce_step(before, result, false, color_delay, after, action),
        action is Write,
        0 <= i < action->count,
    ensures
        after.chunk[i].is_dark(),
{
}

/// A chunk that waited for room is offered again. If the stream is still armed, the
/// same points go out.
pub proof fn retried_chunk_is_unchanged(
    before: StreamView,
    blocked: StreamView,
    after: StreamView,
    first: StreamAction,
    second: StreamAction,
)
    requires
        before.phase is Writing,
        run::write_step(before, WriteReply::WouldBlock, blocked, first),
        run::wake_step(blocked, false, true, after, second),
    ensures
        after == before,
        second == (StreamAction::Write { shutter: None, count: before.phase->Writing_count }),
{
}

/// Disarming holds for a chunk that waits for room, too: it goes out dark, with its
/// points where they were, the shutter is closed, and an underrun never repeats it.
pub proof fn retried_chunk_is_dark_once_disarmed(
    before: StreamView,
    after: StreamView,
    action: StreamAction,
    i: int,
)
    requires
        before.wf(),
        before.phase is Blocked,
        run::wake_step(before, false, false, after, action),
        0 <= i < before.phase->Blocked_count,
    ensures
        action is Write && action->count == before.phase->Blocked_count,
        after.chunk[i].is_dark(),
        after.chunk[i].x == before.chunk[i].x,
        after.chunk[i].y == before.chunk[i].y,
        before.last_armed ==> !after.shutter_open,
        after.phase->Writing_armed == false,
        after.written(action->count, after.phase->Writing_armed).last == before.last,
{
}

/// A stop that comes while the stream waits, for its buffer to play or for room in the
/// device, ends it as stopped.
pub proof fn stop_ends_a_wait(
    before: StreamView,
    armed: bool,
    after: StreamView,
    action: StreamAction,
)
    requires
        before.phase is Sleeping || before.phase is Blocked,
        run::wake_step(before, true, armed, after, action),
    ensures
        action == StreamAction::Finish(RunExit::Stopped),
        after.phase is Finished,
{
}

/// What an armed stream is given passes through as it is, once startup blanking is
/// over and without a color delay.
pub proof fn armed_output_is_untouched(before: StreamView, n: usize, after: StreamView, action: StreamAction)
    requires
        before.wf(),
        before.phase is Producing,
        0 < n <= before.max_points,
        before.with_armed(true).startup_left == 0,
        run::produce_step(before, ChunkResult::Filled(n), true, 0, after, action),
    ensures
        after.chunk == before.chunk,
        action is Write && action->count == n,
{
    assert(stream::points_within(0, before.config.pps) == 0);
    assert(after.chunk =~= before.chunk);
}

/// Whatever is done to their colors, points are shown where the producer has put them.
pub proof fn positions_are_kept(
    before: StreamView,
    n: usize,
    armed: bool,
    color_delay: u64,
    after: StreamView,
    action: StreamAction,
    i: int,
)
    requires
        before.wf(),
        before.phase is Producing,
        0 < n <= before.max_points,
        run::produce_step(before, ChunkResult::Filled(n), armed, color_delay, after, action),
        0 <= i < n,
    ensures
        after.chunk[i].x == before.chunk[i].x,
        after.chunk[i].y == before.chunk[i].y,
{
}

/// The first points after arming are dark, for as long as startup blanking lasts:
/// whatever the producer or the underrun policy has, and whatever the color delay.
pub proof fn startup_is_dark(
    before: StreamView,
    result: ChunkResult,
    color_delay: u64,
    after: StreamView,
    action: StreamAction,
    i: int,
)
    requires
        before.wf(),
        before.phase is Producing,
        run::produce_step(before, result, true, color_delay, after, action),
        action is Write,
        0 <= i < action->count,
        i < before.with_armed(true).startup_left,
    ensures
        after.chunk[i].is_dark(),
        after.startup_left == before.with_armed(true).startup_left,
        !before.last_armed ==> after.startup_left == stream::points_within(
            before.config.startup_blank,
            before.config.pps,
        ),
{
}

/// Startup blanking covers the points that were written after arming: each written
/// chunk uses it up by its length.
pub proof fn startup_is_used_up(v: StreamView, n: usize)
    requires
        v.wf(),
        v.has_room(),
        n <= v.max_points,
    ensures
        v.startup_left >= n ==> v.written(n, true).startup_left == v.startup_left - n,
        v.startup_left < n ==> v.written(n, true).startup_left == 0,
        v.written(n, false).startup_left == v.startup_left,
{
}

/// A color delay shows each point in the color of the point that many points before,
/// also across chunks.
pub proof fn colors_are_delayed(
    before: StreamView,
    n: usize,
    color_delay: u64,
    after: StreamView,
    action: StreamAction,
    i: int,
)
    requires
        before.wf(),
        before.phase is Producing,
        0 < n <= before.max_points,
        before.with_armed(true).startup_left == 0,
        run::produce_step(before, ChunkResult::Filled(n), true, color_delay, after, action),
        0 <= i < n,
    ensures
        ({
            let d = stream::points_within(color_delay, before.config.pps) as int;
            &&& after.line.len() == d
            &&& d <= i ==> after.chunk[i] == before.chunk[i].looking(before.chunk[i - d].look())
            &&& i < d && before.line.len() == d ==> after.chunk[i] == before.chunk[i].looking(
                before.line[i],
            )
            &&& n >= d ==> forall|j: int|
                0 <= j < d ==> #[trigger] after.line[j] == before.chunk[n - d + j].look()
        }),
{
}

/// The shutter of a stream that was armed is closed when it is disarmed: by the
/// message at once, or else with the next chunk.
pub proof fn disarming_closes_shutter(v: StreamView)
    ensures
        run::control_step(v.shutter_open, ControlMsg::Disarm) == if v.shutter_open {
            ControlStep::SetShutter(false)
        } else {
            ControlStep::Nothing
        },
        v.last_armed ==> !v.with_armed(false).shutter_open,
        v.last_armed && v.shutter_open ==> v.shutter_move(false) == Some(false),
{
}

/// Whether the counters agree: stream time counts the points that were written, and
/// no more than those are ahead.
pub open spec fn accounted(v: StreamView) -> bool {
    v.instant == v.stats.points_written && v.ahead <= v.instant
}

/// The counters of a stream agree after every step, if they do before.
pub proof fn counters_agree(
    before: StreamView,
    after: StreamView,
    action: StreamAction,
    now: u64,
    flag: bool,
    armed: bool,
    queued: Option<u64>,
    result: ChunkResult,
    color_delay: u64,
    reply: WriteReply,
)
    requires
        before.wf(),
        before.has_room(),
        accounted(before),
        ({
            ||| before.phase is Idle && run::idle_step(before, now, flag, queued, after, action)
            ||| run::drain_step(before, now, queued, after, action)
            ||| run::wake_step(before, flag, armed, after, action)
            ||| before.phase is Producing && run::produce_step(
                before,
                result,
                armed,
                color_delay,
                after,
                action,
            )
            ||| run::write_step(before, reply, after, action)
        }),
    ensures
        accounted(after),
{
    if before.phase is Idle {
        let elapsed = if now >= before.last_iteration {
            (now - before.last_iteration) as u64
        } else {
            0
        };
        scheduler::lemma_played_bound(elapsed, before.config.pps);
    }
}

/// A request that is met leaves the device filled to its target, unless a chunk
/// cannot hold that much. The minimum never exceeds the target.
pub proof fn request_fills_to_target(v: StreamView, max_points: usize, queued: Option<u64>)
    requires
        v.config.pps >= 1,
    ensures
        ({
            let r = v.request(max_points, queued);
            &&& r.target_points < max_points ==> r.buffered * v.config.pps + r.target_points
                * 1_000_000_000 >= v.config.target_buffer * v.config.pps
            &&& v.config.min_buffer <= v.config.target_buffer ==> r.min_points <= r.target_points
            &&& r.buffered_points <= v.ahead
        }),
{
    let pps = v.config.pps as int;
    let have = stream::points_ns(v.buffered(queued) as int, pps);
    run::lemma_points_ns_bound(v.buffered(queued), v.config.pps);
    let want = v.config.target_buffer as int;
    let low = v.config.min_buffer as int;
    lemma_deficit(want, have, pps);
    lemma_deficit(low, have, pps);
    if low <= want && low > have {
        assert((low - have) * pps <= (want - have) * pps) by (nonlinear_arith)
            requires
                low <= want,
                pps >= 0,
        ;
    }
    assert(have * pps + stream::deficit(want, have, pps) * 1_000_000_000 >= want * pps)
        by (nonlinear_arith)
        requires
            have >= want ==> stream::deficit(want, have, pps) == 0,
            have < want ==> stream::deficit(want, have, pps) * 1_000_000_000 >= (want - have) * pps,
            pps >= 1,
            have >= 0,
    ;
}

proof fn lemma_deficit(want: int, have: int, pps: int)
    requires
        pps >= 1,
    ensures
        have < want ==> stream::deficit(want, have, pps) * 1_000_000_000 >= (want - have) * pps,
        stream::deficit(want, have, pps) >= 0,
{
    if have < want {
        assert((want - have) * pps >= 0) by (nonlinear_arith)
            requires
                have < want,
                pps >= 1,
        ;
    }
}

/// A sleep comes to its end: each slice is part of what remained, not empty, and at
/// most two milliseconds long.
pub proof fn sleep_makes_progress(before: StreamView, remaining: int, after: StreamView, action: StreamAction)
    requires
        0 < remaining <= u128::MAX,
        run::sleep_step(before, remaining, after, action),
    ensures
        action is Sleep,
        0 < action->Sleep_0 <= 2_000_000,
        after.phase is Sleeping,
        after.phase->Sleeping_remaining + action->Sleep_0 == remaining,
{
}

/// However long the device takes, a drain is over once its timeout has passed.
pub proof fn drain_is_bounded(
    before: StreamView,
    now: u64,
    queued: Option<u64>,
    after: StreamView,
    action: StreamAction,
)
    requires
        run::drain_step(before, now, queued, after, action),
        before.phase matches RunPhase::Polling { deadline } ==> now >= deadline,
        before.phase matches RunPhase::Waiting { deadline, .. } ==> now >= deadline,
        !(before.phase is Draining),
    ensures
        action is Close,
        !after.shutter_open,
{
}

/// What an underrun repeats comes round again after each chunk that is repeated.
pub proof fn repeated_chunk_comes_round(v: StreamView, n: int, i: int)
    requires
        v.config.underrun is RepeatLast,
        v.last_len > 0,
        0 <= i,
        i + v.last_len < n,
    ensures
        v.stand_in(true, n)[i + v.last_len] == v.stand_in(true, n)[i],
        i < v.last_len ==> v.stand_in(true, n)[i] == v.last[i],
{
    let k = v.last_len as int;
    assert((i + k) % k == i % k) by (nonlinear_arith)
        requires
            k > 0,
            i >= 0,
    ;
    assert(i < k ==> i % k == i) by (nonlinear_arith)
        requires
            k > 0,
            i >= 0,
    ;
}

/// Requests are contiguous in stream time: a request starts after all points that were
/// written before it, whatever the device says of its queue. Once the points of a
/// request are written, the next request starts after them.
pub proof fn requests_are_contiguous(
    v: StreamView,
    max_points: usize,
    queued: Option<u64>,
    n: usize,
    armed: bool,
    queued_later: Option<u64>,
)
    requires
        v.wf(),
        v.has_room(),
        accounted(v),
        n <= v.max_points,
    ensures
        ({
            let first = v.request(max_points, queued);
            let second = v.written(n, armed).request(max_points, queued_later);
            &&& first.start.points == v.stats.points_written
            &&& second.start.points == first.start.points + n
            &&& second.start.points == v.written(n, armed).stats.points_written
        }),
{
}

/// Each step leaves the next request where it was, unless the device has taken points:
/// then it starts just after those.
pub proof fn only_written_points_move_requests(
    before: StreamView,
    after: StreamView,
    action: StreamAction,
    reply: WriteReply,
    max_points: usize,
    queued: Option<u64>,
    queued_later: Option<u64>,
)
    requires
        before.wf(),
        before.has_room(),
        run::write_step(before, reply, after, action),
    ensures
        ({
            let count: int = match before.phase {
                RunPhase::Writing { count, .. } => count as int,
                RunPhase::Underrun { count, .. } => count as int,
                _ => 0,
            };
            let moved = after.request(max_points, queued_later).start.points - before.request(
                max_points,
                queued,
            ).start.points;
            &&& reply is Written ==> moved == count
            &&& !(reply is Written) ==> moved == 0
        }),
{
}

/// A request repeats what is known of the device: its queue as it tells it, and as
/// waiting points no more than it tells nor than were sent, but one of the two.
pub proof fn request_tells_the_queue(v: StreamView, max_points: usize, queued: Option<u64>)
    ensures
        ({
            let r = v.request(max_points, queued);
            &&& r.pps == v.config.pps
            &&& r.device_queued_points == queued
            &&& r.buffered_points <= v.ahead
            &&& queued matches Some(q) ==> r.buffered_points <= q && (r.buffered_points == q
                || r.buffered_points == v.ahead)
            &&& queued is None ==> r.buffered_points == v.ahead
            &&& r.min_points <= max_points
            &&& r.target_points <= max_points
        }),
{
    let have = stream::points_ns(v.buffered(queued) as int, v.config.pps as int);
    lemma_deficit_sign(v.config.target_buffer as int, have, v.config.pps as int);
    lemma_deficit_sign(v.config.min_buffer as int, have, v.config.pps as int);
}

proof fn lemma_deficit_sign(want: int, have: int, pps: int)
    requires
        pps >= 0,
    ensures
        stream::deficit(want, have, pps) >= 0,
{
    if have < want {
        assert((want - have) * pps >= 0) by (nonlinear_arith)
            requires
                have < want,
                pps >= 0,
        ;
    }
}

/// How long the waiting points of a request last is told to the nearest nanosecond.
pub proof fn buffered_time_is_nearest(v: StreamView, max_points: usize, queued: Option<u64>)
    requires
        v.config.pps >= 1,
    ensures
        ({
            let r = v.request(max_points, queued);
            &&& 2 * r.buffered * r.pps <= 2 * r.buffered_points * 1_000_000_000 + r.pps
            &&& 2 * r.buffered_points * 1_000_000_000 < 2 * r.buffered * r.pps + r.pps
        }),
{
    run::lemma_points_ns_bound(v.buffered(queued), v.config.pps);
    lemma_nearest(v.buffered(queued) as int, v.config.pps as int);
}

proof fn lemma_nearest(points: int, pps: int)
    requires
        points >= 0,
        pps >= 1,
    ensures
        2 * stream::points_ns(points, pps) * pps <= 2 * points * 1_000_000_000 + pps,
        2 * points * 1_000_000_000 < 2 * stream::points_ns(points, pps) * pps + pps,
{
    let n = 2 * points * 1_000_000_000 + pps;
    let d = 2 * pps;
    let q = n / d;
    assert(q * d <= n < q * d + d) by (nonlinear_arith)
        requires
            q == n / d,
            d > 0,
    ;
    assert(q * d == 2 * q * pps) by (nonlinear_arith)
        requires
            d == 2 * pps,
    ;
}

/// A request asks for no more than it takes: with one point less, the device would be
/// short of its target, or of its minimum.
pub proof fn request_is_least(v: StreamView, max_points: usize, queued: Option<u64>)
    requires
        v.config.pps >= 1,
    ensures
        ({
            let r = v.request(max_points, queued);
            let pps = v.config.pps;
            &&& r.target_points > 0 ==> r.buffered * pps + (r.target_points - 1) * 1_000_000_000
                < v.config.target_buffer * pps
            &&& r.min_points > 0 ==> r.buffered * pps + (r.min_points - 1) * 1_000_000_000
                < v.config.min_buffer * pps
            &&& r.min_points < max_points ==> r.buffered * pps + r.min_points * 1_000_000_000
                >= v.config.min_buffer * pps
        }),
{
    let pps = v.config.pps as int;
    let have = stream::points_ns(v.buffered(queued) as int, pps);
    run::lemma_points_ns_bound(v.buffered(queued), v.config.pps);
    lemma_least_deficit(v.config.target_buffer as int, have, pps);
    lemma_least_deficit(v.config.min_buffer as int, have, pps);
}

proof fn lemma_least_deficit(want: int, have: int, pps: int)
    requires
        pps >= 1,
        have >= 0,
    ensures
        ({
            let d = stream::deficit(want, have, pps);
            &&& d >= 0
            &&& d > 0 ==> have * pps + (d - 1) * 1_000_000_000 < want * pps
            &&& have * pps + d * 1_000_000_000 >= want * pps
        }),
{
    let d = stream::deficit(want, have, pps);
    lemma_deficit(want, have, pps);
    if have < want {
        let gap = (want - have) * pps;
        assert(d == (gap + 999_999_999) / 1_000_000_000);
        assert(gap == want * pps - have * pps) by (nonlinear_arith)
            requires
                gap == (want - have) * pps,
        ;
    } else {
        assert(have * pps >= want * pps) by (nonlinear_arith)
            requires
                have >= want,
                pps >= 1,
        ;
    }
}

/// As time passes, points that were sent are played: as many whole ones as the rate
/// gives for the time since the last look, as long as there are any.
pub proof fn time_plays_points(v: StreamView, now: u64)
    requires
        now >= v.last_iteration,
    ensures
        ({
            let played = v.ahead - v.at(now).ahead;
            let passed = (now - v.last_iteration) * v.config.pps;
            &&& v.at(now).last_iteration == now
            &&& 0 <= played
            &&& played * 1_000_000_000 <= passed
            &&& v.at(now).ahead > 0 ==> passed < (played + 1) * 1_000_000_000
        }),
        v.at(now).instant == v.instant,
        v.at(now).stats == v.stats,
        v.at(now).chunk == v.chunk,
{
    scheduler::lemma_played_bound((now - v.last_iteration) as u64, v.config.pps);
}

/// The producer is asked just when no more waits in the device than its target.
pub proof fn producer_is_asked_at_target(
    before: StreamView,
    now: u64,
    queued: Option<u64>,
    after: StreamView,
    action: StreamAction,
)
    requires
        before.wf(),
        run::idle_step(before, now, false, queued, after, action),
    ensures
        ({
            let waiting = before.at(now).request(before.max_points, queued).buffered_points;
            let target = before.config.target_buffer * before.config.pps;
            &&& waiting * 1_000_000_000 <= target <==> action is CheckLink
            &&& waiting * 1_000_000_000 > target ==> action is Sleep || action is Observe
        }),
        after.instant == before.instant,
        after.stats == before.stats,
{
    scheduler::lemma_played_bound(before.config.target_buffer, before.config.pps);
}

/// What waits beyond the target is slept off: the sleep lasts as long as those points,
/// to the nearest nanosecond.
pub proof fn excess_is_slept_off(
    before: StreamView,
    now: u64,
    queued: Option<u64>,
    after: StreamView,
    action: StreamAction,
    excess: int,
)
    requires
        before.wf(),
        run::idle_step(before, now, false, queued, after, action),
        action is Sleep,
        excess > 0,
        ({
            let waiting = before.at(now).request(before.max_points, queued).buffered_points;
            let target = before.config.target_buffer * before.config.pps;
            (waiting - excess) * 1_000_000_000 <= target < (waiting - excess + 1) * 1_000_000_000
        }),
    ensures
        after.phase is Sleeping,
        ({
            let ns = action->Sleep_0 + after.phase->Sleeping_remaining;
            &&& 2 * ns * before.config.pps <= 2 * excess * 1_000_000_000 + before.config.pps
            &&& 2 * excess * 1_000_000_000 < 2 * ns * before.config.pps + before.config.pps
        }),
{
    let v = before.at(now);
    let pps = before.config.pps as int;
    scheduler::lemma_played_bound(before.config.target_buffer, before.config.pps);
    let target = scheduler::played(before.config.target_buffer, before.config.pps) / 1_000_000_000;
    assert(excess == v.buffered(queued) - target);
    lemma_nearest(excess, pps);
    run::lemma_points_ns_bound(excess as u64, before.config.pps);
}

/// A stop that is requested ends the stream at the next look, before anything else.
pub proof fn requested_stop_ends_at_next_look(
    before: StreamView,
    now: u64,
    queued: Option<u64>,
    after: StreamView,
    action: StreamAction,
)
    requires
        run::idle_step(before, now, true, queued, after, action),
    ensures
        action == StreamAction::Finish(RunExit::Stopped),
        after.phase is Finished,
        after.stats == before.stats,
{
}

/// What the producer has filled goes to the device: so many points, at most a full
/// buffer of them. Without any where some were asked for, the underrun policy stands in.
pub proof fn filled_points_are_written(
    before: StreamView,
    n: usize,
    armed: bool,
    color_delay: u64,
    after: StreamView,
    action: StreamAction,
)
    requires
        before.wf(),
        before.phase is Producing,
        run::produce_step(before, ChunkResult::Filled(n), armed, color_delay, after, action),
    ensures
        0 < n <= before.max_points ==> action is Write && action->count == n,
        n > before.max_points ==> action is Write && action->count == before.max_points,
        n > 0 ==> after.stats == before.stats,
        n == 0 && before.phase->request.target_points > 0 ==> after.stats.underrun_count
            == (before.stats.underrun_count + 1) as u64,
        n == 0 && before.phase->request.target_points == 0 ==> action is Observe && after
            == before.in_phase(RunPhase::Idle),
        n > 0 ==> action->Write_shutter == before.shutter_move(armed),
        action is Write && n > 0 ==> after.phase == (RunPhase::Writing {
            count: action->count,
            armed,
        }),
{
}

/// A producer that is starved is stood in for with as many points as were asked for, one
/// at least. Each time is counted. None of the points is bright unless the last chunk is
/// repeated.
pub proof fn starved_producer_is_stood_in_for(
    before: StreamView,
    armed: bool,
    color_delay: u64,
    after: StreamView,
    action: StreamAction,
    i: int,
)
    requires
        before.wf(),
        before.has_room(),
        before.phase is Producing,
        !armed || before.config.underrun != UnderrunPolicy::Stop,
        run::produce_step(before, ChunkResult::Starved, armed, color_delay, after, action),
    ensures
        action is Write,
        action->count >= 1,
        action->count >= before.phase->request.target_points,
        action->count == 1 || action->count == before.phase->request.target_points,
        after.stats.underrun_count == before.stats.underrun_count + 1,
        after.stats.points_written == before.stats.points_written,
        after.phase == (RunPhase::Underrun { count: action->count, armed }),
        0 <= i < action->count ==> {
            &&& !armed || before.config.underrun == UnderrunPolicy::Blank ==> after.chunk[i].is_dark()
                && after.chunk[i].x == 0 && after.chunk[i].y == 0
            &&& armed ==> (before.config.underrun matches UnderrunPolicy::Park { x, y }
                ==> after.chunk[i].is_dark() && after.chunk[i].x == x && after.chunk[i].y == y)
        },
{
}

/// A starved producer ends the stream if that is the policy, but only while it is armed.
pub proof fn stop_policy_ends_starved_stream(
    before: StreamView,
    color_delay: u64,
    after: StreamView,
    action: StreamAction,
)
    requires
        before.phase is Producing,
        before.config.underrun == UnderrunPolicy::Stop,
        run::produce_step(before, ChunkResult::Starved, true, color_delay, after, action),
    ensures
        action is StopAndFail,
        after.phase is Finished,
{
}

/// A producer that ends lets the device play what it has, or ends at once if there is no
/// time for that.
pub proof fn ended_producer_drains(
    before: StreamView,
    armed: bool,
    color_delay: u64,
    after: StreamView,
    action: StreamAction,
)
    requires
        before.phase is Producing,
        run::produce_step(before, ChunkResult::End, armed, color_delay, after, action),
    ensures
        before.config.drain_timeout > 0 ==> action is Observe && after.phase is Draining
            && after.shutter_open == before.shutter_open,
        before.config.drain_timeout == 0 ==> action is Close && !after.shutter_open,
        after.stats == before.stats,
        after.ahead == before.ahead,
{
}

/// An underrun repeats what was shown last: the points that were written while armed,
/// from the first on and over again. What went out dark is not remembered.
pub proof fn underrun_repeats_what_was_written(v: StreamView, n: usize, m: int, i: int)
    requires
        v.wf(),
        v.config.underrun == UnderrunPolicy::RepeatLast,
        0 < n <= v.max_points,
        0 <= i < m,
    ensures
        v.written(n, true).stand_in(true, m)[i] == v.chunk[i % n as int],
        v.last_len > 0 ==> v.written(n, false).stand_in(true, m)[i] == v.last[i % v.last_len as int],
        v.last_len == 0 ==> v.written(n, false).stand_in(true, m)[i].is_dark(),
{
    assert(0 <= i % (n as int) && i % (n as int) < n) by (nonlinear_arith)
        requires
            i >= 0,
            n > 0,
    ;
    assert(v.written(n, true).last[i % n as int] == v.chunk[i % n as int]);
}

/// Points count as written, and as waiting, once the device has taken them, and only then.
pub proof fn only_taken_points_count(
    before: StreamView,
    reply: WriteReply,
    after: StreamView,
    action: StreamAction,
)
    requires
        before.wf(),
        before.has_room(),
        run::write_step(before, reply, after, action),
    ensures
        ({
            let count: int = match before.phase {
                RunPhase::Writing { count, .. } => count as int,
                RunPhase::Underrun { count, .. } => count as int,
                _ => 0,
            };
            &&& after.stats.underrun_count == before.stats.underrun_count
            &&& reply is Written ==> {
                &&& after.instant == before.instant + count
                &&& after.ahead == before.ahead + count
                &&& after.stats.points_written == before.stats.points_written + count
                &&& after.stats.chunks_written == before.stats.chunks_written + 1
            }
            &&& !(reply is Written) ==> {
                &&& after.instant == before.instant
                &&& after.ahead == before.ahead
                &&& after.stats == before.stats
                &&& after.last == before.last
                &&& after.last_len == before.last_len
            }
        }),
{
}

/// What a device answers to a chunk decides how the stream goes on: a full device is
/// offered the chunk again after a tenth of a millisecond, a lost one ends the stream as
/// disconnected, a stopped one as stopped, and any other error is reported and does not
/// end it. An underrun chunk is never offered again, and its errors do not matter.
pub proof fn reply_decides_how_to_go_on(
    before: StreamView,
    reply: WriteReply,
    after: StreamView,
    action: StreamAction,
)
    requires
        run::write_step(before, reply, after, action),
    ensures
        before.phase is Underrun || reply is Written ==> action is Observe && after.phase is Idle,
        before.phase is Writing && reply is WouldBlock ==> action == StreamAction::Pause(100_000)
            && after.phase is Blocked && after.chunk == before.chunk,
        before.phase is Writing && reply is Missing ==> action is ReportAndFinish && after.phase is Finished,
        before.phase is Writing ==> (reply matches WriteReply::Failed(e) ==> {
            &&& e is Stopped ==> action == StreamAction::Fail(Error::Stopped)
            &&& e is Disconnected ==> action is ReportAndFinish
                && action->ReportAndFinish_1 == RunExit::Disconnected
                && action->ReportAndFinish_0 is Disconnected
            &&& e is Stopped || e is Disconnected <==> after.phase is Finished
            &&& !(e is Stopped) && !(e is Disconnected) ==> action == StreamAction::Report(e)
        }),
{
}

/// A drain goes on while the device has points and there is time.
pub proof fn drain_waits_for_the_device(
    before: StreamView,
    now: u64,
    queued: Option<u64>,
    after: StreamView,
    action: StreamAction,
)
    requires
        run::drain_step(before, now, queued, after, action),
    ensures
        before.phase matches RunPhase::Polling { deadline } ==> {
            let empty = queued is None || queued == Some(0u64);
            &&& action is Close <==> empty || now >= deadline
            &&& !(action is Close) ==> action == StreamAction::Pause(5_000_000) && after.shutter_open
                == before.shutter_open
        },
        before.phase matches RunPhase::Waiting { deadline, remaining } ==> {
            &&& action is Close <==> remaining == 0 || now >= deadline
            &&& !(action is Close) ==> {
                &&& action is Sleep
                &&& 0 < action->Sleep_0 <= 10_000_000
                &&& after.phase is Slumbering
                &&& action->Sleep_0 + after.phase->Slumbering_remaining == remaining
                &&& after.phase->Slumbering_deadline == deadline
                &&& after.shutter_open == before.shutter_open
            }
        },
        action is Close ==> !after.shutter_open && after.phase is Closing,
{
}

/// A drain lasts as long as the points that wait, but no longer than its timeout: a
/// device that tells its queue is asked, and for another one the time is reckoned to the
/// nearest nanosecond.
pub proof fn drain_lasts_as_long_as_the_points(
    before: StreamView,
    now: u64,
    queued: Option<u64>,
    after: StreamView,
    action: StreamAction,
)
    requires
        before.wf(),
        before.phase is Draining,
        run::drain_step(before, now, queued, after, action),
    ensures
        action is Observe,
        queued is Some ==> after.phase is Polling && after.phase->Polling_deadline == now
            + before.config.drain_timeout,
        queued is None ==> {
            let wait = after.phase->Waiting_remaining;
            let pps = before.config.pps;
            &&& after.phase is Waiting
            &&& after.phase->Waiting_deadline == now + before.config.drain_timeout
            &&& wait <= before.config.drain_timeout
            &&& 2 * wait * pps <= 2 * before.ahead * 1_000_000_000 + pps
            &&& wait < before.config.drain_timeout ==> 2 * before.ahead * 1_000_000_000 < 2 * wait
                * pps + pps
        },
{
    let pps = before.config.pps as int;
    run::lemma_points_ns_bound(before.ahead, before.config.pps);
    lemma_nearest(before.ahead as int, pps);
    if queued is None {
        let all = stream::points_ns(before.ahead as int, pps);
        let wait = after.phase->Waiting_remaining as int;
        assert(wait <= all);
        assert(2 * wait * pps <= 2 * all * pps) by (nonlinear_arith)
            requires
                wait <= all,
                pps >= 1,
        ;
    }
}

/// A shutter that is open just while the stream is armed stays so: it moves with each
/// arming and disarming, and otherwise not.
pub proof fn shutter_follows_arming(v: StreamView, armed: bool)
    requires
        v.shutter_open == v.last_armed,
    ensures
        v.with_armed(armed).shutter_open == armed,
        v.with_armed(armed).last_armed == armed,
        v.shutter_move(armed) == if armed == v.last_armed {
            None::<bool>
        } else {
            Some(armed)
        },
{
}

/// A message moves the shutter only where it is not there yet, and never ends a stream
/// but by asking for a stop.
pub proof fn message_moves_shutter_once(open: bool, msg: ControlMsg)
    ensures
        run::control_step(open, msg) is Stop <==> msg is Stop,
        run::control_step(true, ControlMsg::Arm) is Nothing,
        run::control_step(false, ControlMsg::Arm) == ControlStep::SetShutter(true),
        run::control_step(false, ControlMsg::Disarm) is Nothing,
        run::control_step(true, ControlMsg::Disarm) == ControlStep::SetShutter(false),
{
}

/// Startup blanking and color delays cover at least their time, and less than one point
/// more.
pub proof fn points_cover_the_time(ns: u64, pps: u32)
    requires
        ns * pps <= u64::MAX,
    ensures
        ({
            let n = stream::points_within(ns, pps);
            &&& n * 1_000_000_000 >= ns * pps
            &&& n > 0 ==> (n - 1) * 1_000_000_000 < ns * pps
        }),
{
    assert((ns - 0) * pps == ns * pps);
    assert(0 <= ns * pps) by (nonlinear_arith)
        requires
            ns >= 0,
            pps >= 0,
    ;
    assert(ns == 0 ==> ns * pps == 0) by (nonlinear_arith);
}

/// A stream starts disarmed, with the shutter closed and nothing but dark points, and
/// asks for points from the start of stream time on.
pub proof fn stream_starts_dark(
    caps: DacCapabilities,
    config: StreamConfig,
    queued: Option<u64>,
    i: int,
)
    requires
        caps.max_points_per_chunk >= 1,
        config.pps >= 1,
    ensures
        ({
            let v = dac::fresh_view(caps, config);
            &&& v.wf()
            &&& accounted(v)
            &&& !v.last_armed
            &&& !v.shutter_open
            &&& v.phase is Idle
            &&& v.config == config
            &&& v.max_points == caps.max_points_per_chunk
            &&& v.stats.points_written == 0
            &&& v.stats.chunks_written == 0
            &&& v.stats.underrun_count == 0
            &&& v.request(v.max_points, queued).start.points == 0
            &&& v.request(v.max_points, queued).buffered_points == 0
            &&& 0 <= i < v.max_points ==> v.chunk[i].is_dark() && v.stand_in(true, i + 1)[i].is_dark()
        }),
{
}

/// A stream can be started just at the rates that its device plays, on a device that was
/// not used for one before.
pub proof fn stream_needs_a_rate_of_the_device<B>()
    ensures
        forall|caps: &DacCapabilities, cfg: &StreamConfig, r: Result<(), Error>|
            #[trigger] call_ensures(dac::validate_config, (caps, cfg), r) ==> {
                &&& r is Err <==> cfg.pps < caps.pps_min || cfg.pps > caps.pps_max
                &&& r matches Err(e) ==> e is InvalidConfig
            },
        forall|d: &Dac<B>, cfg: &StreamConfig, r: Result<(), Error>|
            #[trigger] call_ensures(Dac::<B>::check_start, (d, cfg), r) ==> {
                &&& r is Ok <==> d.backend is Some && d.info.caps.pps_min <= cfg.pps
                    <= d.info.caps.pps_max
                &&& r matches Err(e) ==> e is InvalidConfig
            },
{
}

/// What a stream tells of itself is what it has done.
pub proof fn status_tells_what_was_done<B>()
    ensures
        forall|s: &Stream<B>, connected: bool, queued: Option<u64>, r: StreamStatus|
            #[trigger] call_ensures(Stream::<B>::status_with, (s, connected, queued), r) ==> {
                &&& r.stats == Some(s@.stats)
                &&& r.scheduled_ahead_points == s@.ahead
                &&& r.connected == connected
                &&& r.device_queued_points == queued
            },
{
}

/// A device that is lost or missing ends the stream before the producer is asked; one that
/// answers does not.
pub proof fn lost_device_ends_the_stream<B>()
    ensures
        forall|s: &mut Stream<B>, link: Link, r: StreamAction|
            #[trigger] call_ensures(Stream::<B>::linked, (s, link), r) ==> {
                &&& link is Up <==> r is Control
                &&& !(link is Up) ==> final(s)@.phase is Finished && r is ReportAndFinish
                    && r->ReportAndFinish_1 is Disconnected && r->ReportAndFinish_0 is Disconnected
                &&& final(s)@.stats == s@.stats
                &&& final(s)@.instant == s@.instant
            },
        forall|s: &mut Stream<B>, stop: bool, queued: Option<u64>, r: StreamAction|
            #[trigger] call_ensures(Stream::<B>::controlled, (s, stop, queued), r) ==> {
                &&& stop ==> r == StreamAction::Finish(RunExit::Stopped)
                &&& !stop ==> r is Produce && r->Produce_0.start.points == s@.instant
                    && r->Produce_0.pps == s@.config.pps && r->Produce_0.target_points
                    <= s@.max_points
                &&& final(s)@.chunk == s@.chunk
            },
        forall|s: &mut Stream<B>, r: StreamAction|
            #[trigger] call_ensures(Stream::<B>::closed, (s,), r) ==> r == StreamAction::Finish(
                RunExit::ProducerEnded,
            ),
        forall|s: &mut Stream<B>, r: StreamAction|
            #[trigger] call_ensures(Stream::<B>::reported, (s,), r) ==> r is Observe && final(s)@.phase
                is Idle,
{
}

/// A request goes by what the stream holds: it starts where the stream is in time, at the
/// rate that was set, and counts no more points as waiting than the stream has sent ahead.
pub proof fn request_goes_by_what_the_stream_holds<B>()
    ensures
        forall|s: &Stream<B>, max_points: usize, queued: Option<u64>, r: ChunkRequest| #[trigger]
            call_ensures(Stream::<B>::build_fill_request, (s, max_points, queued), r)
                && s.config.pps >= 1 ==> {
                &&& r.start == s.state.current_instant
                &&& r.pps == s.config.pps
                &&& r.device_queued_points == queued
                &&& queued is None ==> r.buffered_points == s.state.scheduled_ahead
                &&& queued matches Some(q) ==> {
                    &&& q <= s.state.scheduled_ahead ==> r.buffered_points == q
                    &&& q > s.state.scheduled_ahead ==> r.buffered_points
                        == s.state.scheduled_ahead
                }
                &&& r.target_points <= max_points
                &&& r.min_points <= max_points
            },
        forall|s: &Stream<B>, queued: Option<u64>, r: u64| #[trigger]
            call_ensures(Stream::<B>::estimate_buffer_points, (s, queued), r) ==> {
                &&& queued is None ==> r == s.state.scheduled_ahead
                &&& queued matches Some(q) ==> r <= q && r <= s.state.scheduled_ahead && (r == q
                    || r == s.state.scheduled_ahead)
            },
{
}

/// Points that the device has taken move the time of the stream, count as sent ahead and
/// are counted, each by their number; without them all three stay.
pub proof fn taken_points_move_the_stream<B>()
    ensures
        forall|s: &mut Stream<B>, reply: WriteReply, r: StreamAction| #[trigger]
            call_ensures(Stream::<B>::wrote, (s, reply), r) && s@.wf() && s@.has_room() && (
            s.phase is Writing || s.phase is Underrun) ==> {
                let count: int = match s.phase {
                    RunPhase::Writing { count, .. } => count as int,
                    RunPhase::Underrun { count, .. } => count as int,
                    _ => 0,
                };
                let taken = if reply is Written {
                    count
                } else {
                    0
                };
                &&& final(s).state.current_instant.points == s.state.current_instant.points + taken
                &&& final(s).state.scheduled_ahead == s.state.scheduled_ahead + taken
                &&& final(s).state.stats.points_written == s.state.stats.points_written + taken
                &&& final(s).state.stats.chunks_written == s.state.stats.chunks_written + (
                if reply is Written {
                    1int
                } else {
                    0
                })
                &&& final(s).config == s.config
                &&& final(s).info == s.info
                &&& final(s).backend == s.backend
                &&& final(s).control == s.control
            },
{
}

/// A step of a stream leaves its device, what is known of it, its settings and its handle
/// as they are, and acts on the state that the stream holds.
pub proof fn steps_leave_the_device_alone<B>()
    ensures
        forall|s: &mut Stream<B>, now: u64, r: StreamAction| #[trigger]
            call_ensures(Stream::<B>::start, (s, now), r) && s@.wf() ==> {
                &&& r is Observe
                &&& final(s).last_iteration == now
                &&& final(s).phase is Idle
                &&& final(s).state.current_instant == s.state.current_instant
                &&& final(s).state.scheduled_ahead == s.state.scheduled_ahead
                &&& final(s).config == s.config && final(s).info == s.info && final(s).backend
                    == s.backend && final(s).control == s.control
            },
        forall|s: &mut Stream<B>, now: u64, stop: bool, queued: Option<u64>, r: StreamAction|
            #[trigger] call_ensures(Stream::<B>::observed, (s, now, stop, queued), r) && s@.wf() && (
            s.phase is Idle || s.phase is Draining || s.phase is Polling || s.phase is Waiting)
                ==> {
                &&& s.phase is Idle ==> run::idle_step(s@, now, stop, queued, final(s)@, r)
                &&& !(s.phase is Idle) ==> run::drain_step(s@, now, queued, final(s)@, r)
                &&& final(s).info == s.info && final(s).backend == s.backend && final(s).control
                    == s.control
            },
        forall|s: &mut Stream<B>, stop: bool, armed: bool, r: StreamAction| #[trigger]
            call_ensures(Stream::<B>::slept, (s, stop, armed), r) && s@.wf() && (
            s.phase is Sleeping || s.phase is Blocked || s.phase is Pausing
                || s.phase is Slumbering) ==> {
                &&& run::wake_step(s@, stop, armed, final(s)@, r)
                &&& final(s).info == s.info && final(s).backend == s.backend && final(s).control
                    == s.control
            },
        forall|s: &mut Stream<B>, result: ChunkResult, armed: bool, delay: u64, r: StreamAction|
            #[trigger] call_ensures(Stream::<B>::produced, (s, result, armed, delay), r) && s@.wf()
                && s.phase is Producing && s@.has_room() && stream::points_within(
                delay,
                s.config.pps,
            ) <= usize::MAX ==> {
                &&& run::produce_step(s@, result, armed, delay, final(s)@, r)
                &&& final(s).info == s.info && final(s).backend == s.backend && final(s).control
                    == s.control
            },
        forall|s: &mut Stream<B>, armed: bool, r: Option<bool>| #[trigger]
            call_ensures(Stream::<B>::handle_shutter_transition, (s, armed), r) ==> {
                &&& r matches Some(open) ==> open == armed && final(s).state.shutter_open == open
                    && s.state.shutter_open != open
                &&& r is None ==> final(s).state.shutter_open == s.state.shutter_open
                &&& final(s).state.last_armed == armed
                &&& final(s).state.current_instant == s.state.current_instant
                &&& final(s).info == s.info && final(s).backend == s.backend && final(s).control
                    == s.control
            },
{
}

/// What a stream is seen as is what it holds, part by part.
pub proof fn stream_is_seen_as_it_is<B>(s: Stream<B>)
    ensures
        s@.max_points == s.info.caps.max_points_per_chunk,
        s@.config == s.config,
        s@.instant == s.state.current_instant.points,
        s@.ahead == s.state.scheduled_ahead,
        s@.chunk == s.state.chunk_buffer@,
        s@.last == s.state.last_chunk@,
        s@.last_len == s.state.last_chunk_len,
        s@.stats == s.state.stats,
        s@.last_armed == s.state.last_armed,
        s@.shutter_open == s.state.shutter_open,
        s@.line == s.state.color_line@,
        s@.startup_left == s.state.startup_left,
        s@.last_iteration == s.last_iteration,
        s@.phase == s.phase,
{
}

/// What is shown at the end of a stream is dark, at the centre.
pub proof fn stream_ends_dark()
    ensures
        forall|r: Vec<LaserPoint>| #[trigger]
            call_ensures(run::closing_chunk, (), r) ==> r@.len() == 16 && forall|i: int|
                0 <= i < 16 ==> {
                    let p = #[trigger] r@[i];
                    p.x == 0 && p.y == 0 && p.r == 0 && p.g == 0 && p.b == 0 && p.intensity == 0
                },
{
}

/// A wait of the drain that is over goes on as it was; a stop that came meanwhile closes
/// the stream at once.
pub proof fn stop_ends_the_drain(
    before: StreamView,
    stop: bool,
    armed: bool,
    after: StreamView,
    action: StreamAction,
)
    requires
        before.phase is Pausing || before.phase is Slumbering,
        run::wake_step(before, stop, armed, after, action),
    ensures
        stop ==> action is Close && after.phase is Closing && !after.shutter_open,
        !stop ==> action is Observe && after.shutter_open == before.shutter_open,
        !stop && before.phase is Pausing ==> after.phase == (RunPhase::Polling {
            deadline: before.phase->Pausing_deadline,
        }),
        !stop && before.phase is Slumbering ==> after.phase == (RunPhase::Waiting {
            deadline: before.phase->Slumbering_deadline,
            remaining: before.phase->Slumbering_remaining,
        }),
        after.instant == before.instant,
        after.ahead == before.ahead,
        after.stats == before.stats,
{
}

/// Colors wait in their order: those that were not shown yet move up, and the colors of
/// the chunk follow them. A delay that grows is filled up with darkness.
pub proof fn waiting_colors_move_up(
    before: StreamView,
    n: usize,
    color_delay: u64,
    after: StreamView,
    action: StreamAction,
    j: int,
)
    requires
        before.wf(),
        before.phase is Producing,
        0 < n <= before.max_points,
        run::produce_step(before, ChunkResult::Filled(n), true, color_delay, after, action),
        0 <= j < stream::points_within(color_delay, before.config.pps),
    ensures
        ({
            let d = stream::points_within(color_delay, before.config.pps) as int;
            &&& j + n < d && j + n < before.line.len() ==> after.line[j] == before.line[j + n]
            &&& before.line.len() <= j + n < d ==> after.line[j].r == 0 && after.line[j].g == 0
                && after.line[j].b == 0 && after.line[j].intensity == 0
            &&& j + n >= d ==> after.line[j] == before.chunk[j + n - d].look()
        }),
{
}

/// Disarming drops the colors that wait, and arming keeps them; neither moves the stream.
pub proof fn disarming_drops_waiting_colors(v: StreamView, armed: bool)
    ensures
        v.with_armed(false).line.len() == 0,
        v.with_armed(true).line == v.line,
        v.with_armed(armed).instant == v.instant,
        v.with_armed(armed).ahead == v.ahead,
        v.with_armed(armed).chunk == v.chunk,
        v.with_armed(armed).last == v.last,
        v.with_armed(armed).stats == v.stats,
        v.with_armed(armed).last_armed == armed,
{
}

/// A producer that fills nothing where points were asked for is starved; where none were
/// asked for, the stream looks again.
pub proof fn nothing_filled_is_starved(
    before: StreamView,
    armed: bool,
    color_delay: u64,
    after: StreamView,
    action: StreamAction,
)
    requires
        before.wf(),
        before.phase is Producing,
    ensures
        before.phase->request.target_points > 0 ==> (run::produce_step(
            before,
            ChunkResult::Filled(0),
            armed,
            color_delay,
            after,
            action,
        ) <==> run::produce_step(before, ChunkResult::Starved, armed, color_delay, after, action)),
        before.phase->request.target_points == 0 && run::produce_step(
            before,
            ChunkResult::Filled(0),
            armed,
            color_delay,
            after,
            action,
        ) ==> action is Observe && after.phase is Idle && after.stats == before.stats,
{
}

} // verus!
