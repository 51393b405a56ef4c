//! Dual-estimate buffer tracking for LaserCube WiFi DACs.
//!
//! Uses two independent estimates of buffer fullness, one based on when data was last
//! sent and one based on the last ACK, taking the maximum (conservative) value. This
//! prevents buffer overruns even when ACKs are delayed or lost.

use vstd::prelude::*;

use crate::arith;
use crate::scheduler;

verus! {

/// Safety margin subtracted from available space to prevent overruns.
pub const LATENCY_POINT_ADJUSTMENT: u16 = 300;

/// Send times older than this are considered stale and removed, in nanoseconds.
pub const STALE_ENTRY_TIMEOUT: u64 = 10_000_000_000;

/// Minimum number of free points (after safety margin) required before sending.
pub const MIN_SENDABLE_POINTS: u16 = 140;

/// When each message that has not been acknowledged was sent, by its number.
pub struct MessageTimes {
    pub slots: [Option<u64>; 256],
}

/// How many messages there are times of.
pub open spec fn known(slots: Seq<Option<u64>>) -> int
    decreases slots.len(),
{
    if slots.len() == 0 {
        0
    } else {
        known(slots.drop_last()) + if slots.last() is Some {
            1int
        } else {
            0
        }
    }
}

impl MessageTimes {
    pub fn contains_key(&self, message_number: &u8) -> (r: bool)
        ensures
            r == (self.slots@[*message_number as int] is Some),
    {
        self.slots[*message_number as usize].is_some()
    }

    pub fn len(&self) -> (r: usize)
        ensures
            r == known(self.slots@),
    {
        let mut n: usize = 0;
        let mut i: usize = 0;
        assert(self.slots@.take(0) =~= seq![]);
        while i < 256
            invariant
                i <= 256,
                n <= i,
                n == known(self.slots@.take(i as int)),
            decreases 256 - i,
        {
            if self.slots[i].is_some() {
                n += 1;
            }
            i += 1;
            proof {
                let part = self.slots@.take(i as int);
                assert(part.drop_last() =~= self.slots@.take(i - 1));
                assert(part.last() == self.slots@[i - 1]);
            }
        }
        assert(self.slots@.take(256) =~= self.slots@);
        n
    }

    pub fn is_empty(&self) -> (r: bool)
        ensures
            r == forall|i: int| 0 <= i < 256 ==> (#[trigger] self.slots@[i]) is None,
    {
        let mut i: usize = 0;
        while i < 256
            invariant
                i <= 256,
                forall|j: int| 0 <= j < i ==> (#[trigger] self.slots@[j]) is None,
            decreases 256 - i,
        {
            if self.slots[i].is_some() {
                assert(!(self.slots@[i as int] is None));
                return false;
            }
            i += 1;
        }
        true
    }
}

/// Dual-estimate buffer tracker for LaserCube WiFi DACs. Moments are in nanoseconds of
/// one clock.
///
/// Maintains two independent estimates of device buffer fullness:
/// 1. **Sent-track**: Based on the last send time and points sent, decayed by the playback rate.
/// 2. **Ack-track**: Based on the last ACK-reported fullness, decayed by the playback rate.
///
/// The maximum of both estimates is used as the conservative fullness value.
/// ACKs are correlated to specific sent messages via `message_number` for precise anchoring.
pub struct BufferEstimator {
    pub capacity: u16,
    pub point_rate: u32,
    pub last_data_sent_time: Option<u64>,
    pub last_data_sent_buffer_size: u16,
    pub last_ack_time: Option<u64>,
    pub last_reported_buffer_fullness: u16,
    /// ACK correlation: when each message was sent.
    pub message_times: MessageTimes,
}

/// What is left of `size` points that were there at `time`, if they were.
pub open spec fn track(time: Option<u64>, size: u16, rate: u32, now: u64) -> int {
    match time {
        None => 0,
        Some(t) => {
            let consumed = scheduler::played(arith::since(now, t), rate) / 1_000_000_000;
            if consumed <= size {
                size - consumed
            } else {
                0
            }
        },
    }
}

/// The larger of two numbers.
pub open spec fn most(a: int, b: int) -> int {
    if a >= b {
        a
    } else {
        b
    }
}

/// `a - b`, or 0 if that is negative.
pub open spec fn beyond(a: int, b: int) -> int {
    if a >= b {
        a - b
    } else {
        0
    }
}

fn decayed(time: Option<u64>, size: u16, rate: u32, now: u64) -> (r: u16)
    ensures
        r == track(time, size, rate, now),
{
    match time {
        None => 0,
        Some(t) => {
            let elapsed: u64 = now.saturating_sub(t);
            proof {
                scheduler::lemma_played_bound(elapsed, rate);
            }
            let consumed: u128 = elapsed as u128 * rate as u128 / 1_000_000_000;
            if consumed <= size as u128 {
                size - consumed as u16
            } else {
                0
            }
        },
    }
}

impl BufferEstimator {
    /// The fullness by what was sent.
    pub open spec fn by_sent(self, now: u64) -> int {
        track(self.last_data_sent_time, self.last_data_sent_buffer_size, self.point_rate, now)
    }

    /// The fullness by what was acknowledged.
    pub open spec fn by_acked(self, now: u64) -> int {
        track(self.last_ack_time, self.last_reported_buffer_fullness, self.point_rate, now)
    }

    /// The larger of the two.
    pub open spec fn fullness(self, now: u64) -> int {
        most(self.by_sent(now), self.by_acked(now))
    }

    /// The points that can be added, with the margin kept free.
    pub open spec fn room(self, now: u64) -> int {
        beyond(beyond(self.capacity as int, self.fullness(now)), 300)
    }

    /// Create a new estimator with the given device buffer capacity and playback rate.
    pub fn new(capacity: u16, point_rate: u32) -> (r: BufferEstimator)
        ensures
            r.capacity == capacity,
            r.point_rate == point_rate,
            r.last_data_sent_time is None,
            r.last_data_sent_buffer_size == 0,
            r.last_ack_time is None,
            r.last_reported_buffer_fullness == 0,
            forall|i: int| 0 <= i < 256 ==> (#[trigger] r.message_times.slots@[i]) is None,
    {
        BufferEstimator {
            capacity,
            point_rate,
            last_data_sent_time: None,
            last_data_sent_buffer_size: 0,
            last_ack_time: None,
            last_reported_buffer_fullness: 0,
            message_times: MessageTimes { slots: [None; 256] },
        }
    }

    /// Update the playback rate used for time-based decay calculations.
    pub fn set_point_rate(&mut self, rate: u32)
        ensures
            *final(self) == (BufferEstimator { point_rate: rate, ..*old(self) }),
    {
        self.point_rate = rate;
    }

    /// Reset all tracking state (e.g. after clearing the device buffer).
    pub fn reset(&mut self)
        ensures
            final(self).capacity == old(self).capacity,
            final(self).point_rate == old(self).point_rate,
            final(self).last_data_sent_time is None,
            final(self).last_data_sent_buffer_size == 0,
            final(self).last_ack_time is None,
            final(self).last_reported_buffer_fullness == 0,
            forall|i: int| 0 <= i < 256 ==> (#[trigger] final(self).message_times.slots@[i]) is None,
            forall|now: u64| final(self).fullness(now) == 0,
    {
        self.last_data_sent_time = None;
        self.last_data_sent_buffer_size = 0;
        self.last_ack_time = None;
        self.last_reported_buffer_fullness = 0;
        self.message_times = MessageTimes { slots: [None; 256] };
    }

    /// Estimate buffer fullness based on the sent-track (last send time + decay).
    pub fn estimate_fullness_by_time_sent(&self, now: u64) -> (r: u16)
        ensures
            r == self.by_sent(now),
    {
        decayed(self.last_data_sent_time, self.last_data_sent_buffer_size, self.point_rate, now)
    }

    /// Estimate buffer fullness based on the ack-track (last ACK + decay).
    pub fn estimate_fullness_by_time_acked(&self, now: u64) -> (r: u16)
        ensures
            r == self.by_acked(now),
    {
        decayed(self.last_ack_time, self.last_reported_buffer_fullness, self.point_rate, now)
    }

    /// Conservative estimate of buffer fullness: the maximum of both tracks.
    pub fn estimated_buffer_fullness(&self, now: u64) -> (r: u16)
        ensures
            r == self.fullness(now),
    {
        let by_sent: u16 = self.estimate_fullness_by_time_sent(now);
        let by_acked: u16 = self.estimate_fullness_by_time_acked(now);
        if by_sent >= by_acked {
            by_sent
        } else {
            by_acked
        }
    }

    /// Maximum number of points that can safely be added to the buffer right now.
    pub fn max_points_to_add(&self, now: u64) -> (r: u16)
        ensures
            r == self.room(now),
    {
        let fullness: u16 = self.estimated_buffer_fullness(now);
        self.capacity.saturating_sub(fullness).saturating_sub(LATENCY_POINT_ADJUSTMENT)
    }

    /// Whether it's safe to send a packet right now.
    pub fn can_send(&self, now: u64) -> (r: bool)
        ensures
            r == (self.room(now) >= 140),
    {
        self.max_points_to_add(now) >= MIN_SENDABLE_POINTS
    }

    /// Record that a packet was sent with the given message number and point count.
    pub fn record_send(&mut self, message_number: u8, points_sent: u16, now: u64)
        requires
            old(self).fullness(now) + points_sent <= u16::MAX,
        ensures
            sent(*old(self), message_number, points_sent, now, *final(self)),
            final(self).fullness(now) == old(self).fullness(now) + points_sent,
    {
        let current_fullness: u16 = self.estimated_buffer_fullness(now);
        proof {
            scheduler::lemma_played_bound(0, self.point_rate);
            assert(scheduler::played(0, self.point_rate) == 0);
        }
        self.last_data_sent_time = Some(now);
        self.last_data_sent_buffer_size = current_fullness + points_sent;
        self.message_times.slots[message_number as usize] = Some(now);
    }

    /// Record an ACK from the device, correlating it to the original send if possible.
    /// What was sent is anchored anew where the ACK answers to a message that is not
    /// older than the anchor.
    pub fn record_ack(&mut self, message_number: u8, free_space: u16, now: u64)
        ensures
            acked(*old(self), message_number, free_space, now, *final(self)),
    {
        let ghost before = *self;
        let reported_fullness: u16 = self.capacity.saturating_sub(free_space);
        if let Some(send_time) = self.message_times.slots[message_number as usize] {
            let newer: bool = match self.last_data_sent_time {
                Some(t) => send_time >= t,
                None => true,
            };
            if newer {
                self.last_data_sent_time = Some(send_time);
                self.last_data_sent_buffer_size = reported_fullness;
            }
            self.message_times.slots[message_number as usize] = None;
        }
        self.last_ack_time = Some(now);
        self.last_reported_buffer_fullness = reported_fullness;
        assert(self.message_times.slots@ =~= before.message_times.slots@.update(
            message_number as int,
            None,
        ));
        self.cleanup_stale_entries(now);
    }

    /// Remove send times older than [`STALE_ENTRY_TIMEOUT`].
    fn cleanup_stale_entries(&mut self, now: u64)
        ensures
            final(self).capacity == old(self).capacity,
            final(self).point_rate == old(self).point_rate,
            final(self).last_data_sent_time == old(self).last_data_sent_time,
            final(self).last_data_sent_buffer_size == old(self).last_data_sent_buffer_size,
            final(self).last_ack_time == old(self).last_ack_time,
            final(self).last_reported_buffer_fullness == old(self).last_reported_buffer_fullness,
            final(self).message_times.slots@ == fresh_times(old(self).message_times.slots@, now),
    {
        let ghost before = *self;
        let mut i: usize = 0;
        while i < 256
            invariant
                i <= 256,
                self.capacity == before.capacity,
                self.point_rate == before.point_rate,
                self.last_data_sent_time == before.last_data_sent_time,
                self.last_data_sent_buffer_size == before.last_data_sent_buffer_size,
                self.last_ack_time == before.last_ack_time,
                self.last_reported_buffer_fullness == before.last_reported_buffer_fullness,
                forall|j: int|
                    0 <= j < i ==> #[trigger] self.message_times.slots@[j] == fresh_times(
                        before.message_times.slots@,
                        now,
                    )[j],
                forall|j: int|
                    i <= j < 256 ==> #[trigger] self.message_times.slots@[j]
                        == before.message_times.slots@[j],
            decreases 256 - i,
        {
            if let Some(time) = self.message_times.slots[i] {
                if now.saturating_sub(time) > STALE_ENTRY_TIMEOUT {
                    self.message_times.slots[i] = None;
                }
            }
            i += 1;
        }
        assert(self.message_times.slots@ =~= fresh_times(before.message_times.slots@, now));
    }
}

/// The send times that are not stale.
pub open spec fn fresh_times(slots: Seq<Option<u64>>, now: u64) -> Seq<Option<u64>> {
    Seq::new(
        slots.len(),
        |i: int|
            if slots[i] matches Some(t) && arith::since(now, t) <= 10_000_000_000 {
                slots[i]
            } else {
                None
            },
    )
}

/// The estimator after a packet was sent.
pub open spec fn sent(
    before: BufferEstimator,
    message_number: u8,
    points_sent: u16,
    now: u64,
    after: BufferEstimator,
) -> bool {
    &&& after.capacity == before.capacity
    &&& after.point_rate == before.point_rate
    &&& after.last_data_sent_time == Some(now)
    &&& after.last_data_sent_buffer_size == before.fullness(now) + points_sent
    &&& after.last_ack_time == before.last_ack_time
    &&& after.last_reported_buffer_fullness == before.last_reported_buffer_fullness
    &&& after.message_times.slots@ == before.message_times.slots@.update(
        message_number as int,
        Some(now),
    )
}

/// Whether the ACK of a message anchors anew what was sent.
pub open spec fn anchors(before: BufferEstimator, message_number: u8) -> bool {
    before.message_times.slots@[message_number as int] matches Some(sent) && (
    before.last_data_sent_time matches Some(t) ==> sent >= t)
}

/// The estimator after an ACK.
pub open spec fn acked(
    before: BufferEstimator,
    message_number: u8,
    free_space: u16,
    now: u64,
    after: BufferEstimator,
) -> bool {
    let reported = beyond(before.capacity as int, free_space as int) as u16;
    &&& after.capacity == before.capacity
    &&& after.point_rate == before.point_rate
    &&& after.last_ack_time == Some(now)
    &&& after.last_reported_buffer_fullness == reported
    &&& after.message_times.slots@ == fresh_times(
        before.message_times.slots@.update(message_number as int, None),
        now,
    )
    &&& after.last_data_sent_time == if anchors(before, message_number) {
        before.message_times.slots@[message_number as int]
    } else {
        before.last_data_sent_time
    }
    &&& after.last_data_sent_buffer_size == if anchors(before, message_number) {
        reported
    } else {
        before.last_data_sent_buffer_size
    }
}

/// The estimate only falls while nothing is sent or acknowledged, and never below
/// zero.
pub proof fn fullness_decays(e: BufferEstimator, earlier: u64, later: u64)
    requires
        earlier <= later,
    ensures
        0 <= e.fullness(later) <= e.fullness(earlier) <= 65535,
{
    lemma_track_decays(
        e.last_data_sent_time,
        e.last_data_sent_buffer_size,
        e.point_rate,
        earlier,
        later,
    );
    lemma_track_decays(
        e.last_ack_time,
        e.last_reported_buffer_fullness,
        e.point_rate,
        earlier,
        later,
    );
}

proof fn lemma_track_decays(time: Option<u64>, size: u16, rate: u32, earlier: u64, later: u64)
    requires
        earlier <= later,
    ensures
        0 <= track(time, size, rate, later) <= track(time, size, rate, earlier) <= size,
{
    if let Some(t) = time {
        let a = arith::since(earlier, t);
        let b = arith::since(later, t);
        assert(a * rate <= b * rate) by (nonlinear_arith)
            requires
                a <= b,
                rate >= 0,
        ;
        scheduler::lemma_played_bound(a, rate);
    }
}

/// What may be added leaves the margin free: the device does not overrun, even if the
/// margin's points are still on the way.
pub proof fn room_keeps_margin(e: BufferEstimator, now: u64)
    requires
        e.room(now) > 0,
    ensures
        e.fullness(now) + e.room(now) + 300 == e.capacity,
{
}

/// The estimate is never below what an ACK has just reported.
pub proof fn ack_is_believed(
    before: BufferEstimator,
    message_number: u8,
    free_space: u16,
    now: u64,
    after: BufferEstimator,
)
    requires
        acked(before, message_number, free_space, now, after),
    ensures
        after.fullness(now) >= before.capacity - free_space,
{
    assert(scheduler::played(0, after.point_rate) == 0);
}

/// An ACK of a message that is older than the last anchor does not move what is
/// thought to have been sent.
pub proof fn old_ack_keeps_sent_track(
    before: BufferEstimator,
    message_number: u8,
    free_space: u16,
    now: u64,
    after: BufferEstimator,
    sent: u64,
    anchor: u64,
    at: u64,
)
    requires
        acked(before, message_number, free_space, now, after),
        before.message_times.slots@[message_number as int] == Some(sent),
        before.last_data_sent_time == Some(anchor),
        sent < anchor,
    ensures
        after.by_sent(at) == before.by_sent(at),
{
}

/// The estimate is the larger of the two, never less than either.
pub proof fn fullness_is_the_larger(e: BufferEstimator, now: u64)
    ensures
        e.fullness(now) >= e.by_sent(now),
        e.fullness(now) >= e.by_acked(now),
        e.fullness(now) == e.by_sent(now) || e.fullness(now) == e.by_acked(now),
{
}

/// Either estimate falls at the playback rate: as many whole points as play since the
/// moment it holds for, as long as there are any. Without such a moment it is zero.
pub proof fn estimates_play_at_the_rate(e: BufferEstimator, sent: u64, acked: u64, now: u64)
    requires
        sent <= now,
        acked <= now,
    ensures
        e.last_data_sent_time == Some(sent) ==> {
            let played = e.last_data_sent_buffer_size - e.by_sent(now);
            let passed = (now - sent) * e.point_rate;
            &&& 0 <= played
            &&& played * 1_000_000_000 <= passed
            &&& e.by_sent(now) > 0 ==> passed < (played + 1) * 1_000_000_000
        },
        e.last_ack_time == Some(acked) ==> {
            let played = e.last_reported_buffer_fullness - e.by_acked(now);
            let passed = (now - acked) * e.point_rate;
            &&& 0 <= played
            &&& played * 1_000_000_000 <= passed
            &&& e.by_acked(now) > 0 ==> passed < (played + 1) * 1_000_000_000
        },
        e.last_data_sent_time is None ==> e.by_sent(now) == 0,
        e.last_ack_time is None ==> e.by_acked(now) == 0,
{
    scheduler::lemma_played_bound((now - sent) as u64, e.point_rate);
    scheduler::lemma_played_bound((now - acked) as u64, e.point_rate);
}

/// What is sent is added to what was there, and its message is remembered until it is
/// acknowledged; the others stay remembered.
pub proof fn sent_points_are_added(
    before: BufferEstimator,
    message_number: u8,
    points: u16,
    now: u64,
    after: BufferEstimator,
    i: int,
)
    requires
        sent(before, message_number, points, now, after),
        0 <= i < 256,
        before.fullness(now) + points <= u16::MAX,
    ensures
        after.fullness(now) == before.fullness(now) + points,
        after.message_times.slots@[message_number as int] == Some(now),
        i != message_number ==> after.message_times.slots@[i] == before.message_times.slots@[i],
        after.capacity == before.capacity,
{
    assert(scheduler::played(0, after.point_rate) == 0) by (nonlinear_arith);
    fullness_decays(before, now, now);
}

/// The acknowledgment of the newest message is believed: the device holds what it does
/// not report as free, counted from when the message was sent.
pub proof fn newest_ack_sets_the_estimate(
    before: BufferEstimator,
    message_number: u8,
    free_space: u16,
    now: u64,
    after: BufferEstimator,
    sent_at: u64,
)
    requires
        acked(before, message_number, free_space, now, after),
        before.message_times.slots@[message_number as int] == Some(sent_at),
        before.last_data_sent_time matches Some(t) ==> t <= sent_at,
        free_space <= before.capacity,
    ensures
        after.fullness(now) + free_space == before.capacity,
        after.last_data_sent_time == Some(sent_at),
        after.last_data_sent_buffer_size + free_space == before.capacity,
        after.last_reported_buffer_fullness + free_space == before.capacity,
        after.last_ack_time == Some(now),
        after.message_times.slots@[message_number as int] is None,
{
    assert(scheduler::played(0, after.point_rate) == 0) by (nonlinear_arith);
    scheduler::lemma_played_bound(arith::since(now, sent_at), after.point_rate);
}

/// An acknowledgment forgets its own message and those that were sent more than ten
/// seconds ago, and no other.
pub proof fn only_old_messages_are_forgotten(
    before: BufferEstimator,
    message_number: u8,
    free_space: u16,
    now: u64,
    after: BufferEstimator,
    i: int,
    t: u64,
)
    requires
        acked(before, message_number, free_space, now, after),
        0 <= i < 256,
        i != message_number,
        before.message_times.slots@[i] == Some(t),
        t <= now,
    ensures
        now - t <= 10_000_000_000 ==> after.message_times.slots@[i] == Some(t),
        now - t > 10_000_000_000 ==> after.message_times.slots@[i] is None,
{
}

/// There is room to send a packet just when its points and the margin fit beside what is
/// thought to be in the device.
pub proof fn packets_fit_before_they_are_sent()
    ensures
        forall|e: &BufferEstimator, now: u64, r: bool|
            #[trigger] call_ensures(BufferEstimator::can_send, (e, now), r) ==> (r <==> e.fullness(now)
                + 140 + 300 <= e.capacity),
        forall|e: &BufferEstimator, now: u64, r: u16|
            #[trigger] call_ensures(BufferEstimator::max_points_to_add, (e, now), r) ==> {
                &&& e.fullness(now) + 300 <= e.capacity ==> e.fullness(now) + r + 300 == e.capacity
                &&& e.fullness(now) + 300 > e.capacity ==> r == 0
            },
{
}

/// A message that is known is counted once, and no other is.
pub proof fn known_messages_are_counted(slots: Seq<Option<u64>>, slot: Option<u64>)
    ensures
        known(Seq::<Option<u64>>::empty()) == 0,
        slot is Some ==> known(slots.push(slot)) == known(slots) + 1,
        slot is None ==> known(slots.push(slot)) == known(slots),
{
    assert(slots.push(slot).drop_last() =~= slots);
}

/// The calls of the estimator act on what it holds. A new or a reset one knows of nothing
/// sent; what is asked of it is the estimate for the moment that is given.
pub proof fn estimator_acts_on_what_it_holds()
    ensures
        forall|e: &mut BufferEstimator, number: u8, points: u16, now: u64| #[trigger]
            call_ensures(BufferEstimator::record_send, (e, number, points, now), ()) && e.fullness(
                now,
            ) + points <= u16::MAX ==> {
                &&& sent(*e, number, points, now, *final(e))
                &&& final(e).fullness(now) == e.fullness(now) + points
                &&& final(e).message_times.slots@[number as int] == Some(now)
                &&& final(e).last_data_sent_time == Some(now)
                &&& final(e).capacity == e.capacity
                &&& final(e).point_rate == e.point_rate
            },
        forall|e: &mut BufferEstimator, number: u8, free: u16, now: u64| #[trigger]
            call_ensures(BufferEstimator::record_ack, (e, number, free, now), ()) ==> acked(
                *e,
                number,
                free,
                now,
                *final(e),
            ) && final(e).last_ack_time == Some(now) && final(e).capacity == e.capacity,
        forall|e: &BufferEstimator, now: u64, r: u16| #[trigger]
            call_ensures(BufferEstimator::estimated_buffer_fullness, (e, now), r) ==> r
                == e.fullness(now),
        forall|e: &mut BufferEstimator, rate: u32| #[trigger]
            call_ensures(BufferEstimator::set_point_rate, (e, rate), ()) ==> final(e).point_rate
                == rate && final(e).capacity == e.capacity && final(e).last_data_sent_time
                == e.last_data_sent_time && final(e).last_ack_time == e.last_ack_time,
        forall|e: &mut BufferEstimator| #[trigger]
            call_ensures(BufferEstimator::reset, (e,), ()) ==> final(e).last_data_sent_time is None
                && final(e).last_ack_time is None && final(e).capacity == e.capacity && final(e).point_rate == e.point_rate,
        forall|capacity: u16, rate: u32, e: BufferEstimator| #[trigger]
            call_ensures(BufferEstimator::new, (capacity, rate), e) ==> e.capacity == capacity
                && e.point_rate == rate && e.last_data_sent_time is None && e.last_ack_time is None,
        forall|m: &MessageTimes, number: &u8, r: bool| #[trigger]
            call_ensures(MessageTimes::contains_key, (m, number), r) ==> (r
                <==> m.slots@[*number as int] is Some),
{
}

/// Sending moves only what is thought to have been sent: what the device has told stands
/// as it was, and so do its size and its rate.
pub proof fn sending_leaves_what_was_told(
    before: BufferEstimator,
    message_number: u8,
    points: u16,
    now: u64,
    after: BufferEstimator,
    at: u64,
)
    requires
        sent(before, message_number, points, now, after),
    ensures
        after.by_acked(at) == before.by_acked(at),
        after.last_ack_time == before.last_ack_time,
        after.last_reported_buffer_fullness == before.last_reported_buffer_fullness,
        after.last_data_sent_time == Some(now),
        after.capacity == before.capacity,
        after.point_rate == before.point_rate,
{
}

} // verus!
