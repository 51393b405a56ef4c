//! How full a device is that does not tell.

use vstd::prelude::*;

use crate::scheduler::{self, advance_scheduled_ahead};

verus! {

/// An estimate from what was sent and how fast it plays. Moments are in nanoseconds
/// of one clock.
#[derive(Clone, Copy, Debug, PartialEq, Eq, Structural)]
pub struct SoftwareDecayEstimator {
    /// Points that had not been played at `last`.
    pub scheduled: u64,
    /// The part of a point that had been played, in thousand-millionths.
    pub fraction: u64,
    pub last: u64,
    pub pps: u32,
}

impl SoftwareDecayEstimator {
    pub open spec fn wf(self) -> bool {
        self.fraction < 1_000_000_000
    }

    /// What has been played by `now`, in thousand-millionths of a point.
    pub open spec fn played_at(self, now: u64) -> int {
        let elapsed = if now >= self.last {
            (now - self.last) as u64
        } else {
            0
        };
        scheduler::played(elapsed, self.pps) + self.fraction
    }

    /// The estimate moved on to `now`.
    pub open spec fn at(self, now: u64) -> SoftwareDecayEstimator {
        let points = self.played_at(now) / 1_000_000_000;
        SoftwareDecayEstimator {
            scheduled: if points <= self.scheduled {
                (self.scheduled - points) as u64
            } else {
                0
            },
            fraction: (self.played_at(now) % 1_000_000_000) as u64,
            last: now,
            pps: self.pps,
        }
    }

    /// The estimate after `n` points were sent, to be played at `pps`.
    pub open spec fn after_send(self, now: u64, n: u64, pps: u32) -> SoftwareDecayEstimator {
        SoftwareDecayEstimator { scheduled: (self.at(now).scheduled + n) as u64, pps, ..self.at(now) }
    }

    pub fn new(now: u64) -> (r: SoftwareDecayEstimator)
        ensures
            r.wf(),
            r == (SoftwareDecayEstimator { scheduled: 0, fraction: 0, last: now, pps: 0 }),
    {
        SoftwareDecayEstimator { scheduled: 0, fraction: 0, last: now, pps: 0 }
    }

    fn advance(&mut self, now: u64)
        requires
            old(self).wf(),
        ensures
            final(self).wf(),
            *final(self) == old(self).at(now),
    {
        let mut scheduled: u64 = self.scheduled;
        let mut fraction: u64 = self.fraction;
        let mut last: u64 = self.last;
        advance_scheduled_ahead(&mut scheduled, &mut fraction, &mut last, now, self.pps);
        self.scheduled = scheduled;
        self.fraction = fraction;
        self.last = last;
    }

    pub fn record_send(&mut self, now: u64, n: u64, pps: u32)
        requires
            old(self).wf(),
            old(self).scheduled + n <= u64::MAX,
        ensures
            final(self).wf(),
            *final(self) == old(self).after_send(now, n, pps),
    {
        proof {
            let elapsed = if now >= self.last {
                (now - self.last) as u64
            } else {
                0
            };
            scheduler::lemma_played_bound(elapsed, self.pps);
        }
        self.advance(now);
        self.scheduled = self.scheduled + n;
        self.pps = pps;
    }

    pub fn reset(&mut self, now: u64)
        ensures
            final(self).wf(),
            *final(self) == (SoftwareDecayEstimator {
                scheduled: 0,
                fraction: 0,
                last: now,
                ..*old(self)
            }),
    {
        self.scheduled = 0;
        self.fraction = 0;
        self.last = now;
    }

    /// The points that wait in the device by now.
    pub fn estimated_fullness(&self, now: u64) -> (r: u64)
        requires
            self.wf(),
        ensures
            r == self.at(now).scheduled,
    {
        let mut then: SoftwareDecayEstimator = *self;
        then.advance(now);
        then.scheduled
    }
}

/// Nothing is lost: what has been played, to a part of a point, is what the rate gives for
/// the time that passed, as long as there is something to play.
pub proof fn playing_takes_what_the_rate_gives(e: SoftwareDecayEstimator, now: u64)
    requires
        e.wf(),
        now >= e.last,
    ensures
        ({
            let after = e.at(now);
            let given = (now - e.last) * e.pps + e.fraction;
            &&& after.wf()
            &&& after.last == now
            &&& after.pps == e.pps
            &&& after.scheduled <= e.scheduled
            &&& after.scheduled > 0 ==> (e.scheduled - after.scheduled) * 1_000_000_000
                + after.fraction == given
            &&& given >= (e.scheduled + 1) * 1_000_000_000 ==> after.scheduled == 0
        }),
{
    scheduler::lemma_played_bound((now - e.last) as u64, e.pps);
}

/// Points that are sent are added to what is still there, and play from then on at the
/// rate they were sent with.
pub proof fn sent_points_wait(e: SoftwareDecayEstimator, now: u64, n: u64, pps: u32)
    requires
        e.wf(),
        e.scheduled + n <= u64::MAX,
    ensures
        e.after_send(now, n, pps).scheduled == e.at(now).scheduled + n,
        e.after_send(now, n, pps).at(now).scheduled == e.at(now).scheduled + n,
        e.after_send(now, n, pps).last == now,
        e.after_send(now, n, pps).pps == pps,
{
    scheduler::lemma_played_bound(0, pps);
    assert(scheduler::played(0, pps) == 0) by (nonlinear_arith);
    let elapsed = if now >= e.last {
        (now - e.last) as u64
    } else {
        0
    };
    scheduler::lemma_played_bound(elapsed, e.pps);
}

/// Looking in between changes nothing.
pub proof fn looking_changes_nothing(e: SoftwareDecayEstimator, between: u64, now: u64)
    requires
        e.wf(),
        e.last <= between <= now,
    ensures
        e.at(between).at(now) == e.at(now),
{
    let first = (between - e.last) as u64;
    let second = (now - between) as u64;
    scheduler::lemma_played_bound(first, e.pps);
    scheduler::lemma_played_bound(second, e.pps);
    scheduler::rests_add_up(first, second, e.pps, e.fraction as int);
}

/// The calls of the estimate act on what it holds: a reset leaves nothing waiting, and
/// what is asked is what waits at that moment.
pub proof fn estimate_acts_on_what_it_holds()
    ensures
        forall|e: &mut SoftwareDecayEstimator, now: u64, n: u64, pps: u32| #[trigger]
            call_ensures(SoftwareDecayEstimator::record_send, (e, now, n, pps), ()) && e.wf()
                && e.scheduled + n <= u64::MAX ==> {
                &&& *final(e) == e.after_send(now, n, pps)
                &&& n <= final(e).scheduled <= e.scheduled + n
                &&& final(e).last == now
                &&& final(e).pps == pps
            },
        forall|e: &mut SoftwareDecayEstimator, now: u64| #[trigger]
            call_ensures(SoftwareDecayEstimator::reset, (e, now), ()) ==> final(e).scheduled == 0
                && final(e).fraction == 0 && final(e).last == now && final(e).pps == e.pps,
        forall|e: &SoftwareDecayEstimator, now: u64, r: u64| #[trigger]
            call_ensures(SoftwareDecayEstimator::estimated_fullness, (e, now), r) && e.wf() ==> r
                == e.at(now).scheduled && r <= e.scheduled,
        forall|now: u64, e: SoftwareDecayEstimator| #[trigger]
            call_ensures(SoftwareDecayEstimator::new, (now,), e) ==> e.scheduled == 0 && e.last
                == now,
{
}

} // verus!
