//! Oscilloscope streaming backend.

use crossbeam_queue::ArrayQueue;

use vstd::prelude::*;

use crate::arith;
use crate::device::{DacCapabilities, DacType};
use crate::error::Error;
use crate::protocols::oscilloscope::queue;
use crate::protocols::oscilloscope::{self, buffer_capacity, capabilities};
use crate::resample::{self, StreamingResampler, Taps};

verus! {

/// State between the producer (backend) and the consumer (audio callback).
pub struct RuntimeState {
    /// Queue of stereo sample pairs.
    pub queue: ArrayQueue<(u32, u32)>,
    /// Whether the shutter is closed (muted).
    pub muted: bool,
    /// Whether the audio stream is alive.
    pub connected: bool,
    /// Device output sample rate in Hz.
    pub sample_rate: u32,
    /// Last emitted output sample. Held on underrun so the beam stays put instead of
    /// snapping to the screen centre, and ramped toward centre while muted.
    pub last: (u32, u32),
}

/// What the audio callback plays next.
#[derive(Clone, Copy, Debug, PartialEq, Eq)]
pub enum NextOutput {
    /// This sample.
    Sample((u32, u32)),
    /// One step from this sample toward the centre; what it comes to is handed to
    /// [`RuntimeState::set_last_output`].
    RampFrom((u32, u32)),
}

impl RuntimeState {
    /// The queue holds no more than it may.
    pub open spec fn wf(self) -> bool {
        queue::contents(self.queue).len() <= queue::limit(self.queue)
    }

    /// How many samples the queue still takes.
    pub open spec fn room(self) -> int {
        queue::limit(self.queue) - queue::contents(self.queue).len()
    }

    /// A muted state with an empty queue. The bound on the capacity is what a queue
    /// can be allocated for on every machine.
    pub fn new(capacity: usize, sample_rate: u32) -> (r: RuntimeState)
        requires
            0 < capacity <= 0x0400_0000,
        ensures
            r.wf(),
            queue::contents(r.queue) == Seq::<(u32, u32)>::empty(),
            queue::limit(r.queue) == capacity,
            r.muted,
            !r.connected,
            r.sample_rate == sample_rate,
            r.last == (0u32, 0u32),
    {
        RuntimeState {
            queue: queue::new_queue(capacity),
            muted: true,
            connected: false,
            sample_rate,
            last: (0, 0),
        }
    }

    pub fn remaining_capacity(&self) -> (r: usize)
        requires
            self.wf(),
        ensures
            r == self.room(),
    {
        queue::capacity(&self.queue).saturating_sub(queue::len(&self.queue))
    }

    pub fn has_capacity_for(&self, count: usize) -> (r: bool)
        requires
            self.wf(),
        ensures
            r == (count <= self.room()),
    {
        count == 0 || self.remaining_capacity() >= count
    }

    pub fn queued_points(&self) -> (r: u64)
        ensures
            r == queue::contents(self.queue).len(),
    {
        queue::len(&self.queue) as u64
    }

    /// Append a sample if there is room for it.
    pub fn push(&mut self, sample: (u32, u32)) -> (r: bool)
        requires
            old(self).wf(),
        ensures
            final(self).wf(),
            r == (old(self).room() > 0),
            queue::limit(final(self).queue) == queue::limit(old(self).queue),
            queue::contents(final(self).queue) == if r {
                queue::contents(old(self).queue).push(sample)
            } else {
                queue::contents(old(self).queue)
            },
            final(self).muted == old(self).muted,
            final(self).connected == old(self).connected,
            final(self).sample_rate == old(self).sample_rate,
            final(self).last == old(self).last,
    {
        match queue::push(&mut self.queue, sample) {
            Ok(()) => true,
            Err(_) => false,
        }
    }

    pub fn clear_queue(&mut self)
        ensures
            final(self).wf(),
            queue::contents(final(self).queue) == Seq::<(u32, u32)>::empty(),
            queue::limit(final(self).queue) == queue::limit(old(self).queue),
            final(self).muted == old(self).muted,
            final(self).connected == old(self).connected,
            final(self).sample_rate == old(self).sample_rate,
            final(self).last == old(self).last,
    {
        let ghost before = *self;
        loop
            invariant
                queue::limit(self.queue) == queue::limit(before.queue),
                self.muted == before.muted,
                self.connected == before.connected,
                self.sample_rate == before.sample_rate,
                self.last == before.last,
            ensures
                queue::contents(self.queue).len() == 0,
            decreases queue::contents(self.queue).len(),
        {
            if queue::pop(&mut self.queue).is_none() {
                break;
            }
        }
        assert(queue::contents(self.queue) =~= Seq::<(u32, u32)>::empty());
    }

    pub fn last_output(&self) -> (r: (u32, u32))
        ensures
            r == self.last,
    {
        self.last
    }

    pub fn set_last_output(&mut self, sample: (u32, u32))
        ensures
            final(self).last == sample,
            final(self).queue == old(self).queue,
            final(self).muted == old(self).muted,
            final(self).connected == old(self).connected,
            final(self).sample_rate == old(self).sample_rate,
    {
        self.last = sample;
    }

    /// What is played next.
    pub open spec fn next(self) -> NextOutput {
        if self.muted {
            NextOutput::RampFrom(self.last)
        } else if queue::contents(self.queue).len() > 0 {
            NextOutput::Sample(queue::contents(self.queue)[0])
        } else {
            NextOutput::Sample(self.last)
        }
    }

    /// The next output sample.
    ///
    /// - Unmuted with a queued sample: pass it through.
    /// - Unmuted underrun (empty queue): hold the last output, no centre spike.
    /// - Muted: ramp the held value toward screen centre over a few ms,
    ///   so muting glides rather than stepping. The queue is still drained so
    ///   the producer never stalls.
    pub fn next_output(&mut self) -> (r: NextOutput)
        requires
            old(self).wf(),
        ensures
            final(self).wf(),
            r == old(self).next(),
            queue::limit(final(self).queue) == queue::limit(old(self).queue),
            queue::contents(final(self).queue) == if queue::contents(old(self).queue).len() > 0 {
                queue::contents(old(self).queue).skip(1)
            } else {
                queue::contents(old(self).queue)
            },
            final(self).last == match r {
                NextOutput::Sample(sample) => sample,
                NextOutput::RampFrom(_) => old(self).last,
            },
            final(self).muted == old(self).muted,
            final(self).connected == old(self).connected,
            final(self).sample_rate == old(self).sample_rate,
    {
        let queued: Option<(u32, u32)> = queue::pop(&mut self.queue);
        if self.muted {
            return NextOutput::RampFrom(self.last);
        }
        if let Some(sample) = queued {
            self.last = sample;
        }
        NextOutput::Sample(self.last)
    }

    /// The points that wait for output, as many as last as long at `pps` as the
    /// queued samples do.
    pub fn estimated_fullness(&self, pps: u32) -> (r: u64)
        requires
            self.wf(),
            self.sample_rate > 0,
        ensures
            r == arith::least(
                queue::contents(self.queue).len() * pps / self.sample_rate as int,
                u64::MAX as int,
            ),
    {
        let queued: u64 = self.queued_points();
        assert(0 <= queued * pps <= 0xffff_ffff_ffff_ffff * 0xffff_ffff) by (nonlinear_arith)
            requires
                0 <= queued <= 0xffff_ffff_ffff_ffff,
                0 <= pps <= 0xffff_ffff,
        ;
        let points: u128 = queued as u128 * pps as u128 / self.sample_rate as u128;
        if points <= u64::MAX as u128 {
            points as u64
        } else {
            u64::MAX
        }
    }
}

/// What becomes of points that are offered.
#[derive(Debug)]
pub enum WriteStep {
    /// There are none; nothing is left to do.
    Written,
    /// The queue has no room for what they come to.
    WouldBlock,
    /// The samples that they come to, to be evaluated and handed to
    /// [`OscilloscopeBackend::finish_write`].
    Resampled(Vec<Taps<(u32, u32)>>),
}

/// Oscilloscope XY mode backend via audio output.
pub struct OscilloscopeBackend {
    /// Device name for connection.
    pub device_name: String,
    pub sample_rate: u32,
    pub caps: DacCapabilities,
    /// Created fresh on each connect.
    pub runtime: Option<RuntimeState>,
    /// Stateful PPS to sample-rate resampler carrying phase across write chunks.
    /// Reset on connect/stop/disconnect; re-phased on PPS change.
    pub resampler: StreamingResampler<(u32, u32)>,
}

impl OscilloscopeBackend {
    pub open spec fn wf(self) -> bool {
        &&& self.resampler.wf()
        &&& self.runtime matches Some(rt) ==> rt.wf()
    }

    /// Whether the audio stream is alive.
    pub open spec fn is_live(self) -> bool {
        self.runtime matches Some(rt) && rt.connected
    }

    /// Create a new oscilloscope backend for the given audio device.
    pub fn new(device_name: String, sample_rate: u32) -> (r: OscilloscopeBackend)
        ensures
            r.wf(),
            r.device_name == device_name,
            r.sample_rate == sample_rate,
            r.caps.pps_min == 1,
            r.caps.pps_max == 100_000,
            r.caps.max_points_per_chunk == oscilloscope::capacity_at(sample_rate),
            r.caps.output_model is NetworkFifo,
            r.runtime is None,
            r.resampler.history@ == Seq::<(u32, u32)>::empty(),
    {
        OscilloscopeBackend {
            device_name,
            sample_rate,
            caps: capabilities(sample_rate),
            runtime: None,
            resampler: StreamingResampler::new(1, 1),
        }
    }

    pub fn dac_type(&self) -> (r: DacType)
        ensures
            r is Oscilloscope,
    {
        DacType::Oscilloscope
    }

    pub fn caps(&self) -> (r: &DacCapabilities)
        ensures
            *r == self.caps,
    {
        &self.caps
    }

    pub fn is_connected(&self) -> (r: bool)
        ensures
            r == self.is_live(),
    {
        match &self.runtime {
            Some(rt) => rt.connected,
            None => false,
        }
    }

    /// Start a connection: an empty queue and a fresh resample phase. A backend that
    /// is connected stays as it is.
    pub fn connect(&mut self)
        requires
            old(self).wf(),
            oscilloscope::capacity_at(old(self).sample_rate) <= 0x0400_0000,
        ensures
            final(self).wf(),
            old(self).is_live() ==> *final(self) == *old(self),
            !old(self).is_live() ==> {
                &&& final(self).runtime matches Some(rt)
                &&& queue::contents(rt.queue) == Seq::<(u32, u32)>::empty()
                &&& queue::limit(rt.queue) == oscilloscope::capacity_at(old(self).sample_rate)
                &&& rt.muted
                &&& !rt.connected
                &&& rt.sample_rate == old(self).sample_rate
                &&& final(self).resampler.history@ == Seq::<(u32, u32)>::empty()
                &&& final(self).resampler.from_rate == old(self).resampler.from_rate
                &&& final(self).resampler.to_rate == old(self).resampler.to_rate
                &&& final(self).sample_rate == old(self).sample_rate
                &&& final(self).caps == old(self).caps
                &&& final(self).device_name == old(self).device_name
            },
    {
        if self.is_connected() {
            return;
        }
        self.runtime = Some(
            RuntimeState::new(buffer_capacity(self.sample_rate), self.sample_rate),
        );
        self.resampler.reset();
    }

    pub fn disconnect(&mut self)
        requires
            old(self).wf(),
        ensures
            final(self).wf(),
            final(self).runtime is None,
            final(self).resampler.history@ == Seq::<(u32, u32)>::empty(),
            final(self).resampler.from_rate == old(self).resampler.from_rate,
            final(self).resampler.to_rate == old(self).resampler.to_rate,
            final(self).sample_rate == old(self).sample_rate,
            final(self).caps == old(self).caps,
            final(self).device_name == old(self).device_name,
    {
        self.runtime = None;
        self.resampler.reset();
    }

    /// Mute, and drop the carried resample phase so output resumes cleanly on re-arm.
    pub fn stop(&mut self)
        requires
            old(self).wf(),
        ensures
            final(self).wf(),
            final(self).runtime == match old(self).runtime {
                Some(rt) => Some(RuntimeState { muted: true, ..rt }),
                None => None,
            },
            final(self).resampler.history@ == Seq::<(u32, u32)>::empty(),
            final(self).resampler.from_rate == old(self).resampler.from_rate,
            final(self).resampler.to_rate == old(self).resampler.to_rate,
            final(self).sample_rate == old(self).sample_rate,
            final(self).caps == old(self).caps,
            final(self).device_name == old(self).device_name,
    {
        self.set_shutter(false);
        self.resampler.reset();
    }

    pub fn set_shutter(&mut self, open: bool)
        ensures
            *final(self) == (OscilloscopeBackend {
                runtime: match old(self).runtime {
                    Some(rt) => Some(RuntimeState { muted: !open, ..rt }),
                    None => None,
                },
                ..*old(self)
            }),
    {
        match self.runtime.take() {
            Some(rt) => {
                let mut rt = rt;
                rt.muted = !open;
                self.runtime = Some(rt);
            },
            None => {},
        }
    }

    /// Offer points, as samples of both channels. They are resampled if the queue has
    /// room for all that they come to; otherwise nothing but the rate changes. A rate
    /// of zero counts as one.
    pub fn begin_write(&mut self, pps: u32, points: &[(u32, u32)]) -> (r: Result<WriteStep, Error>)
        requires
            old(self).wf(),
            old(self).is_live() && points@.len() > 0 ==> fits(
                *old(self),
                pps,
                points@.len() as int,
            ),
        ensures
            final(self).wf(),
            final(self).runtime == old(self).runtime,
            final(self).sample_rate == old(self).sample_rate,
            final(self).caps == old(self).caps,
            final(self).device_name == old(self).device_name,
            !old(self).is_live() ==> final(self).resampler == old(self).resampler && (r matches Err(
                Error::Disconnected(m),
            ) && m@ == "Not connected"@),
            old(self).is_live() ==> (r matches Ok(step) && {
                let rates = (rate_of(pps), old(self).sample_rate);
                let heard = heard_at(*old(self), pps);
                let before = resample::emittable(heard.len() as int, rates.0, rates.1);
                let total = resample::emittable(
                    (heard.len() + points@.len()) as int,
                    rates.0,
                    rates.1,
                );
                &&& points@.len() == 0 ==> step is Written && final(self).resampler
                    == old(self).resampler
                &&& points@.len() > 0 ==> final(self).resampler.from_rate == rates.0
                    && final(self).resampler.to_rate == rates.1
                &&& points@.len() > 0 && total - before > old(self).runtime->0.room() ==> step
                    is WouldBlock && final(self).resampler.history@ == heard
                &&& points@.len() > 0 && total - before <= old(self).runtime->0.room() ==> {
                    &&& step matches WriteStep::Resampled(out)
                    &&& final(self).resampler.history@ == heard + points@
                    &&& out@.len() == total - before
                    &&& forall|k: int|
                        0 <= k < out@.len() ==> #[trigger] out@[k] == resample::taps_at(
                            heard + points@,
                            before + k,
                            rates.0,
                            rates.1,
                        )
                }
            }),
    {
        let room: usize = match &self.runtime {
            Some(rt) => {
                if !rt.connected {
                    return Err(Error::disconnected("Not connected"));
                }
                rt.remaining_capacity()
            },
            None => return Err(Error::disconnected("Not connected")),
        };
        if points.len() == 0 {
            return Ok(WriteStep::Written);
        }
        let rate: u32 = if pps >= 1 {
            pps
        } else {
            1
        };
        self.resampler.set_rates(rate, self.sample_rate);
        assert(self.resampler.history@ =~= heard_at(*old(self), pps));
        let output_len: usize = self.resampler.pending_output_count(points.len());
        if output_len != 0 && room < output_len {
            return Ok(WriteStep::WouldBlock);
        }
        Ok(WriteStep::Resampled(self.resampler.process(points)))
    }

    /// Queue the samples that the points came to.
    pub fn finish_write(&mut self, samples: &[(u32, u32)])
        requires
            old(self).wf(),
            old(self).runtime is Some,
            samples@.len() <= old(self).runtime->0.room(),
        ensures
            final(self).wf(),
            final(self).resampler == old(self).resampler,
            final(self).sample_rate == old(self).sample_rate,
            final(self).caps == old(self).caps,
            final(self).device_name == old(self).device_name,
            final(self).runtime matches Some(rt) && {
                let before = old(self).runtime->0;
                &&& queue::contents(rt.queue) == queue::contents(before.queue) + samples@
                &&& queue::limit(rt.queue) == queue::limit(before.queue)
                &&& rt.muted == before.muted
                &&& rt.connected == before.connected
                &&& rt.sample_rate == before.sample_rate
                &&& rt.last == before.last
            },
    {
        match self.runtime.take() {
            Some(rt) => {
                let mut rt = rt;
                let ghost before = rt;
                let mut i: usize = 0;
                assert(queue::contents(before.queue) + samples@.take(0) =~= queue::contents(
                    before.queue,
                ));
                while i < samples.len()
                    invariant
                        i <= samples@.len(),
                        samples@.len() <= before.room(),
                        rt.wf(),
                        queue::contents(rt.queue) == queue::contents(before.queue) + samples@.take(
                            i as int,
                        ),
                        queue::limit(rt.queue) == queue::limit(before.queue),
                        rt.muted == before.muted,
                        rt.connected == before.connected,
                        rt.sample_rate == before.sample_rate,
                        rt.last == before.last,
                    decreases samples.len() - i,
                {
                    let _ = rt.push(samples[i]);
                    i += 1;
                    assert(queue::contents(rt.queue) =~= queue::contents(before.queue)
                        + samples@.take(i as int));
                }
                assert(samples@.take(i as int) =~= samples@);
                self.runtime = Some(rt);
            },
            None => {},
        }
    }
}

/// The rate that points come at.
pub open spec fn rate_of(pps: u32) -> u32 {
    if pps >= 1 {
        pps
    } else {
        1
    }
}

/// What the resampler has heard that still counts: nothing, where the rate changes.
pub open spec fn heard_at(b: OscilloscopeBackend, pps: u32) -> Seq<(u32, u32)> {
    if b.resampler.from_rate == rate_of(pps) && b.resampler.to_rate == b.sample_rate {
        b.resampler.history@
    } else {
        Seq::empty()
    }
}

/// The device plays at some rate, and the counters have room for so many more points.
pub open spec fn fits(b: OscilloscopeBackend, pps: u32, n: int) -> bool {
    let heard = heard_at(b, pps).len();
    let before = resample::emittable(heard as int, rate_of(pps), b.sample_rate);
    let after = resample::emittable(heard + n, rate_of(pps), b.sample_rate);
    &&& b.sample_rate > 0
    &&& resample::countable(heard + n, rate_of(pps), b.sample_rate)
    &&& after - before <= usize::MAX
}

/// Whatever is muted stays muted: no sample of the queue is played, and the queue is
/// drained all the same.
pub proof fn muted_output_is_ramped(before: RuntimeState)
    requires
        before.muted,
    ensures
        before.next() == NextOutput::RampFrom(before.last),
{
}

/// On an underrun the beam holds its position.
pub proof fn underrun_holds_position(before: RuntimeState)
    requires
        !before.muted,
        queue::contents(before.queue).len() == 0,
    ensures
        before.next() == NextOutput::Sample(before.last),
{
}

/// Samples are played in the order they were queued, each once: the oldest is taken,
/// whether or not it is heard. What is heard is what is held then.
pub proof fn samples_are_played_in_order()
    ensures
        forall|s: &mut RuntimeState, r: NextOutput|
            #[trigger] call_ensures(RuntimeState::next_output, (s,), r) ==> {
                let queued = queue::contents(s.queue);
                let left = queue::contents(final(s).queue);
                &&& queued.len() > 0 ==> left =~= queued.drop_first()
                &&& queued.len() == 0 ==> left.len() == 0
                &&& s.muted ==> r == NextOutput::RampFrom(s.last) && final(s).last == s.last
                &&& !s.muted && queued.len() > 0 ==> r == NextOutput::Sample(queued[0])
                    && final(s).last == queued[0]
                &&& !s.muted && queued.len() == 0 ==> r == NextOutput::Sample(s.last)
                    && final(s).last == s.last
                &&& final(s).muted == s.muted
            },
{
}

/// A sample is queued behind the others while there is room, and else not at all.
pub proof fn samples_queue_while_there_is_room()
    ensures
        forall|s: &mut RuntimeState, sample: (u32, u32), r: bool|
            #[trigger] call_ensures(RuntimeState::push, (s, sample), r) ==> {
                let queued = queue::contents(s.queue);
                &&& r <==> queued.len() < queue::limit(s.queue)
                &&& r ==> queue::contents(final(s).queue) =~= queued + seq![sample]
                &&& !r ==> queue::contents(final(s).queue) == queued
            },
        forall|s: &RuntimeState, count: usize, r: bool|
            #[trigger] call_ensures(RuntimeState::has_capacity_for, (s, count), r) && s.wf() ==> (r
                <==> queue::contents(s.queue).len() + count <= queue::limit(s.queue)),
{
}

/// The samples that wait count as so many points as last as long at the points' rate, of
/// which only whole ones count.
pub proof fn waiting_samples_count_as_points()
    ensures
        forall|s: &RuntimeState, pps: u32, r: u64|
            #[trigger] call_ensures(RuntimeState::estimated_fullness, (s, pps), r) && s.sample_rate > 0
                && r < u64::MAX ==> {
                let samples = queue::contents(s.queue).len();
                &&& r * s.sample_rate <= samples * pps
                &&& samples * pps < (r + 1) * s.sample_rate
            },
{
    assert forall|s: &RuntimeState, pps: u32, r: u64|
        #[trigger] call_ensures(RuntimeState::estimated_fullness, (s, pps), r) && s.sample_rate > 0 && r
            < u64::MAX implies r * s.sample_rate <= queue::contents(s.queue).len() * pps
        && queue::contents(s.queue).len() * pps < (r + 1) * s.sample_rate by {
        let n = queue::contents(s.queue).len() * pps;
        let d = s.sample_rate as int;
        assert(r == n / d);
        assert(r * d <= n < (r + 1) * d) by (nonlinear_arith)
            requires
                r == n / d,
                d > 0,
        ;
    }
}

/// Closing the shutter mutes, opening it unmutes, and stopping mutes and forgets what was
/// heard; what waits stays queued.
pub proof fn shutter_mutes()
    ensures
        forall|b: &mut OscilloscopeBackend, open: bool|
            #[trigger] call_ensures(OscilloscopeBackend::set_shutter, (b, open), ()) ==> {
                &&& final(b).runtime is Some <==> b.runtime is Some
                &&& b.runtime matches Some(rt) ==> final(b).runtime->0.muted == !open && final(b).runtime->0.queue == rt.queue && final(b).runtime->0.connected == rt.connected
                &&& final(b).resampler == b.resampler
            },
        forall|b: &mut OscilloscopeBackend|
            #[trigger] call_ensures(OscilloscopeBackend::stop, (b,), ()) ==> {
                &&& b.runtime matches Some(rt) ==> final(b).runtime->0.muted && final(b).runtime->0.queue == rt.queue
                &&& final(b).resampler.history@.len() == 0
            },
{
}

/// Points are taken whole or not at all: either all samples that they come to fit and
/// nothing is left out, or nothing is heard of them.
pub proof fn points_are_taken_whole_or_not()
    ensures
        forall|b: &mut OscilloscopeBackend, pps: u32, points: &[(u32, u32)], r: Result<WriteStep, Error>|
            #[trigger] call_ensures(OscilloscopeBackend::begin_write, (b, pps, points), r) ==> {
                &&& r is Err <==> !(b.runtime is Some && b.runtime->0.connected)
                &&& r is Ok && points@.len() > 0 ==> {
                    let heard = final(b).resampler.history@;
                    &&& r->Ok_0 is Resampled || r->Ok_0 is WouldBlock
                    &&& r->Ok_0 matches WriteStep::Resampled(out) ==> {
                        &&& out@.len() <= b.runtime->0.room()
                        &&& heard.len() >= points@.len()
                        &&& heard.skip(heard.len() - points@.len()) =~= points@
                    }
                    &&& final(b).resampler.from_rate == if pps == 0 { 1 } else { pps }
                    &&& final(b).resampler.to_rate == b.sample_rate
                    &&& pps > 0 && r->Ok_0 is WouldBlock && b.resampler.from_rate == pps && b.resampler.to_rate
                        == b.sample_rate ==> heard == b.resampler.history@
                }
                &&& final(b).runtime == b.runtime
            },
        forall|b: &mut OscilloscopeBackend, samples: &[(u32, u32)]|
            #[trigger] call_ensures(OscilloscopeBackend::finish_write, (b, samples), ()) ==> (final(b).runtime is Some && queue::contents(final(b).runtime->0.queue) == queue::contents(
                b.runtime->0.queue,
            ) + samples@),
{
    assert forall|b: &mut OscilloscopeBackend, pps: u32, points: &[(u32, u32)], r: Result<WriteStep, Error>|
        #[trigger] call_ensures(OscilloscopeBackend::begin_write, (b, pps, points), r) && r is Ok
            && points@.len() > 0 && r->Ok_0 is Resampled implies ({
        let heard = final(b).resampler.history@;
        heard.skip(heard.len() - points@.len()) =~= points@
    }) by {
        let heard = final(b).resampler.history@;
        assert(heard == heard_at(*b, pps) + points@);
    }
}

/// A connection starts with an empty queue, muted; one that stands is left alone. What is
/// left unplayed is gone with the connection.
pub proof fn connection_starts_empty()
    ensures
        forall|b: &mut OscilloscopeBackend| #[trigger]
            call_ensures(OscilloscopeBackend::connect, (b,), ()) && b.wf()
                && oscilloscope::capacity_at(b.sample_rate) <= 0x0400_0000 ==> {
                &&& b.is_live() ==> *final(b) == *b
                &&& !b.is_live() ==> {
                    &&& final(b).runtime is Some
                    &&& queue::contents(final(b).runtime->0.queue).len() == 0
                    &&& queue::limit(final(b).runtime->0.queue) == oscilloscope::capacity_at(
                        b.sample_rate,
                    )
                    &&& final(b).runtime->0.muted
                    &&& final(b).runtime->0.sample_rate == b.sample_rate
                    &&& final(b).resampler.history@.len() == 0
                }
                &&& final(b).sample_rate == b.sample_rate
                &&& final(b).device_name == b.device_name
            },
        forall|b: &mut OscilloscopeBackend| #[trigger]
            call_ensures(OscilloscopeBackend::disconnect, (b,), ()) && b.wf() ==> final(b).runtime is None && final(b).resampler.history@.len() == 0 && final(b).sample_rate
                == b.sample_rate,
        forall|r: &mut RuntimeState| #[trigger]
            call_ensures(RuntimeState::clear_queue, (r,), ()) ==> queue::contents(
                final(r).queue,
            ).len() == 0 && queue::limit(final(r).queue) == queue::limit(r.queue) && final(r).muted
                == r.muted && final(r).last == r.last,
        forall|r: &RuntimeState, n: u64| #[trigger]
            call_ensures(RuntimeState::queued_points, (r,), n) ==> n == queue::contents(
                r.queue,
            ).len(),
        forall|r: &RuntimeState, n: usize| #[trigger]
            call_ensures(RuntimeState::remaining_capacity, (r,), n) && r.wf() ==> n
                + queue::contents(r.queue).len() == queue::limit(r.queue),
        forall|r: &mut RuntimeState, sample: (u32, u32)| #[trigger]
            call_ensures(RuntimeState::set_last_output, (r, sample), ()) ==> final(r).last == sample
                && final(r).queue == r.queue,
{
}

/// What was heard counts on while both rates stay as they were; a change of either starts
/// afresh. No points in a second are taken for one.
pub proof fn change_of_rate_starts_afresh(b: OscilloscopeBackend, pps: u32)
    ensures
        pps > 0 && b.resampler.from_rate == pps && b.resampler.to_rate == b.sample_rate ==> heard_at(
            b,
            pps,
        ) == b.resampler.history@,
        pps > 0 && b.resampler.from_rate != pps ==> heard_at(b, pps).len() == 0,
        b.resampler.to_rate != b.sample_rate ==> heard_at(b, pps).len() == 0,
        heard_at(b, 0) == heard_at(b, 1),
{
}

} // verus!
