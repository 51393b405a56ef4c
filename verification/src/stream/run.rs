//! The steps of a running stream.

use vstd::prelude::*;

use crate::arith;
use crate::error::Error;
use crate::scheduler::{self, conservative_buffered_points};
use crate::stream::control::ControlMsg;
use crate::stream::{self, RunPhase, Stream, StreamView};
use crate::types::{
    ChunkRequest, ChunkResult, Color, LaserPoint, RunExit, StreamInstant, StreamStats,
    UnderrunPolicy,
};

verus! {

/// Longest sleep without looking at the control messages, in nanoseconds.
pub const SLEEP_SLICE: u64 = 2_000_000;

/// Pause before a chunk is offered again, in nanoseconds.
pub const RETRY_PAUSE: u64 = 100_000;

/// Time between looks at the device's queue during a drain, in nanoseconds.
pub const DRAIN_POLL_INTERVAL: u64 = 5_000_000;

/// Longest sleep without looking at the control messages during a drain, in
/// nanoseconds.
pub const DRAIN_SLEEP_SLICE: u64 = 10_000_000;

/// Dark points that are written when a stream ends.
pub const CLOSING_POINTS: usize = 16;

/// What to do next for a running stream.
#[derive(Debug)]
pub enum StreamAction {
    /// Look at the clock, the stop flag and the device's queue; hand them to
    /// [`Stream::observed`].
    Observe,
    /// Sleep for so many nanoseconds and handle the control messages; hand to
    /// [`Stream::slept`] whether there was a stop among them, and whether the stream is
    /// armed then.
    Sleep(u64),
    /// Handle the control messages and, without a stop among them, sleep for so many
    /// nanoseconds; hand to [`Stream::slept`] whether there was a stop, and whether the
    /// stream is armed then.
    Pause(u64),
    /// Look whether the device is connected; hand it to [`Stream::linked`].
    CheckLink,
    /// Handle the control messages and look at the device's queue; hand both to
    /// [`Stream::controlled`].
    Control,
    /// Let the producer fill the chunk buffer; hand its answer, whether the stream is
    /// armed, and the color delay to [`Stream::produced`].
    Produce(ChunkRequest),
    /// Move the shutter if it has to, and offer the first `count` points of the chunk
    /// buffer to the device; hand the reply to [`Stream::wrote`].
    Write { shutter: Option<bool>, count: usize },
    /// Report an error and call [`Stream::reported`].
    Report(Error),
    /// Close the shutter and write dark points, then call [`Stream::closed`].
    Close,
    /// The stream has ended.
    Finish(RunExit),
    /// The stream has ended after this error, which is to be reported.
    ReportAndFinish(Error, RunExit),
    /// The stream has failed.
    Fail(Error),
    /// Move the shutter if it has to; request a stop, and fail with
    /// [`Error::Stopped`].
    StopAndFail { shutter: Option<bool> },
}

/// Whether there is a device and it answers.
#[derive(Clone, Copy, Debug, PartialEq, Eq, Structural)]
pub enum Link {
    Missing,
    Down,
    Up,
}

/// What a device answers to a write.
#[derive(Debug)]
pub enum WriteReply {
    /// There is no device.
    Missing,
    Written,
    WouldBlock,
    Failed(Error),
}

/// What a control message asks for.
#[derive(Clone, Copy, Debug, PartialEq, Eq, Structural)]
pub enum ControlStep {
    Nothing,
    /// Move the shutter (best-effort).
    SetShutter(bool),
    Stop,
}

/// How a control message moves the shutter.
pub open spec fn control_step(shutter_open: bool, msg: ControlMsg) -> ControlStep {
    match msg {
        ControlMsg::Arm => if shutter_open {
            ControlStep::Nothing
        } else {
            ControlStep::SetShutter(true)
        },
        ControlMsg::Disarm => if shutter_open {
            ControlStep::SetShutter(false)
        } else {
            ControlStep::Nothing
        },
        ControlMsg::Stop => ControlStep::Stop,
    }
}

/// Points in nanoseconds, and the bounds that the arithmetic needs.
pub(crate) proof fn lemma_points_ns_bound(points: u64, pps: u32)
    requires
        pps >= 1,
    ensures
        0 <= 2 * points * 1_000_000_000 + pps <= 0x1_0000_0000 * 0x1_0000_0000_0000_0000,
        0 <= stream::points_ns(points as int, pps as int) <= 0x1_0000_0000
            * 0x1_0000_0000_0000_0000,
{
    let n = 2 * points * 1_000_000_000 + pps;
    assert(0 <= n / (2 * pps as int) <= n) by (nonlinear_arith)
        requires
            n >= 0,
            pps >= 1,
    ;
}

/// How long points last at a rate, in nanoseconds.
pub fn points_duration(points: u64, pps: u32) -> (r: u128)
    requires
        pps >= 1,
    ensures
        r == stream::points_ns(points as int, pps as int),
{
    proof {
        lemma_points_ns_bound(points, pps);
    }
    let doubled: u128 = 2 * (points as u128) * 1_000_000_000 + pps as u128;
    doubled / (2 * (pps as u128))
}

/// How many points begin within a time.
pub fn points_in(ns: u64, pps: u32) -> (r: u64)
    ensures
        r == stream::points_within(ns, pps),
{
    proof {
        scheduler::lemma_played_bound(ns, pps);
        assert((ns as int - 0) * (pps as int) == ns * pps);
        assert(ns == 0 ==> ns * pps == 0) by (nonlinear_arith);
    }
    let points: u128 = (ns as u128 * pps as u128 + 999_999_999) / 1_000_000_000;
    if points <= u64::MAX as u128 {
        points as u64
    } else {
        u64::MAX
    }
}

/// How many points are missing, up to `max_points`.
fn missing_points(want: u64, have: u128, pps: u32, max_points: usize) -> (r: usize)
    ensures
        r == arith::least(
            stream::deficit(want as int, have as int, pps as int),
            max_points as int,
        ),
{
    if have >= want as u128 {
        return 0;
    }
    let short: u64 = (want as u128 - have) as u64;
    proof {
        scheduler::lemma_played_bound(short, pps);
    }
    let points: u128 = (short as u128 * pps as u128 + 999_999_999) / 1_000_000_000;
    if points <= max_points as u128 {
        points as usize
    } else {
        max_points
    }
}

impl<B> Stream<B> {
    /// Estimate the current buffer level in points using conservative estimation.
    ///
    /// Uses `min(hardware, software)` to prevent underruns: with the larger of the
    /// two, too few points would be requested.
    pub fn estimate_buffer_points(&self, queued: Option<u64>) -> (r: u64)
        ensures
            r == self@.buffered(queued),
    {
        conservative_buffered_points(self.state.scheduled_ahead, queued)
    }

    /// Build a request with calculated buffer state and point requirements. The
    /// points play where the stream ends now, which is what audio is synchronized to.
    pub fn build_fill_request(&self, max_points: usize, queued: Option<u64>) -> (r: ChunkRequest)
        requires
            self.config.pps >= 1,
        ensures
            r == self@.request(max_points, queued),
            r.target_points <= max_points,
            r.min_points <= max_points,
    {
        let pps: u32 = self.config.pps;
        let buffered_points: u64 = self.estimate_buffer_points(queued);
        let buffered: u128 = points_duration(buffered_points, pps);
        ChunkRequest {
            start: self.state.current_instant,
            pps,
            min_points: missing_points(self.config.min_buffer, buffered, pps, max_points),
            target_points: missing_points(self.config.target_buffer, buffered, pps, max_points),
            buffered_points,
            buffered,
            device_queued_points: queued,
        }
    }

    /// Take a control message: how the shutter moves at once, or that the stream is
    /// to stop.
    pub fn process_control_message(&mut self, msg: ControlMsg) -> (r: ControlStep)
        ensures
            r == control_step(old(self)@.shutter_open, msg),
            final(self)@ == (StreamView {
                shutter_open: match r {
                    ControlStep::SetShutter(open) => open,
                    _ => old(self)@.shutter_open,
                },
                ..old(self)@
            }),
            final(self).keeps(*old(self)),
    {
        match msg {
            ControlMsg::Arm => {
                if !self.state.shutter_open {
                    self.state.shutter_open = true;
                    ControlStep::SetShutter(true)
                } else {
                    ControlStep::Nothing
                }
            },
            ControlMsg::Disarm => {
                if self.state.shutter_open {
                    self.state.shutter_open = false;
                    ControlStep::SetShutter(false)
                } else {
                    ControlStep::Nothing
                }
            },
            ControlMsg::Stop => ControlStep::Stop,
        }
    }

    /// Handle hardware shutter transitions based on arm state changes.
    pub fn handle_shutter_transition(&mut self, is_armed: bool) -> (r: Option<bool>)
        ensures
            r == old(self)@.shutter_move(is_armed),
            final(self)@ == old(self)@.with_armed(is_armed),
            final(self).keeps(*old(self)),
    {
        let was_armed: bool = self.state.last_armed;
        self.state.last_armed = is_armed;
        if !is_armed {
            self.state.color_line.clear();
            assert(self@.line =~= Seq::empty());
        } else if !was_armed {
            self.state.startup_left = points_in(self.config.startup_blank, self.config.pps);
        }
        if was_armed && !is_armed {
            if self.state.shutter_open {
                self.state.shutter_open = false;
                return Some(false);
            }
        } else if !was_armed && is_armed {
            if !self.state.shutter_open {
                self.state.shutter_open = true;
                return Some(true);
            }
        }
        None
    }

    fn darken(&mut self, n: usize)
        requires
            n <= old(self)@.chunk.len(),
        ensures
            final(self)@ == (StreamView {
                chunk: stream::darkened(old(self)@.chunk, n as int),
                ..old(self)@
            }),
            final(self).keeps(*old(self)),
    {
        let ghost before = self@;
        let mut i: usize = 0;
        assert(stream::darkened(before.chunk, 0) =~= before.chunk);
        while i < n
            invariant
                self.keeps(*old(self)),
                i <= n <= before.chunk.len(),
                self@ == (StreamView { chunk: stream::darkened(before.chunk, i as int), ..before }),
            decreases n - i,
        {
            let p: LaserPoint = self.state.chunk_buffer[i];
            self.state.chunk_buffer.set(i, LaserPoint::blanked(p.x, p.y));
            i += 1;
            assert(self@.chunk =~= stream::darkened(before.chunk, i as int));
        }
    }

    /// Make the first points of the chunk dark that startup blanking covers.
    fn blank_startup(&mut self, n: usize)
        requires
            n <= old(self)@.chunk.len(),
        ensures
            final(self)@ == (StreamView {
                chunk: old(self)@.blanked_chunk(n as int),
                ..old(self)@
            }),
            final(self).keeps(*old(self)),
    {
        let count: usize = if (n as u64) <= self.state.startup_left {
            n
        } else {
            self.state.startup_left as usize
        };
        self.darken(count);
    }

    /// Show the first `n` points of the chunk in the colors that wait, `delay` points
    /// late.
    fn delay_colors(&mut self, n: usize, delay: u64)
        requires
            n <= old(self)@.chunk.len(),
            delay <= usize::MAX,
        ensures
            ({
                let line = stream::fitted(old(self)@.line, delay as int);
                final(self)@ == (StreamView {
                    chunk: stream::delayed(old(self)@.chunk, n as int, line),
                    line: stream::moved(old(self)@.chunk, n as int, line),
                    ..old(self)@
                })
            }),
            final(self).keeps(*old(self)),
    {
        let ghost before = self@;
        let ghost line = stream::fitted(before.line, delay as int);
        while self.state.color_line.len() > delay as usize
            invariant
                self.keeps(*old(self)),
                delay <= usize::MAX,
                self@ == (StreamView { line: self@.line, ..before }),
                self@.line.len() <= before.line.len(),
                self@.line.len() == before.line.len() || self@.line.len() >= delay,
                self@.line == before.line.take(self@.line.len() as int),
            ensures
                self@.line.len() <= delay,
            decreases self.state.color_line.len(),
        {
            let ghost k = self@.line.len() as int;
            let _ = self.state.color_line.pop_back();
            assert(self@.line =~= before.line.take(k - 1));
        }
        let ghost kept = self@.line;
        while self.state.color_line.len() < delay as usize
            invariant
                self.keeps(*old(self)),
                delay <= usize::MAX,
                self@ == (StreamView { line: self@.line, ..before }),
                kept.len() <= self@.line.len() <= delay,
                self@.line == stream::fitted(kept, self@.line.len() as int),
            decreases delay - self.state.color_line.len(),
        {
            let ghost k = self@.line.len() as int;
            self.state.color_line.push_back(Color::off());
            assert(self@.line =~= stream::fitted(kept, k + 1));
        }
        assert(self@.line =~= line);
        let mut i: usize = 0;
        assert(stream::delayed(before.chunk, 0, line) =~= before.chunk);
        assert(stream::moved(before.chunk, 0, line) =~= line);
        while i < n
            invariant
                self.keeps(*old(self)),
                i <= n <= before.chunk.len(),
                line.len() <= usize::MAX,
                self@ == (StreamView {
                    chunk: stream::delayed(before.chunk, i as int, line),
                    line: stream::moved(before.chunk, i as int, line),
                    ..before
                }),
            decreases n - i,
        {
            let p: LaserPoint = self.state.chunk_buffer[i];
            let ghost waiting = self@.line;
            self.state.color_line.push_back(p.color());
            let shown: Color = match self.state.color_line.pop_front() {
                Some(c) => c,
                None => p.color(),
            };
            assert(self@.line =~= waiting.push(p.look()).skip(1));
            self.state.chunk_buffer.set(i, p.with_color(shown));
            i += 1;
            assert(self@.line =~= stream::moved(before.chunk, i as int, line));
            assert(self@.chunk =~= stream::delayed(before.chunk, i as int, line));
        }
    }

    fn record_written(&mut self, n: usize, armed: bool)
        requires
            old(self)@.wf(),
            old(self)@.has_room(),
            n <= old(self)@.max_points,
        ensures
            final(self)@ == old(self)@.written(n, armed),
            final(self).keeps(*old(self)),
    {
        let ghost before = self@;
        if armed {
            let mut i: usize = 0;
            assert(before.chunk.take(0) + before.last.skip(0) =~= before.last);
            while i < n
                invariant
                    self.keeps(*old(self)),
                    i <= n <= before.chunk.len(),
                    before.last.len() == before.chunk.len(),
                    self@ == (StreamView {
                        last: before.chunk.take(i as int) + before.last.skip(i as int),
                        ..before
                    }),
                decreases n - i,
            {
                let p: LaserPoint = self.state.chunk_buffer[i];
                self.state.last_chunk.set(i, p);
                i += 1;
                assert(self@.last =~= before.chunk.take(i as int) + before.last.skip(i as int));
            }
            self.state.last_chunk_len = n;
            self.state.startup_left = self.state.startup_left.saturating_sub(n as u64);
        }
        self.state.current_instant = StreamInstant {
            points: self.state.current_instant.points + n as u64,
        };
        self.state.scheduled_ahead = self.state.scheduled_ahead + n as u64;
        self.state.stats = StreamStats {
            underrun_count: self.state.stats.underrun_count,
            chunks_written: self.state.stats.chunks_written + 1,
            points_written: self.state.stats.points_written + n as u64,
        };
    }

    /// Put what stands in for missing points at the head of the chunk.
    fn fill_stand_in(&mut self, armed: bool, n: usize)
        requires
            old(self)@.wf(),
            n <= old(self)@.max_points,
            !armed || old(self)@.config.underrun != UnderrunPolicy::Stop,
        ensures
            final(self)@ == (StreamView {
                chunk: old(self)@.stand_in(armed, n as int) + old(self)@.chunk.skip(n as int),
                ..old(self)@
            }),
            final(self).keeps(*old(self)),
    {
        let ghost before = self@;
        let ghost filler = before.stand_in(armed, n as int);
        let repeat: bool = armed && self.config.underrun == UnderrunPolicy::RepeatLast
            && self.state.last_chunk_len > 0;
        let rest: LaserPoint = match self.config.underrun {
            UnderrunPolicy::Park { x, y } => if armed {
                LaserPoint::blanked(x, y)
            } else {
                LaserPoint::blanked(0, 0)
            },
            _ => LaserPoint::blanked(0, 0),
        };
        let mut i: usize = 0;
        assert(filler.take(0) + before.chunk.skip(0) =~= before.chunk);
        while i < n
            invariant
                self.keeps(*old(self)),
                i <= n <= before.chunk.len(),
                before.wf(),
                filler == before.stand_in(armed, n as int),
                repeat == (armed && before.config.underrun == UnderrunPolicy::RepeatLast
                    && before.last_len > 0),
                !repeat ==> forall|j: int| 0 <= j < n ==> filler[j] == rest,
                self@ == (StreamView {
                    chunk: filler.take(i as int) + before.chunk.skip(i as int),
                    ..before
                }),
            decreases n - i,
        {
            let p: LaserPoint = if repeat {
                self.state.last_chunk[i % self.state.last_chunk_len]
            } else {
                rest
            };
            assert(p == filler[i as int]);
            self.state.chunk_buffer.set(i, p);
            i += 1;
            assert(self@.chunk =~= filler.take(i as int) + before.chunk.skip(i as int));
        }
        assert(filler.take(n as int) =~= filler);
    }

    /// Start to run. `now` is in nanoseconds of the clock that the steps are given.
    pub fn start(&mut self, now: u64) -> (r: StreamAction)
        requires
            old(self)@.wf(),
        ensures
            r is Observe,
            final(self)@ == (StreamView { last_iteration: now, phase: RunPhase::Idle, ..old(self)@ }),
            final(self)@.wf(),
            final(self).keeps(*old(self)),
    {
        self.last_iteration = now;
        self.phase = RunPhase::Idle;
        StreamAction::Observe
    }

    /// The clock, the stop flag and the device's queue.
    pub fn observed(&mut self, now: u64, stop_requested: bool, queued: Option<u64>) -> (r:
        StreamAction)
        requires
            old(self)@.wf(),
            old(self).phase is Idle || old(self).phase is Draining || old(self).phase is Polling
                || old(self).phase is Waiting,
        ensures
            final(self)@.wf(),
            old(self).phase is Idle ==> idle_step(
                old(self)@,
                now,
                stop_requested,
                queued,
                final(self)@,
                r,
            ),
            !(old(self).phase is Idle) ==> drain_step(old(self)@, now, queued, final(self)@, r),
            final(self).keeps(*old(self)),
    {
        match self.phase {
            RunPhase::Idle => self.observed_idle(now, stop_requested, queued),
            RunPhase::Draining => {
                let deadline: u128 = now as u128 + self.config.drain_timeout as u128;
                if queued.is_some() {
                    self.phase = RunPhase::Polling { deadline };
                } else {
                    let estimated: u128 = points_duration(
                        self.state.scheduled_ahead,
                        self.config.pps,
                    );
                    let timeout: u128 = self.config.drain_timeout as u128;
                    let remaining: u128 = if estimated <= timeout {
                        estimated
                    } else {
                        timeout
                    };
                    self.phase = RunPhase::Waiting { deadline, remaining };
                }
                StreamAction::Observe
            },
            RunPhase::Polling { deadline } => {
                let empty: bool = match queued {
                    Some(n) => n == 0,
                    None => true,
                };
                if now as u128 >= deadline || empty {
                    self.close()
                } else {
                    self.phase = RunPhase::Pausing { deadline };
                    StreamAction::Pause(DRAIN_POLL_INTERVAL)
                }
            },
            RunPhase::Waiting { deadline, remaining } => {
                if remaining == 0 || now as u128 >= deadline {
                    self.close()
                } else {
                    let slice: u64 = if remaining < DRAIN_SLEEP_SLICE as u128 {
                        remaining as u64
                    } else {
                        DRAIN_SLEEP_SLICE
                    };
                    self.phase = RunPhase::Slumbering {
                        deadline,
                        remaining: remaining - slice as u128,
                    };
                    StreamAction::Sleep(slice)
                }
            },
            _ => self.close(),
        }
    }

    fn observed_idle(&mut self, now: u64, stop_requested: bool, queued: Option<u64>) -> (r:
        StreamAction)
        requires
            old(self)@.wf(),
            old(self).phase is Idle,
        ensures
            final(self)@.wf(),
            idle_step(old(self)@, now, stop_requested, queued, final(self)@, r),
            final(self).keeps(*old(self)),
    {
        if stop_requested {
            return self.finish(RunExit::Stopped);
        }
        let elapsed: u64 = now.saturating_sub(self.last_iteration);
        proof {
            scheduler::lemma_played_bound(elapsed, self.config.pps);
            scheduler::lemma_played_bound(self.config.target_buffer, self.config.pps);
        }
        let consumed: u128 = elapsed as u128 * self.config.pps as u128 / 1_000_000_000;
        self.state.scheduled_ahead = if consumed <= self.state.scheduled_ahead as u128 {
            self.state.scheduled_ahead - consumed as u64
        } else {
            0
        };
        self.last_iteration = now;
        let buffered: u64 = self.estimate_buffer_points(queued);
        let target_points: u128 = self.config.target_buffer as u128 * self.config.pps as u128
            / 1_000_000_000;
        if buffered as u128 > target_points {
            let excess: u64 = buffered - target_points as u64;
            let remaining: u128 = points_duration(excess, self.config.pps);
            self.sleep(remaining)
        } else {
            self.phase = RunPhase::Linking;
            StreamAction::CheckLink
        }
    }

    /// Sleep a slice of what remains, or look again.
    fn sleep(&mut self, remaining: u128) -> (r: StreamAction)
        requires
            old(self)@.wf(),
        ensures
            final(self)@.wf(),
            sleep_step(old(self)@, remaining as int, final(self)@, r),
            final(self).keeps(*old(self)),
    {
        if remaining == 0 {
            self.phase = RunPhase::Idle;
            return StreamAction::Observe;
        }
        let slice: u64 = if remaining < SLEEP_SLICE as u128 {
            remaining as u64
        } else {
            SLEEP_SLICE
        };
        self.phase = RunPhase::Sleeping { remaining: remaining - slice as u128 };
        StreamAction::Sleep(slice)
    }

    fn finish(&mut self, exit: RunExit) -> (r: StreamAction)
        requires
            old(self)@.wf(),
        ensures
            final(self)@.wf(),
            final(self)@ == old(self)@.in_phase(RunPhase::Finished),
            r == StreamAction::Finish(exit),
            final(self).keeps(*old(self)),
    {
        self.phase = RunPhase::Finished;
        StreamAction::Finish(exit)
    }

    /// Turn the laser off at the end of the stream.
    fn close(&mut self) -> (r: StreamAction)
        requires
            old(self)@.wf(),
        ensures
            final(self)@.wf(),
            final(self)@ == closing(old(self)@),
            r is Close,
            final(self).keeps(*old(self)),
    {
        self.state.shutter_open = false;
        self.phase = RunPhase::Closing;
        StreamAction::Close
    }

    /// A sleep or a pause has ended; `stop` says whether there was a stop among the
    /// control messages, `armed` whether the stream is armed now. A chunk that has been
    /// waiting for room goes out dark if the stream was disarmed meanwhile.
    pub fn slept(&mut self, stop: bool, armed: bool) -> (r: StreamAction)
        requires
            old(self)@.wf(),
            old(self).phase is Sleeping || old(self).phase is Blocked || old(self).phase is Pausing
                || old(self).phase is Slumbering,
        ensures
            final(self)@.wf(),
            wake_step(old(self)@, stop, armed, final(self)@, r),
            final(self).keeps(*old(self)),
    {
        match self.phase {
            RunPhase::Sleeping { remaining } => {
                if stop {
                    self.finish(RunExit::Stopped)
                } else {
                    self.sleep(remaining)
                }
            },
            RunPhase::Blocked { count, armed: lit } => {
                if stop {
                    self.finish(RunExit::Stopped)
                } else if armed {
                    self.phase = RunPhase::Writing { count, armed: lit };
                    StreamAction::Write { shutter: None, count }
                } else {
                    let shutter: Option<bool> = self.handle_shutter_transition(false);
                    self.darken(count);
                    self.phase = RunPhase::Writing { count, armed: false };
                    StreamAction::Write { shutter, count }
                }
            },
            RunPhase::Pausing { deadline } => {
                if stop {
                    self.close()
                } else {
                    self.phase = RunPhase::Polling { deadline };
                    StreamAction::Observe
                }
            },
            RunPhase::Slumbering { deadline, remaining } => {
                if stop {
                    self.close()
                } else {
                    self.phase = RunPhase::Waiting { deadline, remaining };
                    StreamAction::Observe
                }
            },
            _ => self.close(),
        }
    }

    /// Whether the device is connected.
    pub fn linked(&mut self, link: Link) -> (r: StreamAction)
        requires
            old(self)@.wf(),
            old(self).phase is Linking,
        ensures
            final(self)@.wf(),
            link is Up ==> r is Control && final(self)@ == old(self)@.in_phase(
                RunPhase::Controlling,
            ),
            !(link is Up) ==> {
                &&& final(self)@ == old(self)@.in_phase(RunPhase::Finished)
                &&& r matches StreamAction::ReportAndFinish(Error::Disconnected(m), exit)
                &&& exit is Disconnected
                &&& m@ == if link is Missing {
                    "no backend"@
                } else {
                    "backend disconnected"@
                }
            },
            final(self).keeps(*old(self)),
    {
        match link {
            Link::Up => {
                self.phase = RunPhase::Controlling;
                StreamAction::Control
            },
            Link::Down => {
                self.phase = RunPhase::Finished;
                StreamAction::ReportAndFinish(
                    Error::disconnected("backend disconnected"),
                    RunExit::Disconnected,
                )
            },
            Link::Missing => {
                self.phase = RunPhase::Finished;
                StreamAction::ReportAndFinish(
                    Error::disconnected("no backend"),
                    RunExit::Disconnected,
                )
            },
        }
    }

    /// The control messages have been handled.
    pub fn controlled(&mut self, stop: bool, queued: Option<u64>) -> (r: StreamAction)
        requires
            old(self)@.wf(),
            old(self).phase is Controlling,
        ensures
            final(self)@.wf(),
            stop ==> r == StreamAction::Finish(RunExit::Stopped) && final(self)@
                == old(self)@.in_phase(RunPhase::Finished),
            !stop ==> {
                let request = old(self)@.request(old(self)@.max_points, queued);
                &&& r == StreamAction::Produce(request)
                &&& final(self)@ == old(self)@.in_phase(RunPhase::Producing { request })
            },
            final(self).keeps(*old(self)),
    {
        if stop {
            return self.finish(RunExit::Stopped);
        }
        let request = self.build_fill_request(self.info.caps.max_points_per_chunk, queued);
        self.phase = RunPhase::Producing { request };
        StreamAction::Produce(request)
    }

    /// The producer has answered and has written to the chunk buffer; `armed` says
    /// whether the stream is armed now, `color_delay` by how many nanoseconds colors
    /// are to be shown late.
    pub fn produced(&mut self, result: ChunkResult, armed: bool, color_delay: u64) -> (r:
        StreamAction)
        requires
            old(self)@.wf(),
            old(self).phase is Producing,
            old(self)@.has_room(),
            stream::points_within(color_delay, old(self)@.config.pps) <= usize::MAX,
        ensures
            final(self)@.wf(),
            produce_step(old(self)@, result, armed, color_delay, final(self)@, r),
            r matches StreamAction::Write { count, .. } ==> count <= final(self)@.max_points && (
            !armed ==> forall|i: int| 0 <= i < count ==> (#[trigger] final(self)@.chunk[i]).is_dark()),
            final(self).keeps(*old(self)),
    {
        let target: usize = match self.phase {
            RunPhase::Producing { request } => request.target_points,
            _ => 0,
        };
        match result {
            ChunkResult::Filled(filled) => {
                let max_points: usize = self.info.caps.max_points_per_chunk;
                let n: usize = if filled <= max_points {
                    filled
                } else {
                    max_points
                };
                if n == 0 && target > 0 {
                    return self.begin_underrun(target, armed);
                }
                if n > 0 {
                    self.begin_write(n, armed, color_delay)
                } else {
                    self.phase = RunPhase::Idle;
                    StreamAction::Observe
                }
            },
            ChunkResult::Starved => self.begin_underrun(target, armed),
            ChunkResult::End => {
                if self.config.drain_timeout == 0 {
                    self.close()
                } else {
                    self.phase = RunPhase::Draining;
                    StreamAction::Observe
                }
            },
        }
    }

    fn begin_write(&mut self, n: usize, armed: bool, color_delay: u64) -> (r: StreamAction)
        requires
            old(self)@.wf(),
            0 < n <= old(self)@.max_points,
            stream::points_within(color_delay, old(self)@.config.pps) <= usize::MAX,
        ensures
            final(self)@.wf(),
            r == (StreamAction::Write { shutter: old(self)@.shutter_move(armed), count: n }),
            final(self)@ == write_view(old(self)@, n, armed, color_delay),
            final(self).keeps(*old(self)),
    {
        let shutter: Option<bool> = self.handle_shutter_transition(armed);
        if !armed {
            self.darken(n);
        } else {
            let delay: u64 = points_in(color_delay, self.config.pps);
            self.delay_colors(n, delay);
            self.blank_startup(n);
        }
        self.phase = RunPhase::Writing { count: n, armed };
        StreamAction::Write { shutter, count: n }
    }

    /// Let the underrun policy stand in for the producer, with the points that were
    /// asked for, one at least. While disarmed, dark points are shown whatever the
    /// policy.
    pub fn begin_underrun(&mut self, target_points: usize, armed: bool) -> (r: StreamAction)
        requires
            old(self)@.wf(),
            old(self)@.has_room(),
            target_points <= old(self)@.max_points,
        ensures
            final(self)@.wf(),
            underrun_step(old(self)@, target_points, armed, final(self)@, r),
            final(self).keeps(*old(self)),
    {
        self.state.stats = StreamStats {
            underrun_count: self.state.stats.underrun_count + 1,
            chunks_written: self.state.stats.chunks_written,
            points_written: self.state.stats.points_written,
        };
        let shutter: Option<bool> = self.handle_shutter_transition(armed);
        let n: usize = if target_points >= 1 {
            target_points
        } else {
            1
        };
        if armed && self.config.underrun == UnderrunPolicy::Stop {
            self.phase = RunPhase::Finished;
            return StreamAction::StopAndFail { shutter };
        }
        self.fill_stand_in(armed, n);
        if armed {
            self.blank_startup(n);
        }
        self.phase = RunPhase::Underrun { count: n, armed };
        StreamAction::Write { shutter, count: n }
    }

    /// The device has answered to a write.
    pub fn wrote(&mut self, reply: WriteReply) -> (r: StreamAction)
        requires
            old(self)@.wf(),
            old(self).phase is Writing || old(self).phase is Underrun,
            old(self)@.has_room(),
        ensures
            final(self)@.wf(),
            write_step(old(self)@, reply, final(self)@, r),
            final(self).keeps(*old(self)),
    {
        match self.phase {
            RunPhase::Writing { count, armed } => match reply {
                WriteReply::Written => {
                    self.record_written(count, armed);
                    self.phase = RunPhase::Idle;
                    StreamAction::Observe
                },
                WriteReply::WouldBlock => {
                    self.phase = RunPhase::Blocked { count, armed };
                    StreamAction::Pause(RETRY_PAUSE)
                },
                WriteReply::Missing => {
                    self.phase = RunPhase::Finished;
                    StreamAction::ReportAndFinish(
                        Error::disconnected("no backend"),
                        RunExit::Disconnected,
                    )
                },
                WriteReply::Failed(e) => {
                    if e.is_stopped() {
                        self.phase = RunPhase::Finished;
                        StreamAction::Fail(Error::Stopped)
                    } else if e.is_disconnected() {
                        self.phase = RunPhase::Finished;
                        StreamAction::ReportAndFinish(
                            Error::disconnected("backend disconnected"),
                            RunExit::Disconnected,
                        )
                    } else {
                        self.phase = RunPhase::Reporting;
                        StreamAction::Report(e)
                    }
                },
            },
            RunPhase::Underrun { count, armed } => {
                match reply {
                    WriteReply::Written => self.record_written(count, armed),
                    _ => {},
                }
                self.phase = RunPhase::Idle;
                StreamAction::Observe
            },
            _ => {
                self.phase = RunPhase::Idle;
                StreamAction::Observe
            },
        }
    }

    /// An error has been reported; the stream goes on.
    pub fn reported(&mut self) -> (r: StreamAction)
        requires
            old(self)@.wf(),
            old(self).phase is Reporting,
        ensures
            final(self)@.wf(),
            final(self)@ == old(self)@.in_phase(RunPhase::Idle),
            r is Observe,
            final(self).keeps(*old(self)),
    {
        self.phase = RunPhase::Idle;
        StreamAction::Observe
    }

    /// The laser is off; the stream has ended.
    pub fn closed(&mut self) -> (r: StreamAction)
        requires
            old(self)@.wf(),
            old(self).phase is Closing,
        ensures
            final(self)@.wf(),
            final(self)@ == old(self)@.in_phase(RunPhase::Finished),
            r == StreamAction::Finish(RunExit::ProducerEnded),
            final(self).keeps(*old(self)),
    {
        self.finish(RunExit::ProducerEnded)
    }
}

/// The dark points that end a stream.
pub fn closing_chunk() -> (r: Vec<LaserPoint>)
    ensures
        r@ == Seq::new(16, |i: int| LaserPoint::dark_at(0, 0)),
{
    let r: Vec<LaserPoint> = vec![LaserPoint::blanked(0, 0); CLOSING_POINTS];
    assert(r@ =~= Seq::new(16, |i: int| LaserPoint::dark_at(0, 0)));
    r
}

// ---------------------------------------------------------------------------
// What the steps do
// ---------------------------------------------------------------------------

/// The stream while the laser is turned off.
pub open spec fn closing(before: StreamView) -> StreamView {
    StreamView { shutter_open: false, phase: RunPhase::Closing, ..before }
}

/// A sleep of `remaining` nanoseconds: in slices, then another look.
pub open spec fn sleep_step(before: StreamView, remaining: int, after: StreamView, r: StreamAction) -> bool {
    let slice = arith::least(remaining, 2_000_000);
    if remaining == 0 {
        r is Observe && after == before.in_phase(RunPhase::Idle)
    } else {
        &&& r == StreamAction::Sleep(slice as u64)
        &&& after == before.in_phase(RunPhase::Sleeping { remaining: (remaining - slice) as u128 })
    }
}

/// A look while there is nothing else to do: stop, sleep off what the device has
/// beyond its target, or go on to the producer.
pub open spec fn idle_step(
    before: StreamView,
    now: u64,
    stop_requested: bool,
    queued: Option<u64>,
    after: StreamView,
    r: StreamAction,
) -> bool {
    let v = before.at(now);
    let target = scheduler::played(before.config.target_buffer, before.config.pps) / 1_000_000_000;
    if stop_requested {
        r == StreamAction::Finish(RunExit::Stopped) && after == before.in_phase(RunPhase::Finished)
    } else if v.buffered(queued) > target {
        sleep_step(
            v,
            stream::points_ns(v.buffered(queued) - target, before.config.pps as int),
            after,
            r,
        )
    } else {
        r is CheckLink && after == v.in_phase(RunPhase::Linking)
    }
}

/// A look during the drain. A device that tells its queue is polled until the queue
/// is empty; for another one the stream waits as long as its points last. The
/// timeout bounds both.
pub open spec fn drain_step(
    before: StreamView,
    now: u64,
    queued: Option<u64>,
    after: StreamView,
    r: StreamAction,
) -> bool {
    match before.phase {
        RunPhase::Draining => {
            let deadline = (now + before.config.drain_timeout) as u128;
            let remaining = arith::least(
                stream::points_ns(before.ahead as int, before.config.pps as int),
                before.config.drain_timeout as int,
            ) as u128;
            &&& r is Observe
            &&& after == before.in_phase(
                if queued is Some {
                    RunPhase::Polling { deadline }
                } else {
                    RunPhase::Waiting { deadline, remaining }
                },
            )
        },
        RunPhase::Polling { deadline } => if now >= deadline || queued is None || queued == Some(
            0u64,
        ) {
            r is Close && after == closing(before)
        } else {
            r == StreamAction::Pause(5_000_000) && after == before.in_phase(
                RunPhase::Pausing { deadline },
            )
        },
        RunPhase::Waiting { deadline, remaining } => if remaining == 0 || now >= deadline {
            r is Close && after == closing(before)
        } else {
            let slice = arith::least(remaining as int, 10_000_000);
            &&& r == StreamAction::Sleep(slice as u64)
            &&& after == before.in_phase(
                RunPhase::Slumbering { deadline, remaining: (remaining - slice) as u128 },
            )
        },
        _ => false,
    }
}

/// The end of a sleep or a pause. A stop ends the stream. A chunk that waited for room
/// is offered again: as it is while the stream is armed, and otherwise dark.
pub open spec fn wake_step(
    before: StreamView,
    stop: bool,
    armed: bool,
    after: StreamView,
    r: StreamAction,
) -> bool {
    match before.phase {
        RunPhase::Sleeping { remaining } => if stop {
            r == StreamAction::Finish(RunExit::Stopped) && after == before.in_phase(
                RunPhase::Finished,
            )
        } else {
            sleep_step(before, remaining as int, after, r)
        },
        RunPhase::Blocked { count, armed: lit } => if stop {
            r == StreamAction::Finish(RunExit::Stopped) && after == before.in_phase(
                RunPhase::Finished,
            )
        } else if armed {
            r == (StreamAction::Write { shutter: None, count }) && after == before.in_phase(
                RunPhase::Writing { count, armed: lit },
            )
        } else {
            &&& r == StreamAction::Write { shutter: before.shutter_move(false), count }
            &&& after == StreamView {
                chunk: stream::darkened(before.chunk, count as int),
                phase: RunPhase::Writing { count, armed: false },
                ..before.with_armed(false)
            }
        },
        RunPhase::Pausing { deadline } => if stop {
            r is Close && after == closing(before)
        } else {
            r is Observe && after == before.in_phase(RunPhase::Polling { deadline })
        },
        RunPhase::Slumbering { deadline, remaining } => if stop {
            r is Close && after == closing(before)
        } else {
            r is Observe && after == before.in_phase(RunPhase::Waiting { deadline, remaining })
        },
        _ => false,
    }
}

/// The stream as the first `n` points of its chunk go out: dark while disarmed;
/// otherwise where they are, in the colors of the points `color_delay` nanoseconds
/// before, as far as startup blanking is over.
pub open spec fn write_view(before: StreamView, n: usize, armed: bool, color_delay: u64) -> StreamView {
    let v = before.with_armed(armed);
    if armed {
        let line = stream::fitted(
            v.line,
            stream::points_within(color_delay, v.config.pps) as int,
        );
        let shown = StreamView {
            chunk: stream::delayed(v.chunk, n as int, line),
            line: stream::moved(v.chunk, n as int, line),
            phase: RunPhase::Writing { count: n, armed },
            ..v
        };
        StreamView { chunk: shown.blanked_chunk(n as int), ..shown }
    } else {
        StreamView {
            chunk: stream::darkened(v.chunk, n as int),
            phase: RunPhase::Writing { count: n, armed },
            ..v
        }
    }
}

/// An underrun of the points that were asked for.
pub open spec fn underrun_step(
    before: StreamView,
    target_points: usize,
    armed: bool,
    after: StreamView,
    r: StreamAction,
) -> bool {
    let n: usize = if target_points >= 1 {
        target_points
    } else {
        1
    };
    let shutter = before.shutter_move(armed);
    let counted = StreamView {
        stats: StreamStats {
            underrun_count: (before.stats.underrun_count + 1) as u64,
            ..before.stats
        },
        ..before.with_armed(armed)
    };
    if armed && before.config.underrun == UnderrunPolicy::Stop {
        &&& r == StreamAction::StopAndFail { shutter }
        &&& after == counted.in_phase(RunPhase::Finished)
    } else {
        let filled = StreamView {
            chunk: before.stand_in(armed, n as int) + before.chunk.skip(n as int),
            phase: RunPhase::Underrun { count: n, armed },
            ..counted
        };
        &&& r == StreamAction::Write { shutter, count: n }
        &&& after == if armed {
            StreamView { chunk: filled.blanked_chunk(n as int), ..filled }
        } else {
            filled
        }
    }
}

/// The answer of the producer. More points than the buffer holds count as a full
/// buffer; none where some were asked for is an underrun.
pub open spec fn produce_step(
    before: StreamView,
    result: ChunkResult,
    armed: bool,
    color_delay: u64,
    after: StreamView,
    r: StreamAction,
) -> bool {
    let target = before.phase->request.target_points;
    match result {
        ChunkResult::Filled(filled) => {
            let n = arith::least(filled as int, before.max_points as int) as usize;
            if n == 0 && target > 0 {
                underrun_step(before, target, armed, after, r)
            } else if n > 0 {
                &&& r == StreamAction::Write { shutter: before.shutter_move(armed), count: n }
                &&& after == write_view(before, n, armed, color_delay)
            } else {
                r is Observe && after == before.in_phase(RunPhase::Idle)
            }
        },
        ChunkResult::Starved => underrun_step(before, target, armed, after, r),
        ChunkResult::End => if before.config.drain_timeout == 0 {
            r is Close && after == closing(before)
        } else {
            r is Observe && after == before.in_phase(RunPhase::Draining)
        },
    }
}

/// The answer of the device. A chunk that the device has no room for is offered
/// again; an underrun chunk is not, and its errors do not matter. A device that is gone
/// ends the stream as disconnected.
pub open spec fn write_step(
    before: StreamView,
    reply: WriteReply,
    after: StreamView,
    r: StreamAction,
) -> bool {
    match before.phase {
        RunPhase::Writing { count, armed } => match reply {
            WriteReply::Written => r is Observe && after == before.written(count, armed).in_phase(
                RunPhase::Idle,
            ),
            WriteReply::WouldBlock => r == StreamAction::Pause(100_000) && after == before.in_phase(
                RunPhase::Blocked { count, armed },
            ),
            WriteReply::Missing => {
                &&& r matches StreamAction::ReportAndFinish(Error::Disconnected(m), exit)
                &&& m@ == "no backend"@
                &&& exit is Disconnected
                &&& after == before.in_phase(RunPhase::Finished)
            },
            WriteReply::Failed(e) => if e is Stopped {
                &&& r == StreamAction::Fail(Error::Stopped)
                &&& after == before.in_phase(RunPhase::Finished)
            } else if e is Disconnected {
                &&& r matches StreamAction::ReportAndFinish(Error::Disconnected(m), exit)
                &&& m@ == "backend disconnected"@
                &&& exit is Disconnected
                &&& after == before.in_phase(RunPhase::Finished)
            } else {
                r == StreamAction::Report(e) && after == before.in_phase(RunPhase::Reporting)
            },
        },
        RunPhase::Underrun { count, armed } => {
            &&& r is Observe
            &&& after == if reply is Written {
                before.written(count, armed).in_phase(RunPhase::Idle)
            } else {
                before.in_phase(RunPhase::Idle)
            }
        },
        _ => false,
    }
}

} // verus!
