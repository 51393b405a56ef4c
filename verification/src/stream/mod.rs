//! Streams of points to a DAC.
//!
//! # Armed/Disarmed Model
//!
//! Streams use a binary armed/disarmed safety model:
//!
//! - **Armed**: content passes through to the device, shutter opened (best-effort).
//!   The first points after arming are dark, and colors may be shown a little later
//!   than positions.
//! - **Disarmed** (default): shutter closed, intensity and color forced to 0.
//!
//! All streams start disarmed. `arm()` and `disarm()` are the only safety controls;
//! there is no separate shutter API.
//!
//! A [`Stream`] decides; whoever runs it acts. Each step names an action, and the
//! outcome of the action is handed to the next step. The runner owns the clock, the
//! device and the producer.

use std::collections::VecDeque;

use vstd::prelude::*;

use crate::arith;
use crate::device::DacInfo;
use crate::scheduler;
use crate::stream::control::StreamControl;
use crate::types::{
    ChunkRequest, Color, LaserPoint, StreamConfig, StreamInstant, StreamStats, UnderrunPolicy,
};

pub mod control;
pub mod dac;
pub mod laws;
pub mod run;

verus! {

/// What a stream keeps between its chunks.
#[derive(Debug)]
pub struct StreamState {
    /// Current position in stream time (points since start).
    pub current_instant: StreamInstant,
    /// Points scheduled ahead of what has been played.
    pub scheduled_ahead: u64,
    /// Buffer for the producer to fill points into.
    pub chunk_buffer: Vec<LaserPoint>,
    /// Last chunk for the RepeatLast underrun policy.
    pub last_chunk: Vec<LaserPoint>,
    /// Number of valid points in `last_chunk`.
    pub last_chunk_len: usize,
    pub stats: StreamStats,
    /// The last armed state, to detect transitions.
    pub last_armed: bool,
    /// Whether the hardware shutter is currently open.
    pub shutter_open: bool,
    /// Colors whose positions have been written, the oldest first.
    pub color_line: VecDeque<Color>,
    /// Points that are still to be dark after arming.
    pub startup_left: u64,
}

/// Where a running stream stands: which outcome it waits for.
#[derive(Clone, Copy, Debug, PartialEq, Eq, Structural)]
pub enum RunPhase {
    /// The time, the stop flag and the device's queue.
    Idle,
    /// The end of a sleep, of which so many nanoseconds remain after it.
    Sleeping { remaining: u128 },
    /// Whether the device is connected.
    Linking,
    /// The control messages.
    Controlling,
    /// What the producer has for a request.
    Producing { request: ChunkRequest },
    /// The write of a chunk.
    Writing { count: usize, armed: bool },
    /// The end of a pause before the chunk is written again.
    Blocked { count: usize, armed: bool },
    /// The write of an underrun chunk.
    Underrun { count: usize, armed: bool },
    /// That an error has been reported.
    Reporting,
    /// The time and the device's queue, at the start of the drain.
    Draining,
    /// The time and the device's queue, during the drain.
    Polling { deadline: u128 },
    /// The end of a pause during the drain.
    Pausing { deadline: u128 },
    /// The time, during a drain of a device that does not tell its queue.
    Waiting { deadline: u128, remaining: u128 },
    /// The end of a sleep during such a drain.
    Slumbering { deadline: u128, remaining: u128 },
    /// That the laser is off.
    Closing,
    /// Nothing more.
    Finished,
}

/// A streaming session for outputting points to a DAC.
pub struct Stream<B> {
    pub info: DacInfo,
    pub backend: Option<B>,
    pub config: StreamConfig,
    pub control: StreamControl,
    pub state: StreamState,
    /// When the buffer was last looked at, in nanoseconds.
    pub last_iteration: u64,
    pub phase: RunPhase,
}

/// What the decisions of a stream depend on.
pub struct StreamView {
    pub max_points: usize,
    pub config: StreamConfig,
    pub instant: u64,
    pub ahead: u64,
    pub chunk: Seq<LaserPoint>,
    pub last: Seq<LaserPoint>,
    pub last_len: usize,
    pub stats: StreamStats,
    pub last_armed: bool,
    pub shutter_open: bool,
    pub line: Seq<Color>,
    pub startup_left: u64,
    pub last_iteration: u64,
    pub phase: RunPhase,
}

impl<B> View for Stream<B> {
    type V = StreamView;

    open spec fn view(&self) -> StreamView {
        StreamView {
            max_points: self.info.caps.max_points_per_chunk,
            config: self.config,
            instant: self.state.current_instant.points,
            ahead: self.state.scheduled_ahead,
            chunk: self.state.chunk_buffer@,
            last: self.state.last_chunk@,
            last_len: self.state.last_chunk_len,
            stats: self.state.stats,
            last_armed: self.state.last_armed,
            shutter_open: self.state.shutter_open,
            line: self.state.color_line@,
            startup_left: self.state.startup_left,
            last_iteration: self.last_iteration,
            phase: self.phase,
        }
    }
}

impl<B> Stream<B> {
    /// The device, what is known of it, and the control handle are those of `other`.
    pub open spec fn keeps(self, other: Stream<B>) -> bool {
        &&& self.info == other.info
        &&& self.backend == other.backend
        &&& self.control == other.control
    }
}

/// How long points last at a rate, in nanoseconds: the nearest whole number, the
/// larger one half way between two.
pub open spec fn points_ns(points: int, pps: int) -> int {
    (2 * points * 1_000_000_000 + pps) / (2 * pps)
}

/// How many points it takes, rounded up, to go from `have` to `want` nanoseconds of
/// output.
pub open spec fn deficit(want: int, have: int, pps: int) -> int {
    if have >= want {
        0
    } else {
        ((want - have) * pps + 999_999_999) / 1_000_000_000
    }
}

/// The first `n` points made dark where they are.
pub open spec fn darkened(points: Seq<LaserPoint>, n: int) -> Seq<LaserPoint> {
    Seq::new(
        points.len(),
        |i: int|
            if i < n {
                LaserPoint::dark_at(points[i].x, points[i].y)
            } else {
                points[i]
            },
    )
}

/// How many points begin within a time, up to the largest number of them.
pub open spec fn points_within(ns: u64, pps: u32) -> u64 {
    arith::least(deficit(ns as int, 0, pps as int), u64::MAX as int) as u64
}

/// Delayed colors for a delay of `n` points: the oldest of those that there are, and
/// dark ones.
pub open spec fn fitted(line: Seq<Color>, n: int) -> Seq<Color> {
    Seq::new(
        n as nat,
        |i: int|
            if i < line.len() {
                line[i]
            } else {
                Color::dark()
            },
    )
}

/// The first `n` points in the colors that wait, and then their own.
pub open spec fn delayed(points: Seq<LaserPoint>, n: int, line: Seq<Color>) -> Seq<LaserPoint> {
    let d = line.len();
    Seq::new(
        points.len(),
        |i: int|
            if i >= n {
                points[i]
            } else if i < d {
                points[i].looking(line[i])
            } else {
                points[i].looking(points[i - d].look())
            },
    )
}

/// The colors that wait after the first `n` points.
pub open spec fn moved(points: Seq<LaserPoint>, n: int, line: Seq<Color>) -> Seq<Color> {
    let d = line.len();
    Seq::new(
        d,
        |i: int|
            if i + n < d {
                line[i + n]
            } else {
                points[i + n - d].look()
            },
    )
}

impl StreamView {
    /// The buffers hold a chunk each, a chunk is not empty, and no color waits while
    /// the stream is disarmed.
    pub open spec fn wf(self) -> bool {
        &&& !self.last_armed ==> self.line.len() == 0
        &&& 1 <= self.max_points
        &&& 1 <= self.config.pps
        &&& self.chunk.len() == self.max_points
        &&& self.last.len() == self.max_points
        &&& self.last_len <= self.max_points
        &&& match self.phase {
            RunPhase::Producing { request } => request.target_points <= self.max_points,
            RunPhase::Writing { count, .. } => count <= self.max_points,
            RunPhase::Blocked { count, .. } => count <= self.max_points,
            RunPhase::Underrun { count, .. } => count <= self.max_points,
            _ => true,
        }
    }

    /// The counters have room for one more chunk.
    pub open spec fn has_room(self) -> bool {
        &&& self.instant + self.max_points <= u64::MAX
        &&& self.ahead + self.max_points <= u64::MAX
        &&& self.stats.underrun_count < u64::MAX
        &&& self.stats.chunks_written < u64::MAX
        &&& self.stats.points_written + self.max_points <= u64::MAX
    }

    /// The points that wait for output: as the device tells, but no more than were
    /// scheduled.
    pub open spec fn buffered(self, queued: Option<u64>) -> u64 {
        match queued {
            Some(n) => if n <= self.ahead {
                n
            } else {
                self.ahead
            },
            None => self.ahead,
        }
    }

    /// What is asked of the producer.
    pub open spec fn request(self, max_points: usize, queued: Option<u64>) -> ChunkRequest {
        let pps = self.config.pps;
        let have = points_ns(self.buffered(queued) as int, pps as int);
        ChunkRequest {
            start: StreamInstant { points: self.instant },
            pps,
            min_points: arith::least(
                deficit(self.config.min_buffer as int, have, pps as int),
                max_points as int,
            ) as usize,
            target_points: arith::least(
                deficit(self.config.target_buffer as int, have, pps as int),
                max_points as int,
            ) as usize,
            buffered_points: self.buffered(queued),
            buffered: have as u128,
            device_queued_points: queued,
        }
    }

    /// How the shutter has to move for the stream to be armed or not.
    pub open spec fn shutter_move(self, armed: bool) -> Option<bool> {
        if self.last_armed && !armed && self.shutter_open {
            Some(false)
        } else if !self.last_armed && armed && !self.shutter_open {
            Some(true)
        } else {
            None
        }
    }

    /// The stream once it is armed or not, and the shutter has moved. Arming starts the
    /// startup blanking; disarming drops the colors that wait.
    pub open spec fn with_armed(self, armed: bool) -> StreamView {
        StreamView {
            last_armed: armed,
            line: if armed {
                self.line
            } else {
                Seq::empty()
            },
            startup_left: if armed && !self.last_armed {
                points_within(self.config.startup_blank, self.config.pps)
            } else {
                self.startup_left
            },
            shutter_open: match self.shutter_move(armed) {
                Some(open) => open,
                None => self.shutter_open,
            },
            ..self
        }
    }

    /// The chunk with as many of its first `n` points dark as startup blanking says.
    pub open spec fn blanked_chunk(self, n: int) -> Seq<LaserPoint> {
        darkened(self.chunk, arith::least(n, self.startup_left as int))
    }

    /// The points that stand in for those the producer does not have: dark ones
    /// while disarmed, otherwise what the policy says.
    pub open spec fn stand_in(self, armed: bool, n: int) -> Seq<LaserPoint> {
        Seq::new(
            n as nat,
            |i: int|
                if !armed {
                    LaserPoint::dark_at(0, 0)
                } else {
                    match self.config.underrun {
                        UnderrunPolicy::RepeatLast => if self.last_len > 0 {
                            self.last[i % self.last_len as int]
                        } else {
                            LaserPoint::dark_at(0, 0)
                        },
                        UnderrunPolicy::Park { x, y } => LaserPoint::dark_at(x, y),
                        _ => LaserPoint::dark_at(0, 0),
                    }
                },
        )
    }

    /// The stream after the first `n` points of its chunk were written. What was
    /// shown while armed is what an underrun repeats.
    pub open spec fn written(self, n: usize, armed: bool) -> StreamView {
        StreamView {
            last: if armed {
                self.chunk.take(n as int) + self.last.skip(n as int)
            } else {
                self.last
            },
            last_len: if armed {
                n
            } else {
                self.last_len
            },
            startup_left: if !armed {
                self.startup_left
            } else if n <= self.startup_left {
                (self.startup_left - n) as u64
            } else {
                0
            },
            instant: (self.instant + n) as u64,
            ahead: (self.ahead + n) as u64,
            stats: StreamStats {
                chunks_written: (self.stats.chunks_written + 1) as u64,
                points_written: (self.stats.points_written + n) as u64,
                ..self.stats
            },
            ..self
        }
    }

    /// The stream at `now`: what has played since the last look is no longer ahead.
    pub open spec fn at(self, now: u64) -> StreamView {
        let elapsed = if now >= self.last_iteration {
            (now - self.last_iteration) as u64
        } else {
            0
        };
        let consumed = scheduler::played(elapsed, self.config.pps) / 1_000_000_000;
        StreamView {
            ahead: if consumed <= self.ahead {
                (self.ahead - consumed) as u64
            } else {
                0
            },
            last_iteration: now,
            ..self
        }
    }

    /// The stream in another phase.
    pub open spec fn in_phase(self, phase: RunPhase) -> StreamView {
        StreamView { phase, ..self }
    }
}

} // verus!
