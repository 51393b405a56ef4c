//! Points, stream settings, and what passes between a stream and its producer.

use vstd::prelude::*;

verus! {

/// A point in normalized coordinates with its color. The coordinates run from -1.0
/// to 1.0 and are kept as the bit patterns of 32-bit floating point numbers.
#[derive(Clone, Copy, Debug, PartialEq, Eq, Structural)]
pub struct LaserPoint {
    pub x: u32,
    pub y: u32,
    pub r: u16,
    pub g: u16,
    pub b: u16,
    pub intensity: u16,
}

/// What a point looks like, wherever it is.
#[derive(Clone, Copy, Debug, PartialEq, Eq, Structural)]
pub struct Color {
    pub r: u16,
    pub g: u16,
    pub b: u16,
    pub intensity: u16,
}

impl Color {
    /// The laser off.
    pub open spec fn dark() -> Color {
        Color { r: 0, g: 0, b: 0, intensity: 0 }
    }

    pub fn off() -> (c: Color)
        ensures
            c == Color::dark(),
    {
        Color { r: 0, g: 0, b: 0, intensity: 0 }
    }
}

impl LaserPoint {
    /// What the point looks like.
    pub open spec fn look(self) -> Color {
        Color { r: self.r, g: self.g, b: self.b, intensity: self.intensity }
    }

    /// A point in the same place that looks different.
    pub open spec fn looking(self, c: Color) -> LaserPoint {
        LaserPoint { x: self.x, y: self.y, r: c.r, g: c.g, b: c.b, intensity: c.intensity }
    }

    pub fn color(&self) -> (c: Color)
        ensures
            c == self.look(),
    {
        Color { r: self.r, g: self.g, b: self.b, intensity: self.intensity }
    }

    pub fn with_color(&self, c: Color) -> (p: LaserPoint)
        ensures
            p == self.looking(c),
    {
        LaserPoint { x: self.x, y: self.y, r: c.r, g: c.g, b: c.b, intensity: c.intensity }
    }

    /// Whether the laser is off at this point.
    pub open spec fn is_dark(self) -> bool {
        self.r == 0 && self.g == 0 && self.b == 0 && self.intensity == 0
    }

    /// The dark point at these coordinates.
    pub open spec fn dark_at(x: u32, y: u32) -> LaserPoint {
        LaserPoint { x, y, r: 0, g: 0, b: 0, intensity: 0 }
    }

    pub fn new(x: u32, y: u32, r: u16, g: u16, b: u16, intensity: u16) -> (p: LaserPoint)
        ensures
            p == (LaserPoint { x, y, r, g, b, intensity }),
    {
        LaserPoint { x, y, r, g, b, intensity }
    }

    pub fn blanked(x: u32, y: u32) -> (p: LaserPoint)
        ensures
            p == LaserPoint::dark_at(x, y),
            p.is_dark(),
    {
        LaserPoint { x, y, r: 0, g: 0, b: 0, intensity: 0 }
    }
}

impl Default for LaserPoint {
    fn default() -> (p: LaserPoint)
        ensures
            p == LaserPoint::dark_at(0, 0),
    {
        LaserPoint::blanked(0, 0)
    }
}

/// What a stream shows when its producer has nothing.
#[derive(Clone, Copy, Debug, PartialEq, Eq, Structural)]
pub enum UnderrunPolicy {
    /// Repeat the last chunk.
    RepeatLast,
    /// Dark points at the centre.
    Blank,
    /// Dark points at a position.
    Park { x: u32, y: u32 },
    /// End the stream.
    Stop,
}

/// Settings of a stream. Times are in nanoseconds.
#[derive(Clone, Copy, Debug, PartialEq, Eq, Structural)]
pub struct StreamConfig {
    /// Points per second.
    pub pps: u32,
    /// How much output is kept waiting in the device.
    pub target_buffer: u64,
    /// How much output has to wait in the device so that it does not run dry.
    pub min_buffer: u64,
    pub underrun: UnderrunPolicy,
    /// How long to wait for the device to play what it has when the stream ends.
    pub drain_timeout: u64,
    /// How much later than its position a point's color is shown. Mirrors need time
    /// to settle before the laser fires.
    pub color_delay: u64,
    /// How long the output stays dark after arming, so that the mirrors reach their
    /// first position without a flash.
    pub startup_blank: u64,
}

impl StreamConfig {
    pub fn new(pps: u32) -> (r: StreamConfig)
        ensures
            r == (StreamConfig {
                pps,
                target_buffer: 20_000_000,
                min_buffer: 8_000_000,
                underrun: UnderrunPolicy::RepeatLast,
                drain_timeout: 1_000_000_000,
                color_delay: 0,
                startup_blank: 1_000_000,
            }),
    {
        StreamConfig {
            pps,
            target_buffer: 20_000_000,
            min_buffer: 8_000_000,
            underrun: UnderrunPolicy::RepeatLast,
            drain_timeout: 1_000_000_000,
            color_delay: 0,
            startup_blank: 1_000_000,
        }
    }

    pub fn with_target_buffer(self, target_buffer: u64) -> (r: StreamConfig)
        ensures
            r == (StreamConfig { target_buffer, ..self }),
    {
        StreamConfig { target_buffer, ..self }
    }

    pub fn with_min_buffer(self, min_buffer: u64) -> (r: StreamConfig)
        ensures
            r == (StreamConfig { min_buffer, ..self }),
    {
        StreamConfig { min_buffer, ..self }
    }

    pub fn with_underrun(self, underrun: UnderrunPolicy) -> (r: StreamConfig)
        ensures
            r == (StreamConfig { underrun, ..self }),
    {
        StreamConfig { underrun, ..self }
    }

    pub fn with_drain_timeout(self, drain_timeout: u64) -> (r: StreamConfig)
        ensures
            r == (StreamConfig { drain_timeout, ..self }),
    {
        StreamConfig { drain_timeout, ..self }
    }

    pub fn with_color_delay(self, color_delay: u64) -> (r: StreamConfig)
        ensures
            r == (StreamConfig { color_delay, ..self }),
    {
        StreamConfig { color_delay, ..self }
    }

    /// Zero disables startup blanking.
    pub fn with_startup_blank(self, startup_blank: u64) -> (r: StreamConfig)
        ensures
            r == (StreamConfig { startup_blank, ..self }),
    {
        StreamConfig { startup_blank, ..self }
    }
}

/// A moment in stream time, counted in points since the start.
#[derive(Clone, Copy, Debug, PartialEq, Eq, PartialOrd, Ord, Structural)]
pub struct StreamInstant {
    pub points: u64,
}

impl StreamInstant {
    pub fn new(points: u64) -> (r: StreamInstant)
        ensures
            r.points == points,
    {
        StreamInstant { points }
    }
}

/// What a stream asks of its producer.
#[derive(Clone, Copy, Debug, PartialEq, Eq, Structural)]
pub struct ChunkRequest {
    /// When the points will play.
    pub start: StreamInstant,
    pub pps: u32,
    /// Points that are needed so that the device does not run dry.
    pub min_points: usize,
    /// Points that fill the device to its target.
    pub target_points: usize,
    /// Points that wait in the device.
    pub buffered_points: u64,
    /// How long those last, in nanoseconds.
    pub buffered: u128,
    /// Points that wait in the device, as it tells itself.
    pub device_queued_points: Option<u64>,
}

/// What a producer answers.
#[derive(Clone, Copy, Debug, PartialEq, Eq, Structural)]
pub enum ChunkResult {
    /// So many points were written to the buffer.
    Filled(usize),
    /// There is no data now.
    Starved,
    /// The stream is to end.
    End,
}

/// Why a stream has ended.
#[derive(Clone, Copy, Debug, PartialEq, Eq, Structural)]
pub enum RunExit {
    /// A stop was requested.
    Stopped,
    /// The producer has ended.
    ProducerEnded,
    /// The device is gone.
    Disconnected,
}

/// What a stream has done so far.
#[derive(Clone, Copy, Debug, PartialEq, Eq, Structural)]
pub struct StreamStats {
    pub underrun_count: u64,
    pub chunks_written: u64,
    pub points_written: u64,
}

/// The state of a stream as its user sees it.
#[derive(Clone, Copy, Debug, PartialEq, Eq, Structural)]
pub struct StreamStatus {
    pub connected: bool,
    pub scheduled_ahead_points: u64,
    pub device_queued_points: Option<u64>,
    pub stats: Option<StreamStats>,
}

/// A point that gets another color stays where it is and looks like that color; a blanked
/// point is dark.
pub proof fn color_leaves_the_place()
    ensures
        forall|p: &LaserPoint, c: Color, r: LaserPoint| #[trigger]
            call_ensures(LaserPoint::with_color, (p, c), r) ==> r.x == p.x && r.y == p.y && r.r
                == c.r && r.g == c.g && r.b == c.b && r.intensity == c.intensity,
        forall|p: &LaserPoint, c: Color| #[trigger]
            call_ensures(LaserPoint::color, (p,), c) ==> c.r == p.r && c.g == p.g && c.b == p.b
                && c.intensity == p.intensity,
        forall|x: u32, y: u32, r: LaserPoint| #[trigger]
            call_ensures(LaserPoint::blanked, (x, y), r) ==> r.x == x && r.y == y && r.r == 0 && r.g
                == 0 && r.b == 0 && r.intensity == 0,
        forall|x: u32, y: u32, red: u16, g: u16, b: u16, i: u16, p: LaserPoint| #[trigger]
            call_ensures(LaserPoint::new, (x, y, red, g, b, i), p) ==> p.x == x && p.y == y && p.r
                == red && p.g == g && p.b == b && p.intensity == i,
        forall|c: Color| #[trigger]
            call_ensures(Color::off, (), c) ==> c.r == 0 && c.g == 0 && c.b == 0 && c.intensity == 0,
{
}

/// A setting that is given replaces its own value and no other.
pub proof fn settings_are_independent()
    ensures
        forall|c: StreamConfig, v: u64, r: StreamConfig| #[trigger]
            call_ensures(StreamConfig::with_target_buffer, (c, v), r) ==> r.target_buffer == v
                && r.pps == c.pps && r.min_buffer == c.min_buffer && r.underrun == c.underrun
                && r.drain_timeout == c.drain_timeout && r.color_delay == c.color_delay
                && r.startup_blank == c.startup_blank,
        forall|c: StreamConfig, v: u64, r: StreamConfig| #[trigger]
            call_ensures(StreamConfig::with_min_buffer, (c, v), r) ==> r.min_buffer == v && r.pps
                == c.pps && r.target_buffer == c.target_buffer && r.underrun == c.underrun
                && r.drain_timeout == c.drain_timeout && r.color_delay == c.color_delay
                && r.startup_blank == c.startup_blank,
        forall|c: StreamConfig, v: UnderrunPolicy, r: StreamConfig| #[trigger]
            call_ensures(StreamConfig::with_underrun, (c, v), r) ==> r.underrun == v && r.pps
                == c.pps && r.target_buffer == c.target_buffer && r.min_buffer == c.min_buffer
                && r.drain_timeout == c.drain_timeout && r.color_delay == c.color_delay
                && r.startup_blank == c.startup_blank,
        forall|c: StreamConfig, v: u64, r: StreamConfig| #[trigger]
            call_ensures(StreamConfig::with_drain_timeout, (c, v), r) ==> r.drain_timeout == v
                && r.pps == c.pps && r.target_buffer == c.target_buffer && r.min_buffer
                == c.min_buffer && r.underrun == c.underrun && r.color_delay == c.color_delay
                && r.startup_blank == c.startup_blank,
        forall|c: StreamConfig, v: u64, r: StreamConfig| #[trigger]
            call_ensures(StreamConfig::with_color_delay, (c, v), r) ==> r.color_delay == v && r.pps
                == c.pps && r.target_buffer == c.target_buffer && r.min_buffer == c.min_buffer
                && r.underrun == c.underrun && r.drain_timeout == c.drain_timeout
                && r.startup_blank == c.startup_blank,
        forall|c: StreamConfig, v: u64, r: StreamConfig| #[trigger]
            call_ensures(StreamConfig::with_startup_blank, (c, v), r) ==> r.startup_blank == v
                && r.pps == c.pps && r.target_buffer == c.target_buffer && r.min_buffer
                == c.min_buffer && r.underrun == c.underrun && r.drain_timeout == c.drain_timeout
                && r.color_delay == c.color_delay,
        forall|pps: u32, r: StreamConfig| #[trigger]
            call_ensures(StreamConfig::new, (pps,), r) ==> r.pps == pps && r.min_buffer
                < r.target_buffer && r.color_delay == 0 && r.underrun is RepeatLast,
{
}

} // verus!
