//! Connected devices that can start streams.

use std::collections::VecDeque;

use vstd::prelude::*;
use vstd::string::*;

use crate::backend::StreamBackend;
use crate::device::{DacCapabilities, DacInfo, DacType};
use crate::error::Error;
use crate::stream::control::{ControlFlags, ControlMsg, StreamControl};
use crate::stream::{RunPhase, Stream, StreamState, StreamView};
use crate::text::{self, push_decimal, push_text};
use crate::types::{Color, LaserPoint, StreamConfig, StreamInstant, StreamStats, StreamStatus};

verus! {

impl StreamState {
    /// Create new stream state with pre-allocated buffers.
    pub fn new(max_points_per_chunk: usize) -> (r: StreamState)
        ensures
            r.current_instant.points == 0,
            r.scheduled_ahead == 0,
            r.chunk_buffer@ == Seq::new(
                max_points_per_chunk as nat,
                |i: int| LaserPoint::dark_at(0, 0),
            ),
            r.last_chunk@ == Seq::new(
                max_points_per_chunk as nat,
                |i: int| LaserPoint::dark_at(0, 0),
            ),
            r.last_chunk_len == 0,
            r.stats == (StreamStats { underrun_count: 0, chunks_written: 0, points_written: 0 }),
            !r.last_armed,
            !r.shutter_open,
            r.color_line@ == Seq::<Color>::empty(),
            r.startup_left == 0,
    {
        let chunk_buffer: Vec<LaserPoint> = vec![LaserPoint::blanked(0, 0); max_points_per_chunk];
        let last_chunk: Vec<LaserPoint> = vec![LaserPoint::blanked(0, 0); max_points_per_chunk];
        assert(chunk_buffer@ =~= Seq::new(
            max_points_per_chunk as nat,
            |i: int| LaserPoint::dark_at(0, 0),
        ));
        assert(last_chunk@ =~= chunk_buffer@);
        StreamState {
            current_instant: StreamInstant::new(0),
            scheduled_ahead: 0,
            chunk_buffer,
            last_chunk,
            last_chunk_len: 0,
            stats: StreamStats { underrun_count: 0, chunks_written: 0, points_written: 0 },
            last_armed: false,
            shutter_open: false,
            color_line: VecDeque::new(),
            startup_left: 0,
        }
    }
}

/// A stream that has not shown anything: disarmed, with the shutter closed.
pub open spec fn fresh_view(caps: DacCapabilities, config: StreamConfig) -> StreamView {
    let dark = Seq::new(caps.max_points_per_chunk as nat, |i: int| LaserPoint::dark_at(0, 0));
    StreamView {
        max_points: caps.max_points_per_chunk,
        config,
        instant: 0,
        ahead: 0,
        chunk: dark,
        last: dark,
        last_len: 0,
        stats: StreamStats { underrun_count: 0, chunks_written: 0, points_written: 0 },
        last_armed: false,
        shutter_open: false,
        line: Seq::empty(),
        startup_left: 0,
        last_iteration: 0,
        phase: RunPhase::Idle,
    }
}

/// A control handle that was made disarmed, and was then given the configured color
/// delay.
pub open spec fn fresh_control(control: StreamControl, config: StreamConfig) -> bool {
    &&& control.made_with(
        ControlFlags { armed: false, stop_requested: false, color_delay: 0 },
    )
    &&& control.delayed_by(config.color_delay)
}

impl<B> Stream<B> {
    /// Create a new stream with a backend.
    pub fn with_backend(info: DacInfo, backend: B, config: StreamConfig) -> (r: Stream<B>)
        ensures
            r.info == info,
            r.backend == Some(backend),
            r@ == fresh_view(info.caps, config),
            fresh_control(r.control, config),
    {
        let state = StreamState::new(info.caps.max_points_per_chunk);
        let control = StreamControl::new();
        control.set_color_delay(config.color_delay);
        Stream {
            info,
            backend: Some(backend),
            config,
            control,
            state,
            last_iteration: 0,
            phase: RunPhase::Idle,
        }
    }

    /// Returns the device info.
    pub fn info(&self) -> (r: &DacInfo)
        ensures
            *r == self.info,
    {
        &self.info
    }

    /// Returns the stream configuration.
    pub fn config(&self) -> (r: &StreamConfig)
        ensures
            *r == self.config,
    {
        &self.config
    }

    /// Returns a thread-safe control handle: the same as the stream's.
    pub fn control(&self) -> (r: StreamControl)
        ensures
            r == self.control,
    {
        self.control.clone()
    }

    /// Returns the current stream status, of a device that reports its connection and
    /// its queue as given.
    pub fn status_with(&self, connected: bool, queued: Option<u64>) -> (r: StreamStatus)
        ensures
            r == (StreamStatus {
                connected,
                scheduled_ahead_points: self.state.scheduled_ahead,
                device_queued_points: queued,
                stats: Some(self.state.stats),
            }),
    {
        StreamStatus {
            connected,
            scheduled_ahead_points: self.state.scheduled_ahead,
            device_queued_points: queued,
            stats: Some(self.state.stats),
        }
    }
}

impl<B: StreamBackend> Stream<B> {
    /// Returns the current stream status. A stream without a device is not connected
    /// and has no queue; otherwise the device tells.
    pub fn status(&self) -> (r: StreamStatus)
        ensures
            r.scheduled_ahead_points == self.state.scheduled_ahead,
            r.stats == Some(self.state.stats),
            match self.backend {
                Some(b) => call_ensures(B::is_connected, (&b,), r.connected) && call_ensures(
                    B::queued_points,
                    (&b,),
                    r.device_queued_points,
                ),
                None => !r.connected && r.device_queued_points is None,
            },
    {
        match &self.backend {
            Some(b) => self.status_with(b.is_connected(), b.queued_points()),
            None => self.status_with(false, None),
        }
    }

    /// Stop the stream and terminate output: the output is disarmed and the stream told
    /// to stop, then the shutter is closed, whatever the device says to that, and the
    /// device stopped. What the device answers to the stop is the result.
    pub fn stop(&mut self) -> (r: Result<(), Error>)
        ensures
            final(self)@ == old(self)@,
            final(self).info == old(self).info,
            final(self).control == old(self).control,
            old(self).control.told(ControlMsg::Disarm),
            old(self).control.told(ControlMsg::Stop),
            match old(self).backend {
                Some(backend) => exists|b: &mut B, shutter: Result<(), Error>, c: &mut B|
                    {
                        &&& *b == backend
                        &&& #[trigger] call_ensures(B::set_shutter, (b, false), shutter)
                        &&& *c == *final(b)
                        &&& #[trigger] call_ensures(B::stop, (c,), r)
                        &&& final(self).backend == Some(*final(c))
                    },
                None => r is Ok && final(self).backend is None,
            },
    {
        let _ = self.control.disarm();
        let _ = self.control.stop();
        match &mut self.backend {
            Some(backend) => {
                let _ = backend.set_shutter(false);
                backend.stop()
            },
            None => Ok(()),
        }
    }

    /// Consume the stream and recover the device for reuse. The output is disarmed and
    /// the stream told to stop, then the shutter is closed and the device stopped,
    /// whatever the device says to either.
    pub fn into_dac(self) -> (r: (Dac<B>, StreamStats))
        ensures
            r.0.info == self.info,
            r.1 == self.state.stats,
            self.control.told(ControlMsg::Disarm),
            self.control.told(ControlMsg::Stop),
            match self.backend {
                Some(backend) => exists|
                    b: &mut B,
                    shutter: Result<(), Error>,
                    c: &mut B,
                    stopped: Result<(), Error>,
                |
                    {
                        &&& *b == backend
                        &&& #[trigger] call_ensures(B::set_shutter, (b, false), shutter)
                        &&& *c == *final(b)
                        &&& #[trigger] call_ensures(B::stop, (c,), stopped)
                        &&& r.0.backend == Some(*final(c))
                    },
                None => r.0.backend is None,
            },
    {
        let mut stream = self;
        let _ = stream.stop();
        (Dac { info: stream.info, backend: stream.backend }, stream.state.stats)
    }
}

/// A connected device that can start streaming sessions.
///
/// When starting a stream, the device is consumed and the backend ownership
/// transfers to the stream.
pub struct Dac<B> {
    pub info: DacInfo,
    pub backend: Option<B>,
}

/// What is wrong with a rate that the device does not play.
pub open spec fn rate_fault(caps: DacCapabilities, pps: u32) -> Seq<char> {
    "PPS "@ + text::decimal(pps as nat) + " is outside device range ["@ + text::decimal(
        caps.pps_min as nat,
    ) + ", "@ + text::decimal(caps.pps_max as nat) + "]"@
}

/// Whether the device plays at the configured rate.
pub fn validate_config(caps: &DacCapabilities, cfg: &StreamConfig) -> (r: Result<(), Error>)
    ensures
        r is Ok <==> caps.pps_min <= cfg.pps <= caps.pps_max,
        r matches Err(e) ==> (e matches Error::InvalidConfig(m) && m@ == rate_fault(*caps, cfg.pps)),
{
    if cfg.pps < caps.pps_min || cfg.pps > caps.pps_max {
        let mut message = "PPS ".to_owned();
        push_decimal(&mut message, cfg.pps as u64);
        push_text(&mut message, " is outside device range [");
        push_decimal(&mut message, caps.pps_min as u64);
        push_text(&mut message, ", ");
        push_decimal(&mut message, caps.pps_max as u64);
        push_text(&mut message, "]");
        return Err(Error::InvalidConfig(message));
    }
    Ok(())
}

impl<B> Dac<B> {
    /// Create a new device from a backend.
    pub fn new(info: DacInfo, backend: B) -> (r: Dac<B>)
        ensures
            r.info == info,
            r.backend == Some(backend),
    {
        Dac { info, backend: Some(backend) }
    }

    /// Returns the device info.
    pub fn info(&self) -> (r: &DacInfo)
        ensures
            *r == self.info,
    {
        &self.info
    }

    /// Returns the device ID.
    pub fn id(&self) -> (r: &str)
        ensures
            r@ == self.info.id@,
    {
        self.info.id.as_str()
    }

    /// Returns the device name.
    pub fn name(&self) -> (r: &str)
        ensures
            r@ == self.info.name@,
    {
        self.info.name.as_str()
    }

    /// Returns the DAC type.
    pub fn kind(&self) -> (r: &DacType)
        ensures
            *r == self.info.kind,
    {
        &self.info.kind
    }

    /// Returns the device capabilities.
    pub fn caps(&self) -> (r: &DacCapabilities)
        ensures
            *r == self.info.caps,
    {
        &self.info.caps
    }

    /// Returns whether the device has a backend (not yet used for a stream).
    pub fn has_backend(&self) -> (r: bool)
        ensures
            r == (self.backend is Some),
    {
        self.backend.is_some()
    }

    /// Whether a stream with this configuration can be started, apart from the
    /// connection.
    pub fn check_start(&self, cfg: &StreamConfig) -> (r: Result<(), Error>)
        ensures
            r is Ok <==> self.backend is Some && self.info.caps.pps_min <= cfg.pps
                <= self.info.caps.pps_max,
            self.backend is None ==> (r matches Err(Error::InvalidConfig(m)) && m@
                == "device backend has already been used for a stream"@),
            self.backend is Some && r is Err ==> (r matches Err(Error::InvalidConfig(m)) && m@
                == rate_fault(self.info.caps, cfg.pps)),
    {
        if self.backend.is_none() {
            return Err(
                Error::invalid_config("device backend has already been used for a stream"),
            );
        }
        validate_config(&self.info.caps, cfg)
    }
}

/// A stream on a device whose connection attempt, if one was needed, ended like this.
pub fn stream_on<B>(
    info: DacInfo,
    backend: B,
    cfg: StreamConfig,
    connected: Result<(), Error>,
) -> (r: Result<(Stream<B>, DacInfo), Error>)
    ensures
        match connected {
            Ok(_) => {
                &&& r matches Ok((stream, returned))
                &&& returned == info
                &&& stream.info == info
                &&& stream.backend == Some(backend)
                &&& stream@ == fresh_view(info.caps, cfg)
                &&& fresh_control(stream.control, cfg)
            },
            Err(e) => r == Err::<(Stream<B>, DacInfo), Error>(e),
        },
{
    match connected {
        Ok(()) => {
            let stream = Stream::with_backend(info.clone(), backend, cfg);
            Ok((stream, info))
        },
        Err(e) => Err(e),
    }
}

impl<B: StreamBackend> Dac<B> {
    /// Returns whether the device is connected: what the backend answers, and never
    /// without a backend.
    pub fn is_connected(&self) -> (r: bool)
        ensures
            match self.backend {
                Some(b) => call_ensures(B::is_connected, (&b,), r),
                None => !r,
            },
    {
        match &self.backend {
            Some(b) => b.is_connected(),
            None => false,
        }
    }

    /// Starts a streaming session, consuming the device. A device that is not
    /// connected is connected first; if that fails, its error is returned.
    pub fn start_stream(self, cfg: StreamConfig) -> (r: Result<(Stream<B>, DacInfo), Error>)
        ensures
            r is Ok ==> self.backend is Some && self.info.caps.pps_min <= cfg.pps
                <= self.info.caps.pps_max,
            r matches Ok((stream, info)) ==> {
                &&& info == self.info
                &&& stream.info == self.info
                &&& stream.backend is Some
                &&& stream@ == fresh_view(self.info.caps, cfg)
                &&& fresh_control(stream.control, cfg)
            },
            self.backend is Some && self.info.caps.pps_min <= cfg.pps <= self.info.caps.pps_max ==> {
                let backend = self.backend->0;
                ||| {
                    &&& call_ensures(B::is_connected, (&backend,), true)
                    &&& r matches Ok((stream, _))
                    &&& stream.backend == Some(backend)
                }
                ||| {
                    &&& call_ensures(B::is_connected, (&backend,), false)
                    &&& exists|b: &mut B, connected: Result<(), Error>|
                        {
                            &&& *b == backend
                            &&& #[trigger] call_ensures(B::connect, (b,), connected)
                            &&& match connected {
                                Ok(_) => r matches Ok((stream, _)) && stream.backend == Some(
                                    *final(b),
                                ),
                                Err(e) => r == Err::<(Stream<B>, DacInfo), Error>(e),
                            }
                        }
                }
            },
            self.backend is None ==> (r matches Err(Error::InvalidConfig(m)) && m@
                == "device backend has already been used for a stream"@),
            self.backend is Some && !(self.info.caps.pps_min <= cfg.pps <= self.info.caps.pps_max)
                ==> (r matches Err(Error::InvalidConfig(m)) && m@ == rate_fault(
                self.info.caps,
                cfg.pps,
            )),
    {
        if let Err(e) = self.check_start(&cfg) {
            return Err(e);
        }
        let info = self.info;
        match self.backend {
            Some(b) => {
                let mut backend = b;
                let connected: Result<(), Error> = if backend.is_connected() {
                    Ok(())
                } else {
                    backend.connect()
                };
                stream_on(info, backend, cfg, connected)
            },
            None => Err(
                Error::invalid_config("device backend has already been used for a stream"),
            ),
        }
    }
}

} // verus!
