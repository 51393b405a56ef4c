//! LaserCube USB DAC streaming backend.

use vstd::prelude::*;
use vstd::string::*;

use crate::backend::WriteOutcome;
use crate::buffer_estimate::{self, SoftwareDecayEstimator};
use crate::device::{DacCapabilities, DacType};
use crate::error::Error;
use crate::protocols::lasercube_usb::dac::stream::Stream;
use crate::protocols::lasercube_usb::error::{Error as UsbError, UsbErrorKind};
use crate::protocols::lasercube_usb::{self, default_capabilities};
use crate::text::push_text;

verus! {

/// Whether a USB stream error means the device is gone (fatal) or the operation
/// can be retried against the same stream (transient).
#[derive(Debug, Clone, Copy, PartialEq, Eq, Structural)]
pub enum StreamErrorClass {
    Fatal,
    Transient,
}

/// Whether an error means that the device is gone.
pub open spec fn is_fatal(err: UsbError) -> bool {
    match err {
        UsbError::Usb(e) => e.kind is NoDevice || e.kind is Io || e.kind is Pipe,
        UsbError::DeviceNotOpened => true,
        _ => false,
    }
}

/// Classify a USB stream error. `NoDevice`/`Io`/`Pipe` and a not-opened stream
/// are fatal (the device is unusable); everything else, notably `Timeout`, is
/// transient.
pub fn classify_stream_error(err: &UsbError) -> (r: StreamErrorClass)
    ensures
        r == if is_fatal(*err) {
            StreamErrorClass::Fatal
        } else {
            StreamErrorClass::Transient
        },
{
    match err {
        UsbError::Usb(e) => match e.kind {
            UsbErrorKind::NoDevice | UsbErrorKind::Io | UsbErrorKind::Pipe => {
                StreamErrorClass::Fatal
            },
            _ => StreamErrorClass::Transient,
        },
        UsbError::DeviceNotOpened => StreamErrorClass::Fatal,
        _ => StreamErrorClass::Transient,
    }
}

/// Map an error from opening the USB stream into the public error type.
///
/// Denied access means that the operating system does not let the user at the
/// device; on Linux a udev rule is missing. Surfacing it as
/// [`Error::PermissionDenied`] lets consumers guide the user to the fix. Every
/// other open failure is a backend error.
pub fn map_open_error(err: UsbError) -> (r: Error)
    ensures
        ({
            let denied = err matches UsbError::Usb(e) && e.kind is Access;
            &&& denied ==> (r matches Error::PermissionDenied(m) && m@ == "laser-cube usb"@)
            &&& !denied ==> (r matches Error::Backend(m) && m@ == err.text())
        }),
{
    if let UsbError::Usb(e) = &err {
        if e.kind == UsbErrorKind::Access {
            return Error::usb_permission_denied("laser-cube usb");
        }
    }
    let message = err.message();
    Error::backend(message.as_str())
}

/// LaserCube USB DAC backend (LaserDock).
#[derive(Debug)]
pub struct LaserCubeUsbBackend {
    pub stream: Option<Stream>,
    pub caps: DacCapabilities,
    pub estimator: SoftwareDecayEstimator,
}

/// The public error of a stream error.
pub open spec fn is_reported_as(err: UsbError, r: Error) -> bool {
    if is_fatal(err) {
        r matches Error::Disconnected(m) && m@ == "USB device error: "@ + err.text()
    } else {
        r matches Error::Backend(m) && m@ == err.text()
    }
}

impl LaserCubeUsbBackend {
    pub fn new() -> (r: LaserCubeUsbBackend)
        ensures
            r.stream is None,
            r.caps == lasercube_usb::capabilities_at(35_000),
            r.estimator.wf(),
            r.estimator == (SoftwareDecayEstimator { scheduled: 0, fraction: 0, last: 0, pps: 0 }),
    {
        LaserCubeUsbBackend {
            stream: None,
            caps: default_capabilities(),
            estimator: SoftwareDecayEstimator::new(0),
        }
    }

    pub fn from_stream(stream: Stream) -> (r: LaserCubeUsbBackend)
        ensures
            r.stream == Some(stream),
            r.caps == lasercube_usb::capabilities_at(35_000),
            r.estimator.wf(),
            r.estimator == (SoftwareDecayEstimator { scheduled: 0, fraction: 0, last: 0, pps: 0 }),
    {
        LaserCubeUsbBackend {
            stream: Some(stream),
            caps: default_capabilities(),
            estimator: SoftwareDecayEstimator::new(0),
        }
    }

    pub fn dac_type(&self) -> (r: DacType)
        ensures
            r is LaserCubeUsb,
    {
        DacType::LaserCubeUsb
    }

    pub fn caps(&self) -> (r: &DacCapabilities)
        ensures
            *r == self.caps,
    {
        &self.caps
    }

    pub fn is_connected(&self) -> (r: bool)
        ensures
            r == (self.stream is Some),
    {
        self.stream.is_some()
    }

    /// Take a stream whose output is enabled. Its highest rate, if it tells one, is
    /// the backend's. A backend that is connected already stays as it is.
    pub fn connect(&mut self, stream: Stream)
        ensures
            old(self).stream is Some ==> *final(self) == *old(self),
            old(self).stream is None ==> *final(self) == (LaserCubeUsbBackend {
                stream: Some(stream),
                caps: if stream.info.max_dac_rate > 0 {
                    DacCapabilities { pps_max: stream.info.max_dac_rate, ..old(self).caps }
                } else {
                    old(self).caps
                },
                ..*old(self)
            }),
    {
        if self.stream.is_some() {
            return;
        }
        if stream.info.max_dac_rate > 0 {
            self.caps.pps_max = stream.info.max_dac_rate;
        }
        self.stream = Some(stream);
    }

    pub fn disconnect(&mut self)
        ensures
            *final(self) == (LaserCubeUsbBackend { stream: None, ..*old(self) }),
    {
        self.stream = None;
    }

    /// Handle a stream error by classifying it as fatal (disconnected) or
    /// transient. Fatal errors clear the stream and report `disconnected`;
    /// transient errors are surfaced as a backend error with the stream intact.
    pub fn handle_stream_error(&mut self, err: UsbError) -> (r: Error)
        ensures
            is_reported_as(err, r),
            *final(self) == (LaserCubeUsbBackend {
                stream: if is_fatal(err) {
                    None
                } else {
                    old(self).stream
                },
                ..*old(self)
            }),
    {
        let message = err.message();
        match classify_stream_error(&err) {
            StreamErrorClass::Fatal => {
                self.stream = None;
                let mut out = "USB device error: ".to_owned();
                push_text(&mut out, message.as_str());
                Error::Disconnected(out)
            },
            StreamErrorClass::Transient => Error::backend(message.as_str()),
        }
    }

    /// The end of a write of `n` points. On success the result holds the rate that
    /// the device plays at, which is what the buffer model has to follow: with a
    /// higher one it would drain before the hardware does.
    pub fn write_finished(&mut self, now: u64, n: u64, result: Result<u32, UsbError>) -> (r: Result<
        WriteOutcome,
        Error,
    >)
        requires
            old(self).estimator.wf(),
            old(self).estimator.scheduled + n <= u64::MAX,
        ensures
            final(self).estimator.wf(),
            final(self).caps == old(self).caps,
            r is Ok <==> result is Ok,
            result matches Ok(effective_pps) ==> {
                &&& r == Ok::<WriteOutcome, Error>(WriteOutcome::Written)
                &&& final(self).stream == old(self).stream
                &&& final(self).estimator == old(self).estimator.after_send(now, n, effective_pps)
            },
            result matches Err(err) ==> {
                &&& r matches Err(e) && is_reported_as(err, e)
                &&& final(self).estimator == old(self).estimator
                &&& final(self).stream == if is_fatal(err) {
                    None
                } else {
                    old(self).stream
                }
            },
    {
        match result {
            Ok(effective_pps) => {
                self.estimator.record_send(now, n, effective_pps);
                Ok(WriteOutcome::Written)
            },
            Err(e) => Err(self.handle_stream_error(e)),
        }
    }

    /// The device's ring buffer was cleared; drop the software estimate so it agrees
    /// with the device.
    pub fn buffer_reset(&mut self, now: u64)
        ensures
            final(self).estimator.wf(),
            *final(self) == (LaserCubeUsbBackend {
                estimator: SoftwareDecayEstimator {
                    scheduled: 0,
                    fraction: 0,
                    last: now,
                    ..old(self).estimator
                },
                ..*old(self)
            }),
    {
        self.estimator.reset(now);
    }
}

/// What a write without a device is answered.
pub fn not_connected() -> (r: Error)
    ensures
        r matches Error::Disconnected(m) && m@ == "Not connected"@,
{
    Error::disconnected("Not connected")
}

/// A timeout never costs the stream; a device that is gone always does.
pub proof fn timeouts_are_transient(err: UsbError)
    ensures
        err is Timeout ==> !is_fatal(err),
        err matches UsbError::Usb(e) ==> (e.kind is Timeout ==> !is_fatal(err)) && (e.kind is NoDevice
            ==> is_fatal(err)),
{
}

/// A device is given up just when it is gone or was never opened: the error says so, and
/// the stream is dropped. With any other error the stream stays.
pub proof fn lost_device_is_given_up()
    ensures
        forall|b: &mut LaserCubeUsbBackend, err: UsbError, r: Error|
            #[trigger] call_ensures(LaserCubeUsbBackend::handle_stream_error, (b, err), r) ==> {
                let lost = err is DeviceNotOpened || (err matches UsbError::Usb(e) && (e.kind
                    is NoDevice || e.kind is Io || e.kind is Pipe));
                &&& lost <==> r is Disconnected
                &&& !lost <==> r is Backend
                &&& lost ==> final(b).stream is None
                &&& !lost ==> final(b).stream == b.stream
                &&& final(b).estimator == b.estimator
                &&& final(b).caps == b.caps
            },
        forall|err: &UsbError, r: StreamErrorClass|
            #[trigger] call_ensures(classify_stream_error, (err,), r) ==> (r is Fatal <==> (*err
                is DeviceNotOpened || (*err matches UsbError::Usb(e) && (e.kind is NoDevice
                || e.kind is Io || e.kind is Pipe)))),
{
}

/// Points that were written wait for output, at the rate that the device plays; points
/// that were not do not.
pub proof fn written_points_wait()
    ensures
        forall|
            b: &mut LaserCubeUsbBackend,
            now: u64,
            n: u64,
            result: Result<u32, UsbError>,
            r: Result<WriteOutcome, Error>,
        |
            #[trigger] call_ensures(
                LaserCubeUsbBackend::write_finished,
                (b, now, n, result),
                r,
            ) && b.estimator.wf() && b.estimator.scheduled + n <= u64::MAX ==> {
                &&& r is Ok <==> result is Ok
                &&& r is Ok ==> r->Ok_0 is Written
                &&& result matches Ok(rate) ==> {
                    &&& final(b).estimator.scheduled == b.estimator.at(now).scheduled + n
                    &&& final(b).estimator.pps == rate
                    &&& final(b).stream == b.stream
                }
                &&& result is Err ==> final(b).estimator == b.estimator
            },
{
    assert forall|
        b: &mut LaserCubeUsbBackend,
        now: u64,
        n: u64,
        result: Result<u32, UsbError>,
        r: Result<WriteOutcome, Error>,
    |
        #[trigger] call_ensures(LaserCubeUsbBackend::write_finished, (b, now, n, result), r)
            && b.estimator.wf() && b.estimator.scheduled + n <= u64::MAX && result is Ok implies (
    final(b).estimator.scheduled == b.estimator.at(now).scheduled + n) by {
        buffer_estimate::sent_points_wait(b.estimator, now, n, result->Ok_0);
    }
}

/// A device that is connected plays up to the highest rate it tells, and nothing waits in
/// a buffer that was cleared.
pub proof fn connected_device_sets_the_limit()
    ensures
        forall|b: &mut LaserCubeUsbBackend, s: Stream|
            #[trigger] call_ensures(LaserCubeUsbBackend::connect, (b, s), ()) ==> {
                &&& b.stream is Some ==> *final(b) == *b
                &&& b.stream is None ==> final(b).stream == Some(s)
                &&& b.stream is None && s.info.max_dac_rate > 0 ==> final(b).caps.pps_max
                    == s.info.max_dac_rate
                &&& b.stream is None && s.info.max_dac_rate == 0 ==> final(b).caps == b.caps
            },
        forall|b: &mut LaserCubeUsbBackend, now: u64|
            #[trigger] call_ensures(LaserCubeUsbBackend::buffer_reset, (b, now), ()) ==> {
                &&& final(b).estimator.scheduled == 0
                &&& final(b).estimator.at(now).scheduled == 0
                &&& final(b).stream == b.stream
            },
{
}

/// A device that may not be opened is told apart from one that failed; one that is closed
/// keeps its limits.
pub proof fn denied_access_is_told_apart()
    ensures
        forall|e: UsbError, r: Error| #[trigger]
            call_ensures(map_open_error, (e,), r) ==> {
                let denied = e matches UsbError::Usb(f) && f.kind is Access;
                &&& denied <==> r is PermissionDenied
                &&& !denied <==> r is Backend
                &&& r matches Error::Backend(m) ==> m@ == e.text()
            },
        forall|b: &mut LaserCubeUsbBackend| #[trigger]
            call_ensures(LaserCubeUsbBackend::disconnect, (b,), ()) ==> final(b).stream is None
                && final(b).caps == b.caps && final(b).estimator == b.estimator,
        forall|b: &LaserCubeUsbBackend, r: bool| #[trigger]
            call_ensures(LaserCubeUsbBackend::is_connected, (b,), r) ==> (r <==> b.stream is Some),
        forall|b: LaserCubeUsbBackend| #[trigger]
            call_ensures(LaserCubeUsbBackend::new, (), b) ==> b.stream is None && b.caps.pps_max
                == 35_000 && b.estimator.scheduled == 0,
        forall|s: Stream, b: LaserCubeUsbBackend| #[trigger]
            call_ensures(LaserCubeUsbBackend::from_stream, (s,), b) ==> b.stream == Some(s)
                && b.caps.pps_max == 35_000 && b.estimator.scheduled == 0,
{
}

} // verus!
