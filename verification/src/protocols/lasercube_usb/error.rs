//! Error types for LaserCube USB DAC communication.

use vstd::prelude::*;
use vstd::string::*;

use crate::text::push_text;

verus! {

/// What went wrong on the USB bus.
#[derive(Clone, Copy, Debug, PartialEq, Eq, Structural)]
pub enum UsbErrorKind {
    Io,
    InvalidParam,
    Access,
    NoDevice,
    NotFound,
    Busy,
    Timeout,
    Overflow,
    Pipe,
    Interrupted,
    NoMem,
    NotSupported,
    BadDescriptor,
    Other,
}

/// A failed transfer: its kind, and what the bus says to people.
#[derive(Clone, Debug)]
pub struct UsbFailure {
    pub kind: UsbErrorKind,
    pub message: String,
}

/// Errors that can occur during LaserCube USB DAC operations.
#[derive(Clone, Debug)]
pub enum Error {
    /// USB communication error.
    Usb(UsbFailure),
    /// Device is not in the open state.
    DeviceNotOpened,
    /// Device returned invalid or unexpected data.
    InvalidResponse,
    /// Failed to initialize the device.
    InitializationFailed,
    /// Operation timed out.
    Timeout,
}

impl Error {
    /// What the error says to people.
    pub open spec fn text(self) -> Seq<char> {
        match self {
            Error::Usb(e) => "USB error: "@ + e.message@,
            Error::DeviceNotOpened => "device is not opened"@,
            Error::InvalidResponse => "invalid device response"@,
            Error::InitializationFailed => "device initialization failed"@,
            Error::Timeout => "operation timed out"@,
        }
    }

    pub fn message(&self) -> (r: String)
        ensures
            r@ == self.text(),
    {
        match self {
            Error::Usb(e) => {
                let mut out = "USB error: ".to_owned();
                push_text(&mut out, e.message.as_str());
                out
            },
            Error::DeviceNotOpened => "device is not opened".to_owned(),
            Error::InvalidResponse => "invalid device response".to_owned(),
            Error::InitializationFailed => "device initialization failed".to_owned(),
            Error::Timeout => "operation timed out".to_owned(),
        }
    }

    /// Whether this is what a transfer that stopped half way is reported as.
    pub open spec fn is_short_write(self) -> bool {
        self matches Error::Usb(e) && e.kind is Io && e.message@ == "Input/Output Error"@
    }

    /// A transfer stopped half way.
    pub fn short_write() -> (r: Error)
        ensures
            r.is_short_write(),
    {
        Error::Usb(
            UsbFailure { kind: UsbErrorKind::Io, message: "Input/Output Error".to_owned() },
        )
    }
}

/// A transfer error is told with what the bus says, and a transfer that stopped half way
/// is an I/O error.
pub proof fn bus_failures_are_told()
    ensures
        forall|e: &Error, r: String| #[trigger]
            call_ensures(Error::message, (e,), r) ==> (e matches Error::Usb(f) ==> r@
                == "USB error: "@ + f.message@),
        forall|e: Error| #[trigger]
            call_ensures(Error::short_write, (), e) ==> (e matches Error::Usb(f) && f.kind is Io
                && f.message@ == "Input/Output Error"@),
{
}

} // verus!
