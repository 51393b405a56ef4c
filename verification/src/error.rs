//! Errors shared by the backends and the streaming layer.

use vstd::prelude::*;

verus! {

/// What went wrong in an I/O operation, as far as decisions depend on it.
#[derive(Clone, Copy, Debug, PartialEq, Eq, Structural)]
pub enum IoErrorKind {
    WouldBlock,
    TimedOut,
    NotFound,
    InvalidInput,
    InvalidData,
    BrokenPipe,
    ConnectionReset,
    Other,
}

/// An I/O error: its kind and a message for people.
#[derive(Clone, Debug)]
pub struct IoError {
    pub kind: IoErrorKind,
    pub message: String,
}

impl IoError {
    pub fn new(kind: IoErrorKind, message: &str) -> (r: IoError)
        ensures
            r.kind == kind,
            r.message@ == message@,
    {
        IoError { kind, message: message.to_owned() }
    }
}

/// Errors of the streaming layer.
#[derive(Clone, Debug)]
pub enum Error {
    /// The device is gone.
    Disconnected(String),
    /// The configuration does not fit the device.
    InvalidConfig(String),
    /// The backend failed.
    Backend(String),
    /// The operating system denied access to the device.
    PermissionDenied(String),
    /// A stop was requested.
    Stopped,
}

impl Error {
    pub fn disconnected(message: &str) -> (r: Error)
        ensures
            r matches Error::Disconnected(m) && m@ == message@,
    {
        Error::Disconnected(message.to_owned())
    }

    pub fn invalid_config(message: &str) -> (r: Error)
        ensures
            r matches Error::InvalidConfig(m) && m@ == message@,
    {
        Error::InvalidConfig(message.to_owned())
    }

    pub fn backend(message: &str) -> (r: Error)
        ensures
            r matches Error::Backend(m) && m@ == message@,
    {
        Error::Backend(message.to_owned())
    }

    pub fn usb_permission_denied(device: &str) -> (r: Error)
        ensures
            r matches Error::PermissionDenied(m) && m@ == device@,
    {
        Error::PermissionDenied(device.to_owned())
    }

    pub fn is_disconnected(&self) -> (r: bool)
        ensures
            r == (*self is Disconnected),
    {
        match self {
            Error::Disconnected(_) => true,
            _ => false,
        }
    }

    pub fn is_stopped(&self) -> (r: bool)
        ensures
            r == (*self is Stopped),
    {
        match self {
            Error::Stopped => true,
            _ => false,
        }
    }

    pub fn is_permission_denied(&self) -> (r: bool)
        ensures
            r == (*self is PermissionDenied),
    {
        match self {
            Error::PermissionDenied(_) => true,
            _ => false,
        }
    }
}

/// An error is of the kind that it was made as, of no other, and keeps what it says.
pub proof fn errors_are_told_apart()
    ensures
        forall|m: &str, e: Error| #[trigger]
            call_ensures(Error::disconnected, (m,), e) ==> e is Disconnected && e->Disconnected_0@
                == m@,
        forall|m: &str, e: Error| #[trigger]
            call_ensures(Error::invalid_config, (m,), e) ==> e is InvalidConfig
                && e->InvalidConfig_0@ == m@,
        forall|m: &str, e: Error| #[trigger]
            call_ensures(Error::backend, (m,), e) ==> e is Backend && e->Backend_0@ == m@,
        forall|m: &str, e: Error| #[trigger]
            call_ensures(Error::usb_permission_denied, (m,), e) ==> e is PermissionDenied
                && e->PermissionDenied_0@ == m@,
        forall|e: &Error, r: bool| #[trigger]
            call_ensures(Error::is_disconnected, (e,), r) ==> (r <==> e is Disconnected),
        forall|e: &Error, r: bool| #[trigger]
            call_ensures(Error::is_stopped, (e,), r) ==> (r <==> e is Stopped),
        forall|e: &Error, r: bool| #[trigger]
            call_ensures(Error::is_permission_denied, (e,), r) ==> (r <==> e is PermissionDenied),
        forall|kind: IoErrorKind, m: &str, e: IoError| #[trigger]
            call_ensures(IoError::new, (kind, m), e) ==> e.kind == kind && e.message@ == m@,
{
}

} // verus!
