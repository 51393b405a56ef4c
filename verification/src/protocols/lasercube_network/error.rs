//! LaserCube network protocol errors.

use vstd::prelude::*;
use vstd::string::*;

use crate::error::IoError;
use crate::text::push_text;

verus! {

#[derive(Clone, Debug)]
pub enum CommunicationError {
    Io(IoError),
    Protocol(String),
    WorkerStopped,
    QueueFull,
}

impl CommunicationError {
    /// What the error says to people.
    pub open spec fn text(self) -> Seq<char> {
        match self {
            CommunicationError::Io(e) => "I/O error: "@ + e.message@,
            CommunicationError::Protocol(m) => "protocol error: "@ + m@,
            CommunicationError::WorkerStopped => "worker stopped"@,
            CommunicationError::QueueFull => "host queue full"@,
        }
    }

    pub fn message(&self) -> (r: String)
        ensures
            r@ == self.text(),
    {
        match self {
            CommunicationError::Io(e) => {
                let mut out = "I/O error: ".to_owned();
                push_text(&mut out, e.message.as_str());
                out
            },
            CommunicationError::Protocol(m) => {
                let mut out = "protocol error: ".to_owned();
                push_text(&mut out, m.as_str());
                out
            },
            CommunicationError::WorkerStopped => "worker stopped".to_owned(),
            CommunicationError::QueueFull => "host queue full".to_owned(),
        }
    }
}

impl vstd::std_specs::convert::FromSpecImpl<IoError> for CommunicationError {
    open spec fn obeys_from_spec() -> bool {
        true
    }

    open spec fn from_spec(e: IoError) -> CommunicationError {
        CommunicationError::Io(e)
    }
}

impl From<IoError> for CommunicationError {
    fn from(e: IoError) -> (r: CommunicationError) {
        CommunicationError::Io(e)
    }
}

} // verus!
