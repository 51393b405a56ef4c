//! Error types for LaserCube WiFi DAC communication.

use vstd::prelude::*;
use vstd::string::*;

use crate::error::IoError;
use crate::text::push_text;

verus! {

/// Errors that may occur during communication with a LaserCube DAC.
#[derive(Clone, Debug)]
pub enum CommunicationError {
    /// An I/O error occurred (network, timeout, etc.).
    Io(IoError),
    /// Connection was not properly initialized.
    NotInitialized,
}

impl CommunicationError {
    /// What the error says to people.
    pub open spec fn text(self) -> Seq<char> {
        match self {
            CommunicationError::Io(e) => "I/O error: "@ + e.message@,
            CommunicationError::NotInitialized => "connection not initialized"@,
        }
    }

    pub fn message(&self) -> (r: String)
        ensures
            r@ == self.text(),
    {
        match self {
            CommunicationError::Io(e) => {
                let mut out = "I/O error: ".to_owned();
                push_text(&mut out, e.message.as_str());
                out
            },
            CommunicationError::NotInitialized => "connection not initialized".to_owned(),
        }
    }
}

impl vstd::std_specs::convert::FromSpecImpl<IoError> for CommunicationError {
    open spec fn obeys_from_spec() -> bool {
        true
    }

    open spec fn from_spec(e: IoError) -> CommunicationError {
        CommunicationError::Io(e)
    }
}

impl From<IoError> for CommunicationError {
    fn from(e: IoError) -> (r: CommunicationError) {
        CommunicationError::Io(e)
    }
}

} // verus!
