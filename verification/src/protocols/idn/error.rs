//! Error types for the IDN DAC protocol.
//!
//! Three layers: I/O errors from network operations, protocol errors from
//! invalid data, and response errors from what a DAC answers.

use vstd::prelude::*;
use vstd::string::*;

use crate::error::IoError;
use crate::text::{self, push_decimal, push_text};

verus! {

/// Top-level communication error that encompasses all error types.
#[derive(Clone, Debug)]
pub enum CommunicationError {
    /// An I/O error occurred (network, socket, etc.)
    Io(IoError),
    /// A protocol-level error occurred (invalid data format)
    Protocol(ProtocolError),
    /// An error in the DAC's response
    Response(ResponseError),
}

/// Protocol-level errors for invalid or malformed data.
#[derive(Clone, Copy, Debug, PartialEq, Eq, Structural)]
pub enum ProtocolError {
    /// Invalid packet header
    InvalidPacketHeader,
    /// Unknown command byte
    UnknownCommand(u8),
    /// Unknown service type
    UnknownServiceType(u8),
    /// Packet exceeds maximum UDP payload size
    PacketTooLarge,
    /// Invalid scan response
    InvalidScanResponse,
    /// Invalid service map response
    InvalidServiceMapResponse,
    /// Buffer too small for operation
    BufferTooSmall,
    /// Invalid point format
    InvalidPointFormat,
    /// A response carries another sequence number than its request
    SequenceMismatch { expected: u16, actual: u16 },
}

/// Errors from DAC responses.
#[derive(Clone, Copy, Debug, PartialEq, Eq, Structural)]
pub enum ResponseError {
    /// Timeout waiting for response
    Timeout,
    /// Unexpected response received
    UnexpectedResponse,
    /// Not connected to a service
    NotConnected,
    /// All sessions on the DAC are occupied
    Occupied,
    /// Client group is excluded from streaming
    Excluded,
    /// Invalid payload in request
    InvalidPayload,
    /// Generic processing error
    GenericError,
    /// Unknown acknowledgment code
    UnknownAckCode(i8),
}

impl ResponseError {
    /// The error an acknowledgment result code stands for: none for codes that
    /// are not negative.
    pub open spec fn of_ack_code(code: i8) -> Option<ResponseError> {
        if code >= 0 {
            None
        } else if code == -21 {
            Some(ResponseError::NotConnected)
        } else if code == -20 {
            Some(ResponseError::Occupied)
        } else if code == -19 {
            Some(ResponseError::Excluded)
        } else if code == -18 {
            Some(ResponseError::InvalidPayload)
        } else if code == -17 {
            Some(ResponseError::GenericError)
        } else {
            Some(ResponseError::UnknownAckCode(code))
        }
    }

    /// Create a ResponseError from an IDN acknowledgment result code.
    pub fn from_ack_code(code: i8) -> (r: Option<ResponseError>)
        ensures
            r == ResponseError::of_ack_code(code),
    {
        if code >= 0 {
            None
        } else if code == -21 {
            Some(ResponseError::NotConnected)
        } else if code == -20 {
            Some(ResponseError::Occupied)
        } else if code == -19 {
            Some(ResponseError::Excluded)
        } else if code == -18 {
            Some(ResponseError::InvalidPayload)
        } else if code == -17 {
            Some(ResponseError::GenericError)
        } else {
            Some(ResponseError::UnknownAckCode(code))
        }
    }

    /// The text of the error.
    pub open spec fn text(self) -> Seq<char> {
        match self {
            ResponseError::Timeout => "timeout waiting for response"@,
            ResponseError::UnexpectedResponse => "unexpected response"@,
            ResponseError::NotConnected => "not connected to a service"@,
            ResponseError::Occupied => "all sessions are occupied"@,
            ResponseError::Excluded => "client group is excluded from streaming"@,
            ResponseError::InvalidPayload => "invalid payload in request"@,
            ResponseError::GenericError => "generic processing error"@,
            ResponseError::UnknownAckCode(code) => "unknown acknowledgment code: "@ + (if code < 0 {
                "-"@ + text::decimal((-code) as nat)
            } else {
                text::decimal(code as nat)
            }),
        }
    }

    /// The message of the error.
    pub fn message(&self) -> (r: String)
        ensures
            r@ == self.text(),
    {
        match self {
            ResponseError::Timeout => "timeout waiting for response".to_owned(),
            ResponseError::UnexpectedResponse => "unexpected response".to_owned(),
            ResponseError::NotConnected => "not connected to a service".to_owned(),
            ResponseError::Occupied => "all sessions are occupied".to_owned(),
            ResponseError::Excluded => "client group is excluded from streaming".to_owned(),
            ResponseError::InvalidPayload => "invalid payload in request".to_owned(),
            ResponseError::GenericError => "generic processing error".to_owned(),
            ResponseError::UnknownAckCode(code) => {
                let mut out = "unknown acknowledgment code: ".to_owned();
                if *code < 0 {
                    push_text(&mut out, "-");
                    push_decimal(&mut out, (-(*code as i64)) as u64);
                } else {
                    push_decimal(&mut out, *code as u64);
                }
                proof {
                    assert(out@ =~= self.text());
                }
                out
            },
        }
    }
}

impl ProtocolError {
    /// The text of the error.
    pub open spec fn text(self) -> Seq<char> {
        match self {
            ProtocolError::InvalidPacketHeader => "invalid packet header"@,
            ProtocolError::UnknownCommand(cmd) => "unknown command: 0x"@ + text::hex_lower_of(
                seq![cmd],
            ),
            ProtocolError::UnknownServiceType(t) => "unknown service type: 0x"@
                + text::hex_lower_of(seq![t]),
            ProtocolError::PacketTooLarge => "packet exceeds maximum UDP payload size"@,
            ProtocolError::InvalidScanResponse => "invalid scan response"@,
            ProtocolError::InvalidServiceMapResponse => "invalid service map response"@,
            ProtocolError::BufferTooSmall => "buffer too small for operation"@,
            ProtocolError::InvalidPointFormat => "invalid point format"@,
            ProtocolError::SequenceMismatch { expected, actual } => "sequence mismatch: expected "@
                + text::decimal(expected as nat) + ", got "@ + text::decimal(actual as nat),
        }
    }

    /// The message of the error.
    pub fn message(&self) -> (r: String)
        ensures
            r@ == self.text(),
    {
        match self {
            ProtocolError::InvalidPacketHeader => "invalid packet header".to_owned(),
            ProtocolError::UnknownCommand(cmd) => {
                let mut out = "unknown command: 0x".to_owned();
                let bytes: [u8; 1] = [*cmd];
                assert(bytes@ =~= seq![*cmd]);
                let hex = text::hex_lower(bytes.as_slice());
                push_text(&mut out, hex.as_str());
                out
            },
            ProtocolError::UnknownServiceType(t) => {
                let mut out = "unknown service type: 0x".to_owned();
                let bytes: [u8; 1] = [*t];
                assert(bytes@ =~= seq![*t]);
                let hex = text::hex_lower(bytes.as_slice());
                push_text(&mut out, hex.as_str());
                out
            },
            ProtocolError::PacketTooLarge => "packet exceeds maximum UDP payload size".to_owned(),
            ProtocolError::InvalidScanResponse => "invalid scan response".to_owned(),
            ProtocolError::InvalidServiceMapResponse => "invalid service map response".to_owned(),
            ProtocolError::BufferTooSmall => "buffer too small for operation".to_owned(),
            ProtocolError::InvalidPointFormat => "invalid point format".to_owned(),
            ProtocolError::SequenceMismatch { expected, actual } => {
                let mut out = "sequence mismatch: expected ".to_owned();
                push_decimal(&mut out, *expected as u64);
                push_text(&mut out, ", got ");
                push_decimal(&mut out, *actual as u64);
                out
            },
        }
    }
}

impl CommunicationError {
    /// The text of the error.
    pub open spec fn text(self) -> Seq<char> {
        match self {
            CommunicationError::Io(e) => "I/O error: "@ + e.message@,
            CommunicationError::Protocol(e) => "protocol error: "@ + e.text(),
            CommunicationError::Response(e) => "response error: "@ + e.text(),
        }
    }

    /// The message of the error.
    pub fn message(&self) -> (r: String)
        ensures
            r@ == self.text(),
    {
        match self {
            CommunicationError::Io(e) => {
                let mut out = "I/O error: ".to_owned();
                push_text(&mut out, e.message.as_str());
                out
            },
            CommunicationError::Protocol(e) => {
                let mut out = "protocol error: ".to_owned();
                push_text(&mut out, e.message().as_str());
                out
            },
            CommunicationError::Response(e) => {
                let mut out = "response error: ".to_owned();
                push_text(&mut out, e.message().as_str());
                out
            },
        }
    }
}

/// An error is told with what stands behind it.
pub proof fn causes_are_told()
    ensures
        forall|e: &CommunicationError, r: String| #[trigger]
            call_ensures(CommunicationError::message, (e,), r) ==> match *e {
                CommunicationError::Io(c) => r@ == "I/O error: "@ + c.message@,
                CommunicationError::Protocol(c) => r@ == "protocol error: "@ + c.text(),
                CommunicationError::Response(c) => r@ == "response error: "@ + c.text(),
            },
        forall|e: &ProtocolError, r: String| #[trigger]
            call_ensures(ProtocolError::message, (e,), r) ==> match *e {
                ProtocolError::UnknownCommand(c) => r@ == "unknown command: 0x"@ + text::hex_lower_of(
                    seq![c],
                ),
                ProtocolError::UnknownServiceType(t) => r@ == "unknown service type: 0x"@
                    + text::hex_lower_of(seq![t]),
                ProtocolError::SequenceMismatch { expected, actual } => r@
                    == "sequence mismatch: expected "@ + text::decimal(expected as nat) + ", got "@
                    + text::decimal(actual as nat),
                _ => true,
            },
        forall|e: &ResponseError, r: String| #[trigger]
            call_ensures(ResponseError::message, (e,), r) ==> (e matches
                ResponseError::UnknownAckCode(code) ==> {
                &&& code < 0 ==> r@ == "unknown acknowledgment code: "@ + ("-"@ + text::decimal(
                    (-code) as nat,
                ))
                &&& code >= 0 ==> r@ == "unknown acknowledgment code: "@ + text::decimal(code as nat)
            }),
{
}

} // verus!
