//! LaserCube network free-buffer response parsing.

use vstd::prelude::*;
use vstd::string::*;

use crate::bytes::{self, read_le_u16};
use crate::error::{IoError, IoErrorKind};
use crate::protocols::lasercube_network::protocol::CMD_GET_RINGBUFFER_EMPTY;
use crate::text::{self, hex_upper, push_decimal, push_text};

verus! {

#[derive(Copy, Clone, Debug, PartialEq, Eq, Structural)]
pub enum AckSource {
    Command,
    Data,
}

/// What the device says of its free space.
#[derive(Copy, Clone, Debug, PartialEq, Eq, Structural)]
pub struct BufferAck {
    pub source: AckSource,
    /// The sample packet that is answered; none on the command channel.
    pub packet_sequence: Option<u8>,
    pub free_space: u16,
}

/// Whether a datagram on a channel is an acknowledgment.
pub open spec fn is_ack(s: Seq<u8>, source: AckSource) -> bool {
    s.len() >= 4 && s[0] == 0x8A && (source is Command ==> s[1] == 0)
}

/// The acknowledgment that a datagram carries.
pub open spec fn ack_of(s: Seq<u8>, source: AckSource) -> BufferAck {
    BufferAck {
        source,
        packet_sequence: if source is Data {
            Some(s[1])
        } else {
            None
        },
        free_space: bytes::le_u16(s, 2),
    }
}

/// Why a datagram is no acknowledgment.
pub open spec fn ack_fault(s: Seq<u8>) -> Seq<char> {
    if s.len() < 4 {
        "LaserCube buffer ACK too short"@
    } else if s[0] != 0x8A {
        "unexpected ACK command byte: 0x"@ + text::hex_upper_of(seq![s[0]])
    } else {
        "command ACK status was nonzero: "@ + text::decimal(s[1] as nat)
    }
}

/// Read an answer on the command channel.
pub fn parse_command_ack(buffer: &[u8]) -> (r: Result<BufferAck, IoError>)
    ensures
        r is Ok <==> is_ack(buffer@, AckSource::Command),
        r matches Ok(ack) ==> ack == ack_of(buffer@, AckSource::Command),
        r matches Err(e) ==> e.kind == IoErrorKind::InvalidData && e.message@ == ack_fault(buffer@),
{
    parse_ack(buffer, AckSource::Command)
}

/// Read an answer on the data channel.
pub fn parse_data_ack(buffer: &[u8]) -> (r: Result<BufferAck, IoError>)
    ensures
        r is Ok <==> is_ack(buffer@, AckSource::Data),
        r matches Ok(ack) ==> ack == ack_of(buffer@, AckSource::Data),
        r matches Err(e) ==> e.kind == IoErrorKind::InvalidData && e.message@ == ack_fault(buffer@),
{
    parse_ack(buffer, AckSource::Data)
}

fn parse_ack(buffer: &[u8], source: AckSource) -> (r: Result<BufferAck, IoError>)
    ensures
        r is Ok <==> is_ack(buffer@, source),
        r matches Ok(ack) ==> ack == ack_of(buffer@, source),
        r matches Err(e) ==> e.kind == IoErrorKind::InvalidData && e.message@ == ack_fault(buffer@),
{
    if buffer.len() < 4 {
        return Err(IoError::new(IoErrorKind::InvalidData, "LaserCube buffer ACK too short"));
    }
    if buffer[0] != CMD_GET_RINGBUFFER_EMPTY {
        let mut message = "unexpected ACK command byte: 0x".to_owned();
        let command: [u8; 1] = [buffer[0]];
        assert(command@ =~= seq![buffer@[0]]);
        let hex = hex_upper(command.as_slice());
        push_text(&mut message, hex.as_str());
        return Err(IoError { kind: IoErrorKind::InvalidData, message });
    }
    if source == AckSource::Command && buffer[1] != 0 {
        let mut message = "command ACK status was nonzero: ".to_owned();
        push_decimal(&mut message, buffer[1] as u64);
        return Err(IoError { kind: IoErrorKind::InvalidData, message });
    }
    Ok(
        BufferAck {
            source,
            packet_sequence: if source == AckSource::Data {
                Some(buffer[1])
            } else {
                None
            },
            free_space: read_le_u16(buffer, 2),
        },
    )
}

/// What a device tells is read as it was told: the free space, least significant byte
/// first, and on the data channel the packet that it answers to. On the command channel an
/// answer counts only if it reports success, and names no packet.
pub proof fn told_space_is_read(s: Seq<u8>, sequence: u8, free_space: u16)
    requires
        s.len() >= 4,
        s[1] == sequence,
        s[2] == free_space % 256,
        s[3] == free_space / 256,
    ensures
        ack_of(s, AckSource::Data).free_space == free_space,
        ack_of(s, AckSource::Data).packet_sequence == Some(sequence),
        ack_of(s, AckSource::Data).source is Data,
        ack_of(s, AckSource::Command).free_space == free_space,
        ack_of(s, AckSource::Command).packet_sequence is None,
        ack_of(s, AckSource::Command).source is Command,
        is_ack(s, AckSource::Data) <==> s[0] == 0x8A,
        is_ack(s, AckSource::Command) <==> s[0] == 0x8A && sequence == 0,
{
}

/// What is too short is no answer, on either channel.
pub proof fn short_answers_are_refused(s: Seq<u8>, source: AckSource)
    requires
        s.len() < 4,
    ensures
        !is_ack(s, source),
{
}

/// An acknowledgment is read if it is one, and a refusal says that the data is wrong. The
/// channels differ in what the second byte means: only on that of commands is it a status.
pub proof fn acknowledgments_are_read()
    ensures
        forall|b: &[u8], r: Result<BufferAck, IoError>| #[trigger]
            call_ensures(parse_command_ack, (b,), r) ==> {
                &&& r is Ok <==> b@.len() >= 4 && b@[0] == 0x8A && b@[1] == 0
                &&& r matches Ok(ack) ==> ack.free_space == b@[2] + 256 * b@[3]
                &&& r matches Err(e) ==> e.kind is InvalidData
            },
        forall|b: &[u8], r: Result<BufferAck, IoError>| #[trigger]
            call_ensures(parse_data_ack, (b,), r) ==> {
                &&& r is Ok <==> b@.len() >= 4 && b@[0] == 0x8A
                &&& r matches Ok(ack) ==> ack.free_space == b@[2] + 256 * b@[3]
                    && ack.packet_sequence == Some(b@[1])
                &&& r matches Err(e) ==> e.kind is InvalidData
            },
{
}

} // verus!
