//! IDN wire format: command codes, headers and point samples.

use vstd::prelude::*;

use crate::bytes::{self, byte_to_signed, push_be_i16, push_be_u16, push_be_u32, read_be_u16, read_be_u32};

verus! {

/// UDP port of IDN servers.
pub const IDN_PORT: u16 = 7255;

/// Largest UDP payload that a packet may fill.
pub const MAX_UDP_PAYLOAD: usize = 1454;

// Command codes.
pub const IDNCMD_PING_REQUEST: u8 = 0x08;
pub const IDNCMD_PING_RESPONSE: u8 = 0x09;
pub const IDNCMD_GROUP_REQUEST: u8 = 0x0C;
pub const IDNCMD_GROUP_RESPONSE: u8 = 0x0D;
pub const IDNCMD_SCAN_REQUEST: u8 = 0x10;
pub const IDNCMD_SCAN_RESPONSE: u8 = 0x11;
pub const IDNCMD_SERVICEMAP_REQUEST: u8 = 0x12;
pub const IDNCMD_SERVICEMAP_RESPONSE: u8 = 0x13;
pub const IDNCMD_SERVICE_PARAMS_REQUEST: u8 = 0x20;
pub const IDNCMD_SERVICE_PARAMS_RESPONSE: u8 = 0x21;
pub const IDNCMD_UNIT_PARAMS_REQUEST: u8 = 0x22;
pub const IDNCMD_UNIT_PARAMS_RESPONSE: u8 = 0x23;
pub const IDNCMD_RT_CNLMSG: u8 = 0x40;
pub const IDNCMD_RT_CNLMSG_ACKREQ: u8 = 0x41;
pub const IDNCMD_RT_CNLMSG_CLOSE: u8 = 0x44;
pub const IDNCMD_RT_CNLMSG_CLOSE_ACKREQ: u8 = 0x45;
pub const IDNCMD_RT_ACKNOWLEDGE: u8 = 0x47;

// Scan status flags.
pub const IDNFLG_SCAN_STATUS_MALFUNCTION: u8 = 0x80;
pub const IDNFLG_SCAN_STATUS_OFFLINE: u8 = 0x40;
pub const IDNFLG_SCAN_STATUS_EXCLUDED: u8 = 0x20;
pub const IDNFLG_SCAN_STATUS_OCCUPIED: u8 = 0x10;
pub const IDNFLG_SCAN_STATUS_REALTIME: u8 = 0x01;

// Service types and service map flags.
pub const IDNVAL_STYPE_UART: u8 = 0x04;
pub const IDNVAL_STYPE_DMX512: u8 = 0x05;
pub const IDNVAL_STYPE_LAPRO: u8 = 0x80;
pub const IDNFLG_SERVICEMAP_DSID: u8 = 0x01;

// Acknowledgement result codes.
pub const IDNVAL_RTACK_ERR_EMPTY_CLOSE: u8 = 0xEB;
pub const IDNVAL_RTACK_ERR_OCCUPIED: u8 = 0xEC;
pub const IDNVAL_RTACK_ERR_EXCLUDED: u8 = 0xED;
pub const IDNVAL_RTACK_ERR_INVALID_PAYLOAD: u8 = 0xEE;
pub const IDNVAL_RTACK_ERR_PROCESSING_ERROR: u8 = 0xEF;

// Content ids.
pub const IDNFLG_CONTENTID_CHANNELMSG: u16 = 0x8000;
pub const IDNFLG_CONTENTID_CONFIG_LSTFRG: u16 = 0x4000;
pub const IDNVAL_CNKTYPE_VOID: u8 = 0x00;
pub const IDNVAL_CNKTYPE_LPGRF_WAVE: u8 = 0x01;
pub const IDNVAL_CNKTYPE_LPGRF_FRAME: u8 = 0x02;
pub const IDNVAL_CNKTYPE_LPGRF_FRAME_FIRST: u8 = 0x03;
pub const IDNVAL_CNKTYPE_LPGRF_FRAME_SEQUEL: u8 = 0xC0;

// Channel configuration.
pub const IDNFLG_CHNCFG_ROUTING: u8 = 0x01;
pub const IDNFLG_CHNCFG_CLOSE: u8 = 0x02;
pub const IDNVAL_SMOD_LPGRF_CONTINUOUS: u8 = 0x01;
pub const IDNVAL_SMOD_LPGRF_DISCRETE: u8 = 0x02;

// Bytes per sample.
pub const XYRGBI_SAMPLE_SIZE: usize = 8;
pub const XYRGB_HIGHRES_SAMPLE_SIZE: usize = 10;
pub const EXTENDED_SAMPLE_SIZE: usize = 20;

// Group request operations.
pub const IDNVAL_GROUP_OP_GET: u8 = 0x01;
pub const IDNVAL_GROUP_OP_SET: u8 = 0x02;

/// The four-byte header every IDN packet starts with.
#[derive(Clone, Copy, Debug, PartialEq, Eq, Structural)]
pub struct PacketHeader {
    pub command: u8,
    pub flags: u8,
    pub sequence: u16,
}

impl PacketHeader {
    pub const SIZE_BYTES: usize = 4;

    pub open spec fn bytes(self) -> Seq<u8> {
        seq![self.command, self.flags] + bytes::be_u16_bytes(self.sequence)
    }

    /// The header at the start of a packet.
    pub open spec fn at_start(s: Seq<u8>) -> PacketHeader {
        PacketHeader { command: s[0], flags: s[1], sequence: bytes::be_u16(s, 2) }
    }

    pub fn write(&self, out: &mut Vec<u8>)
        ensures
            final(out)@ == old(out)@ + self.bytes(),
    {
        let ghost before = out@;
        out.push(self.command);
        out.push(self.flags);
        push_be_u16(out, self.sequence);
        assert(out@ =~= before + self.bytes());
    }

    pub fn read(data: &[u8]) -> (r: PacketHeader)
        requires
            data@.len() >= 4,
        ensures
            r == PacketHeader::at_start(data@),
    {
        PacketHeader { command: data[0], flags: data[1], sequence: read_be_u16(data, 2) }
    }
}

/// The eight-byte header of a channel message.
#[derive(Clone, Copy, Debug, PartialEq, Eq, Structural)]
pub struct ChannelMessageHeader {
    pub total_size: u16,
    pub content_id: u16,
    pub timestamp: u32,
}

impl ChannelMessageHeader {
    pub const SIZE_BYTES: usize = 8;

    pub open spec fn bytes(self) -> Seq<u8> {
        bytes::be_u16_bytes(self.total_size) + bytes::be_u16_bytes(self.content_id) + bytes::be_u32_bytes(self.timestamp)
    }

    pub fn write(&self, out: &mut Vec<u8>)
        ensures
            final(out)@ == old(out)@ + self.bytes(),
    {
        let ghost before = out@;
        push_be_u16(out, self.total_size);
        push_be_u16(out, self.content_id);
        push_be_u32(out, self.timestamp);
        assert(out@ =~= before + self.bytes());
    }
}

/// The four-byte header of a channel configuration.
#[derive(Clone, Copy, Debug, PartialEq, Eq, Structural)]
pub struct ChannelConfigHeader {
    pub word_count: u8,
    pub flags: u8,
    pub service_id: u8,
    pub service_mode: u8,
}

impl ChannelConfigHeader {
    pub const SIZE_BYTES: usize = 4;

    pub open spec fn bytes(self) -> Seq<u8> {
        seq![self.word_count, self.flags, self.service_id, self.service_mode]
    }

    pub fn write(&self, out: &mut Vec<u8>)
        ensures
            final(out)@ == old(out)@ + self.bytes(),
    {
        let ghost before = out@;
        out.push(self.word_count);
        out.push(self.flags);
        out.push(self.service_id);
        out.push(self.service_mode);
        assert(out@ =~= before + self.bytes());
    }
}

/// The four-byte header of a sample chunk: eight flag bits and a duration of 24
/// bits in microseconds.
#[derive(Clone, Copy, Debug, PartialEq, Eq, Structural)]
pub struct SampleChunkHeader {
    pub flags_duration: u32,
}

impl SampleChunkHeader {
    pub const SIZE_BYTES: usize = 4;

    /// The header word: the flags above the low 24 bits of the duration.
    pub open spec fn word(flags: u8, duration_us: u32) -> u32 {
        (flags * 0x100_0000 + duration_us % 0x100_0000) as u32
    }

    pub open spec fn bytes(self) -> Seq<u8> {
        bytes::be_u32_bytes(self.flags_duration)
    }

    pub fn new(flags: u8, duration_us: u32) -> (r: SampleChunkHeader)
        ensures
            r.flags_duration == SampleChunkHeader::word(flags, duration_us),
    {
        SampleChunkHeader { flags_duration: flags as u32 * 0x100_0000 + duration_us % 0x100_0000 }
    }

    pub fn write(&self, out: &mut Vec<u8>)
        ensures
            final(out)@ == old(out)@ + self.bytes(),
    {
        push_be_u32(out, self.flags_duration);
    }
}

/// A sample that can be streamed: a fixed number of bytes per point.
pub trait Point: Copy {
    /// Bytes per sample.
    spec fn size() -> int;

    /// The sample as it goes on the wire.
    spec fn bytes(self) -> Seq<u8>;

    /// Every sample of a format has the same size, which is one that fits many
    /// times into a packet.
    proof fn size_is_fixed(self)
        ensures
            self.bytes().len() == Self::size(),
            1 <= Self::size() <= 20,
    ;

    fn size_bytes() -> (r: usize)
        ensures
            r == Self::size(),
            1 <= r <= 20,
    ;

    fn write(&self, out: &mut Vec<u8>)
        ensures
            final(out)@ == old(out)@ + self.bytes(),
    ;
}

/// Standard sample: 16-bit position, 8-bit colors and intensity.
#[derive(Clone, Copy, Debug, PartialEq, Eq, Structural)]
pub struct PointXyrgbi {
    pub x: i16,
    pub y: i16,
    pub r: u8,
    pub g: u8,
    pub b: u8,
    pub i: u8,
}

impl PointXyrgbi {
    pub fn new(x: i16, y: i16, r: u8, g: u8, b: u8, i: u8) -> (p: PointXyrgbi)
        ensures
            p == (PointXyrgbi { x, y, r, g, b, i }),
    {
        PointXyrgbi { x, y, r, g, b, i }
    }
}

impl Point for PointXyrgbi {
    open spec fn size() -> int {
        8
    }

    open spec fn bytes(self) -> Seq<u8> {
        bytes::be_i16_bytes(self.x) + bytes::be_i16_bytes(self.y) + seq![self.r, self.g, self.b, self.i]
    }

    proof fn size_is_fixed(self) {
    }

    fn size_bytes() -> (r: usize) {
        XYRGBI_SAMPLE_SIZE
    }

    fn write(&self, out: &mut Vec<u8>) {
        let ghost before = out@;
        push_be_i16(out, self.x);
        push_be_i16(out, self.y);
        out.push(self.r);
        out.push(self.g);
        out.push(self.b);
        out.push(self.i);
        assert(out@ =~= before + self.bytes());
    }
}

/// High-resolution sample: 16-bit position and colors.
#[derive(Clone, Copy, Debug, PartialEq, Eq, Structural)]
pub struct PointXyrgbHighRes {
    pub x: i16,
    pub y: i16,
    pub r: u16,
    pub g: u16,
    pub b: u16,
}

impl Point for PointXyrgbHighRes {
    open spec fn size() -> int {
        10
    }

    open spec fn bytes(self) -> Seq<u8> {
        bytes::be_i16_bytes(self.x) + bytes::be_i16_bytes(self.y) + bytes::be_u16_bytes(self.r) + bytes::be_u16_bytes(self.g)
            + bytes::be_u16_bytes(self.b)
    }

    proof fn size_is_fixed(self) {
    }

    fn size_bytes() -> (r: usize) {
        XYRGB_HIGHRES_SAMPLE_SIZE
    }

    fn write(&self, out: &mut Vec<u8>) {
        let ghost before = out@;
        push_be_i16(out, self.x);
        push_be_i16(out, self.y);
        push_be_u16(out, self.r);
        push_be_u16(out, self.g);
        push_be_u16(out, self.b);
        assert(out@ =~= before + self.bytes());
    }
}

/// Extended sample: 16-bit position, colors, intensity and four user channels.
#[derive(Clone, Copy, Debug, PartialEq, Eq, Structural)]
pub struct PointExtended {
    pub x: i16,
    pub y: i16,
    pub r: u16,
    pub g: u16,
    pub b: u16,
    pub i: u16,
    pub u1: u16,
    pub u2: u16,
    pub u3: u16,
    pub u4: u16,
}

impl Point for PointExtended {
    open spec fn size() -> int {
        20
    }

    open spec fn bytes(self) -> Seq<u8> {
        bytes::be_i16_bytes(self.x) + bytes::be_i16_bytes(self.y) + bytes::be_u16_bytes(self.r) + bytes::be_u16_bytes(self.g)
            + bytes::be_u16_bytes(self.b) + bytes::be_u16_bytes(self.i) + bytes::be_u16_bytes(self.u1) + bytes::be_u16_bytes(
            self.u2,
        ) + bytes::be_u16_bytes(self.u3) + bytes::be_u16_bytes(self.u4)
    }

    proof fn size_is_fixed(self) {
    }

    fn size_bytes() -> (r: usize) {
        EXTENDED_SAMPLE_SIZE
    }

    fn write(&self, out: &mut Vec<u8>) {
        let ghost before = out@;
        push_be_i16(out, self.x);
        push_be_i16(out, self.y);
        push_be_u16(out, self.r);
        push_be_u16(out, self.g);
        push_be_u16(out, self.b);
        push_be_u16(out, self.i);
        push_be_u16(out, self.u1);
        push_be_u16(out, self.u2);
        push_be_u16(out, self.u3);
        push_be_u16(out, self.u4);
        assert(out@ =~= before + self.bytes());
    }
}

/// Acknowledgement of a channel message (12 bytes).
#[derive(Clone, Copy, Debug, PartialEq, Eq, Structural)]
pub struct AcknowledgeResponse {
    pub struct_size: u8,
    pub result_code: i8,
    pub input_event_flags: u16,
    pub pipeline_event_flags: u16,
    pub status_flags: u8,
    pub link_quality: u8,
    pub latency_us: u32,
}

impl AcknowledgeResponse {
    pub const SIZE_BYTES: usize = 12;

    /// The acknowledgement that follows the packet header.
    pub open spec fn in_packet(s: Seq<u8>) -> AcknowledgeResponse {
        AcknowledgeResponse {
            struct_size: s[4],
            result_code: bytes::signed_8(s[5]),
            input_event_flags: bytes::be_u16(s, 6),
            pipeline_event_flags: bytes::be_u16(s, 8),
            status_flags: s[10],
            link_quality: s[11],
            latency_us: bytes::be_u32(s, 12),
        }
    }

    pub fn read(data: &[u8]) -> (r: AcknowledgeResponse)
        requires
            data@.len() >= 16,
        ensures
            r == AcknowledgeResponse::in_packet(data@),
    {
        AcknowledgeResponse {
            struct_size: data[4],
            result_code: byte_to_signed(data[5]),
            input_event_flags: read_be_u16(data, 6),
            pipeline_event_flags: read_be_u16(data, 8),
            status_flags: data[10],
            link_quality: data[11],
            latency_us: read_be_u32(data, 12),
        }
    }
}

/// Answer to a parameter request (8 bytes).
#[derive(Clone, Copy, Debug, PartialEq, Eq, Structural)]
pub struct ParameterResponse {
    pub service_id: u8,
    pub result_code: i8,
    pub param_id: u16,
    pub value: u32,
}

impl ParameterResponse {
    pub const SIZE_BYTES: usize = 8;

    /// The parameter response that follows the packet header.
    pub open spec fn in_packet(s: Seq<u8>) -> ParameterResponse {
        ParameterResponse {
            service_id: s[4],
            result_code: bytes::signed_8(s[5]),
            param_id: bytes::be_u16(s, 6),
            value: bytes::be_u32(s, 8),
        }
    }

    pub fn read(data: &[u8]) -> (r: ParameterResponse)
        requires
            data@.len() >= 12,
        ensures
            r == ParameterResponse::in_packet(data@),
    {
        ParameterResponse {
            service_id: data[4],
            result_code: byte_to_signed(data[5]),
            param_id: read_be_u16(data, 6),
            value: read_be_u32(data, 8),
        }
    }
}

/// Answer to a group request (4 bytes).
#[derive(Clone, Copy, Debug, PartialEq, Eq, Structural)]
pub struct GroupResponse {
    pub struct_size: u8,
    pub op_code: i8,
    pub group_mask: u16,
}

impl GroupResponse {
    pub const SIZE_BYTES: usize = 4;

    /// The group response that follows the packet header.
    pub open spec fn in_packet(s: Seq<u8>) -> GroupResponse {
        GroupResponse { struct_size: s[4], op_code: bytes::signed_8(s[5]), group_mask: bytes::be_u16(s, 6) }
    }

    pub fn read(data: &[u8]) -> (r: GroupResponse)
        requires
            data@.len() >= 8,
        ensures
            r == GroupResponse::in_packet(data@),
    {
        GroupResponse {
            struct_size: data[4],
            op_code: byte_to_signed(data[5]),
            group_mask: read_be_u16(data, 6),
        }
    }
}

} // verus!
