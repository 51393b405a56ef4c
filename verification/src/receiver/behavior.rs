//! How a receiver answers, and what it does with the points it gets.

use vstd::prelude::*;

use crate::net::SocketAddr;
use crate::receiver::constants::IDNFLG_STATUS_REALTIME;
use crate::receiver::parser::{ChunkType, ParsedChunk, ReceivedPoint, SampleFormat};

verus! {

/// Borrowed parsed IDN channel-message data delivered to [`ServerBehavior`].
///
/// This preserves the protocol metadata needed to reconstruct logical frames
/// across multiple UDP packets while keeping the point slice borrowed from the
/// parser-owned chunk for the duration of the callback.
#[derive(Clone, Copy, Debug)]
pub struct ReceivedChunk<'a> {
    /// UDP source address for this channel message.
    pub source_addr: SocketAddr,
    /// Packet sequence number from the IDN packet header.
    pub sequence: u16,
    /// Raw channel-message content id.
    pub content_id: u16,
    /// Six-bit channel id parsed from the content id.
    pub channel_id: u8,
    /// Chunk type parsed from the content id.
    pub chunk_type: ChunkType,
    /// Raw state of the CONFIG/LSTFRG content-id bit (`0x4000`).
    pub config_or_last_fragment: bool,
    /// Whether this message contains a channel configuration header.
    pub has_config: bool,
    /// Whether this chunk completes a discrete frame.
    pub is_last_fragment: bool,
    /// Timestamp from the channel message header (u32, microseconds, wraps).
    pub timestamp_us_u32: u32,
    /// Duration of this chunk in microseconds.
    pub duration_us: u32,
    /// Sample format used for this chunk.
    pub format: SampleFormat,
    /// Parsed points in this chunk.
    pub points: &'a [ReceivedPoint],
}

impl<'a> ReceivedChunk<'a> {
    /// A parsed chunk and where it came from.
    pub fn new(source_addr: SocketAddr, chunk: &'a ParsedChunk) -> (r: ReceivedChunk<'a>)
        ensures
            r.source_addr == source_addr,
            r.sequence == chunk.sequence,
            r.content_id == chunk.content_id,
            r.channel_id == chunk.channel_id,
            r.chunk_type == chunk.chunk_type,
            r.config_or_last_fragment == chunk.config_or_last_fragment,
            r.has_config == chunk.has_config,
            r.is_last_fragment == chunk.is_last_fragment,
            r.timestamp_us_u32 == chunk.timestamp_us_u32,
            r.duration_us == chunk.duration_us,
            r.format == chunk.format,
            r.points@ == chunk.points@,
    {
        ReceivedChunk {
            source_addr,
            sequence: chunk.sequence,
            content_id: chunk.content_id,
            channel_id: chunk.channel_id,
            chunk_type: chunk.chunk_type,
            config_or_last_fragment: chunk.config_or_last_fragment,
            has_config: chunk.has_config,
            is_last_fragment: chunk.is_last_fragment,
            timestamp_us_u32: chunk.timestamp_us_u32,
            duration_us: chunk.duration_us,
            format: chunk.format,
            points: chunk.points.as_slice(),
        }
    }
}

/// Behavior hooks for customizing receiver responses.
///
/// Implement this trait to control how the server responds to various events
/// and commands, and to consume incoming point streams.
pub trait ServerBehavior {
    /// Called for every packet received, before any command processing.
    fn on_packet_received(&mut self, _raw_data: &[u8])
        default_ensures
            &*final(self) == &*old(self),
    {
    }

    /// Called when raw frame data is received (RT_CNLMSG or RT_CNLMSG_ACKREQ).
    fn on_frame_received(&mut self, _raw_data: &[u8])
        default_ensures
            &*final(self) == &*old(self),
    {
    }

    /// Called once per parsed channel message with protocol metadata and points.
    ///
    /// By default the points are forwarded to [`Self::on_points_received`].
    fn on_chunk_received(&mut self, chunk: ReceivedChunk<'_>)
        default_ensures
            exists|b: &mut Self|
                {
                    &&& &*b == &*old(self)
                    &&& #[trigger] call_ensures(Self::on_points_received, (b, chunk.points), ())
                    &&& &*final(b) == &*final(self)
                },
    {
        self.on_points_received(chunk.points);
    }

    /// Called once per channel message with the parsed points.
    fn on_points_received(&mut self, _points: &[ReceivedPoint])
        default_ensures
            &*final(self) == &*old(self),
    {
    }

    /// Whether to respond to a given command.
    fn should_respond(&self, command: u8) -> bool;

    /// Get the status byte for scan responses.
    fn get_status_byte(&self) -> u8;

    /// Get the ACK result code for frame acknowledgments: `0x00` for success, or
    /// an error code.
    fn get_ack_result_code(&self) -> u8;

    /// Optional pre-processing latency to simulate network delay, in nanoseconds.
    fn get_simulated_latency(&self) -> (r: u64)
        default_ensures
            r == 0,
    {
        0
    }

    /// Called when a client connects (first frame received from new address).
    fn on_client_connected(&mut self, _addr: SocketAddr)
        default_ensures
            &*final(self) == &*old(self),
    {
    }

    /// Called when a client disconnects (timeout or force disconnect).
    fn on_client_disconnected(&mut self)
        default_ensures
            &*final(self) == &*old(self),
    {
    }

    /// Check if the current client should be force-disconnected.
    fn should_force_disconnect(&mut self) -> (r: bool)
        default_ensures
            !r,
    {
        false
    }

    /// Whether to reject a new client when one is already connected.
    fn is_occupied(&self) -> (r: bool)
        default_ensures
            !r,
    {
        false
    }

    /// Whether to reject all real-time messages with an "excluded" error.
    fn is_excluded(&self) -> (r: bool)
        default_ensures
            !r,
    {
        false
    }
}

/// A simple behavior implementation for basic testing.
///
/// - Always responds to commands
/// - Reports REALTIME capability in status
/// - Returns success for ACK responses
/// - Ignores frame data and connection events
pub struct SimpleBehavior;

impl Default for SimpleBehavior {
    fn default() -> (r: SimpleBehavior)
        ensures
            r == SimpleBehavior,
    {
        SimpleBehavior
    }
}

impl ServerBehavior for SimpleBehavior {
    fn should_respond(&self, _command: u8) -> (r: bool)
        ensures
            r,
    {
        true
    }

    fn get_status_byte(&self) -> (r: u8)
        ensures
            r == IDNFLG_STATUS_REALTIME,
    {
        IDNFLG_STATUS_REALTIME
    }

    fn get_ack_result_code(&self) -> (r: u8)
        ensures
            r == 0,
    {
        0x00
    }
}

/// A chunk is handed on with all that was read of it, and where it came from.
pub proof fn chunk_is_handed_on_whole<'a>()
    ensures
        forall|source_addr: SocketAddr, c: &'a ParsedChunk, r: ReceivedChunk<'a>| #[trigger]
            call_ensures(ReceivedChunk::<'a>::new, (source_addr, c), r) ==> {
                &&& r.source_addr == source_addr
                &&& r.sequence == c.sequence
                &&& r.content_id == c.content_id
                &&& r.channel_id == c.channel_id
                &&& r.chunk_type == c.chunk_type
                &&& r.config_or_last_fragment == c.config_or_last_fragment
                &&& r.has_config == c.has_config
                &&& r.is_last_fragment == c.is_last_fragment
                &&& r.timestamp_us_u32 == c.timestamp_us_u32
                &&& r.duration_us == c.duration_us
                &&& r.format == c.format
                &&& r.points@ == c.points@
            },
{
}

} // verus!
