//! Packets of an IDN point stream.
//!
//! A [`Stream`] holds the numbering and timing of a connection and builds its
//! packets. Each packet is built first and accounted for once it was sent, so
//! that a failed send leaves the timing as it was.

use vstd::prelude::*;
use vstd::slice::slice_subrange;

use crate::arith;
use crate::bytes::{self, push_be_u16, push_be_u32};
use crate::error::{IoError, IoErrorKind};
use crate::protocols::idn::dac::{Addressed, ServerInfo, ServiceInfo};
use crate::protocols::idn::error::{CommunicationError, ProtocolError, ResponseError};
use crate::protocols::idn::protocol::{
    AcknowledgeResponse, ChannelConfigHeader, ChannelMessageHeader, GroupResponse, PacketHeader,
    ParameterResponse, Point, SampleChunkHeader, EXTENDED_SAMPLE_SIZE, IDNCMD_GROUP_REQUEST,
    IDNCMD_GROUP_RESPONSE, IDNCMD_PING_REQUEST, IDNCMD_PING_RESPONSE, IDNCMD_RT_ACKNOWLEDGE,
    IDNCMD_RT_CNLMSG, IDNCMD_RT_CNLMSG_ACKREQ, IDNCMD_RT_CNLMSG_CLOSE,
    IDNCMD_RT_CNLMSG_CLOSE_ACKREQ, IDNCMD_SERVICE_PARAMS_REQUEST, IDNCMD_SERVICE_PARAMS_RESPONSE,
    IDNCMD_UNIT_PARAMS_REQUEST, IDNCMD_UNIT_PARAMS_RESPONSE, IDNFLG_CHNCFG_CLOSE,
    IDNFLG_CHNCFG_ROUTING, IDNFLG_CONTENTID_CHANNELMSG, IDNFLG_CONTENTID_CONFIG_LSTFRG,
    IDNVAL_CNKTYPE_LPGRF_FRAME, IDNVAL_CNKTYPE_LPGRF_FRAME_FIRST,
    IDNVAL_CNKTYPE_LPGRF_FRAME_SEQUEL, IDNVAL_CNKTYPE_LPGRF_WAVE, IDNVAL_CNKTYPE_VOID,
    IDNVAL_GROUP_OP_GET, IDNVAL_GROUP_OP_SET, IDNVAL_SMOD_LPGRF_CONTINUOUS,
    IDNVAL_SMOD_LPGRF_DISCRETE, MAX_UDP_PAYLOAD, XYRGBI_SAMPLE_SIZE, XYRGB_HIGHRES_SAMPLE_SIZE,
};

verus! {

/// Frame mode for IDN streaming.
///
/// In **Wave** mode the receiver splices chunks end-to-end; any processing gap
/// causes a brief blank. In **Frame** mode the receiver loops the previous frame
/// until the next one arrives, making it resilient to jitter.
#[derive(Clone, Copy, Debug, PartialEq, Eq, Structural)]
pub enum FrameMode {
    /// Wave (continuous) mode: chunks are spliced end-to-end.
    Wave,
    /// Frame (discrete) mode: the receiver loops the previous frame until the next arrives.
    Frame,
}

impl Default for FrameMode {
    fn default() -> (r: FrameMode)
        ensures
            r == FrameMode::Wave,
    {
        FrameMode::Wave
    }
}

/// Point format for streaming.
#[derive(Clone, Copy, Debug, PartialEq, Eq, Structural)]
pub enum PointFormat {
    /// Standard 8-byte format: X, Y, R, G, B, I (8-bit colors)
    Xyrgbi,
    /// High-resolution 10-byte format: X, Y, R, G, B (16-bit colors)
    XyrgbHighRes,
    /// Extended 20-byte format: X, Y, R, G, B, I, U1, U2, U3, U4 (16-bit all)
    Extended,
}

impl PointFormat {
    /// Bytes per sample.
    pub open spec fn size(self) -> int {
        match self {
            PointFormat::Xyrgbi => 8,
            PointFormat::XyrgbHighRes => 10,
            PointFormat::Extended => 20,
        }
    }

    /// The channel descriptors that announce the format: every channel but the
    /// 8-bit colors is followed by the 16-bit precision modifier.
    pub open spec fn descriptor_words(self) -> Seq<u16> {
        match self {
            PointFormat::Xyrgbi => seq![
                0x4200u16,
                0x4010,
                0x4210,
                0x4010,
                0x527E,
                0x5214,
                0x51CC,
                0x5C10,
            ],
            PointFormat::XyrgbHighRes => seq![
                0x4200u16,
                0x4010,
                0x4210,
                0x4010,
                0x527E,
                0x4010,
                0x5214,
                0x4010,
                0x51CC,
                0x4010,
            ],
            PointFormat::Extended => seq![
                0x4200u16,
                0x4010,
                0x4210,
                0x4010,
                0x527E,
                0x4010,
                0x5214,
                0x4010,
                0x51CC,
                0x4010,
                0x5C10,
                0x4010,
                0x51BD,
                0x4010,
                0x5241,
                0x4010,
                0x51E8,
                0x4010,
                0x4201,
                0x4010,
            ],
        }
    }

    /// Get the size in bytes for this point format.
    pub fn size_bytes(&self) -> (r: usize)
        ensures
            r == self.size(),
    {
        match self {
            PointFormat::Xyrgbi => XYRGBI_SAMPLE_SIZE,
            PointFormat::XyrgbHighRes => XYRGB_HIGHRES_SAMPLE_SIZE,
            PointFormat::Extended => EXTENDED_SAMPLE_SIZE,
        }
    }

    /// Get the word count for the channel config header: the number of 32-bit
    /// words, that is descriptor pairs.
    pub fn word_count(&self) -> (r: u8)
        ensures
            r == self.descriptor_words().len() / 2,
    {
        match self {
            PointFormat::Xyrgbi => 4,
            PointFormat::XyrgbHighRes => 5,
            PointFormat::Extended => 10,
        }
    }

    /// Get the channel descriptors for this format.
    pub fn descriptors(&self) -> (r: Vec<u16>)
        ensures
            r@ == self.descriptor_words(),
    {
        let r: Vec<u16> = match self {
            PointFormat::Xyrgbi => vec![
                0x4200u16,
                0x4010,
                0x4210,
                0x4010,
                0x527E,
                0x5214,
                0x51CC,
                0x5C10,
            ],
            PointFormat::XyrgbHighRes => vec![
                0x4200u16,
                0x4010,
                0x4210,
                0x4010,
                0x527E,
                0x4010,
                0x5214,
                0x4010,
                0x51CC,
                0x4010,
            ],
            PointFormat::Extended => vec![
                0x4200u16,
                0x4010,
                0x4210,
                0x4010,
                0x527E,
                0x4010,
                0x5214,
                0x4010,
                0x51CC,
                0x4010,
                0x5C10,
                0x4010,
                0x51BD,
                0x4010,
                0x5241,
                0x4010,
                0x51E8,
                0x4010,
                0x4201,
                0x4010,
            ],
        };
        assert(r@ =~= self.descriptor_words());
        r
    }
}

/// Link timeout, in nanoseconds.
pub const LINK_TIMEOUT_NS: u64 = 1_000_000_000;

/// Recommended keepalive interval (half the timeout), in nanoseconds.
pub const KEEPALIVE_INTERVAL_NS: u64 = 500_000_000;

/// Minimum number of samples per frame.
pub const MIN_SAMPLES_PER_FRAME: usize = 20;

/// A streaming connection to an IDN server.
pub struct Stream {
    /// The addressed DAC (server + selected service)
    pub dac: Addressed,
    /// Client group (0-15)
    pub client_group: u8,
    /// Sequence number counter
    pub sequence: u16,
    /// Current timestamp in microseconds
    pub timestamp: u64,
    /// Scan speed in points per second
    pub scan_speed: u32,
    /// Current point format
    pub point_format: PointFormat,
    /// Service data match counter (increments on config change)
    pub service_data_match: u8,
    /// Previous point format (for detecting changes)
    pub previous_format: Option<PointFormat>,
    /// Frame counter
    pub frame_count: u64,
    /// Last time data was sent (for keepalive tracking)
    pub last_send_ns: Option<u64>,
    /// Time when the stream was created (for non-zero initial timestamp)
    pub connect_ns: u64,
    /// Frame mode (wave vs frame)
    pub frame_mode: FrameMode,
}

// ---------------------------------------------------------------------------
// Wire layout
// ---------------------------------------------------------------------------

/// The channel bits of the content ids for a service.
pub open spec fn channel_bits(service_id: u8) -> u16 {
    ((if service_id == 0 { 0u16 } else { (service_id - 1) as u16 }) & 0x3F) << 8u16
}

/// The service-data-match flags for a counter.
pub open spec fn sdm_bits(service_data_match: u8) -> u8 {
    ((service_data_match & 1) | 2) << 4u8
}

/// The chunk type byte for a frame mode and packet position.
pub open spec fn chunk_type_byte(mode: FrameMode, is_first: bool, is_only: bool) -> u8 {
    match mode {
        FrameMode::Wave => IDNVAL_CNKTYPE_LPGRF_WAVE,
        FrameMode::Frame => if is_only {
            IDNVAL_CNKTYPE_LPGRF_FRAME
        } else if is_first {
            IDNVAL_CNKTYPE_LPGRF_FRAME_FIRST
        } else {
            IDNVAL_CNKTYPE_LPGRF_FRAME_SEQUEL
        },
    }
}

/// The service mode byte for a frame mode.
pub open spec fn service_mode_byte(mode: FrameMode) -> u8 {
    match mode {
        FrameMode::Wave => IDNVAL_SMOD_LPGRF_CONTINUOUS,
        FrameMode::Frame => IDNVAL_SMOD_LPGRF_DISCRETE,
    }
}

/// Whether a frame has to announce its format: the first one, and each one
/// after a change of format.
pub open spec fn config_needed(
    frame_count: u64,
    previous_format: Option<PointFormat>,
    point_format: PointFormat,
) -> bool {
    frame_count == 0 || previous_format != Some(point_format)
}

/// Words as bytes, most significant byte first.
pub open spec fn word_bytes(words: Seq<u16>) -> Seq<u8>
    decreases words.len(),
{
    if words.len() == 0 {
        seq![]
    } else {
        word_bytes(words.drop_last()) + bytes::be_u16_bytes(words.last())
    }
}

/// The samples of some points, one after the other.
pub open spec fn sample_bytes<P: Point>(points: Seq<P>) -> Seq<u8>
    decreases points.len(),
{
    if points.len() == 0 {
        seq![]
    } else {
        sample_bytes(points.drop_last()) + points.last().bytes()
    }
}

/// Size of the channel configuration with its descriptors.
pub open spec fn config_size(with_config: bool, format: PointFormat) -> int {
    if with_config {
        4 + 2 * format.descriptor_words().len() as int
    } else {
        0
    }
}

/// Most points that fit into a packet.
pub open spec fn packet_capacity(with_config: bool, format: PointFormat, sample_size: int) -> int {
    (1454 - (16 + config_size(with_config, format))) / sample_size
}

/// How many packets `n` points need if each holds at most `capacity`.
pub open spec fn packet_count(n: int, capacity: int) -> int {
    n / capacity + (if n % capacity > 0 { 1int } else { 0 })
}

/// How many of `n` points the next packet takes so that the packets are filled
/// evenly.
pub open spec fn packet_share(n: int, capacity: int) -> int {
    n / packet_count(n, capacity)
}

/// How long some points take, in microseconds.
pub open spec fn duration_us(points: int, scan_speed: u32) -> int {
    points * 1_000_000 / (scan_speed as int)
}

/// Points are shared out evenly: no packet gets more than it can hold, and every
/// packet gets some.
pub proof fn packet_share_fits(n: int, capacity: int)
    requires
        1 <= n,
        1 <= capacity,
    ensures
        1 <= packet_count(n, capacity) <= n,
        1 <= packet_share(n, capacity) <= capacity,
        packet_share(n, capacity) <= n,
        packet_count(n, capacity) == 1 <==> n <= capacity,
        packet_count(n, capacity) == 1 ==> packet_share(n, capacity) == n,
{
    let k = packet_count(n, capacity);
    vstd::arithmetic::div_mod::lemma_fundamental_div_mod(n, capacity);
    let q = n / capacity;
    let r = n % capacity;
    assert(n == capacity * q + r && 0 <= r < capacity);
    assert(q >= 0) by (nonlinear_arith)
        requires
            n == capacity * q + r,
            n >= 1,
            r < capacity,
            capacity >= 1,
    ;
    assert(q >= 1 ==> capacity * q >= capacity && capacity * q >= q) by (nonlinear_arith)
        requires
            capacity >= 1,
    ;
    assert(q == 0 ==> capacity * q == 0) by (nonlinear_arith);
    assert(n <= capacity * k) by (nonlinear_arith)
        requires
            n == capacity * q + r,
            0 <= r < capacity,
            k == q + (if r > 0 { 1int } else { 0 }),
    ;
    assert(1 <= k <= n);
    assert(k == 1 ==> n <= capacity) by {
        if k == 1 {
            assert(capacity * k == capacity) by (nonlinear_arith)
                requires
                    k == 1,
            ;
        }
    }
    assert(n <= capacity ==> k == 1) by {
        if n <= capacity && q >= 2 {
            assert(capacity * q >= 2 * capacity) by (nonlinear_arith)
                requires
                    q >= 2,
                    capacity >= 1,
            ;
        }
        if n <= capacity && q == 1 {
            assert(capacity * q == capacity) by (nonlinear_arith)
                requires
                    q == 1,
            ;
        }
    }
    assert(n / k <= capacity && n / k >= 1 && n / k <= n) by (nonlinear_arith)
        requires
            n <= capacity * k,
            1 <= k <= n,
            capacity >= 1,
    ;
    if k == 1 {
        assert(n / 1 == n);
    }
}

impl Stream {
    /// Whether the next frame has to announce its format.
    pub open spec fn wants_config(self) -> bool {
        config_needed(self.frame_count, self.previous_format, self.point_format)
    }

    /// The header of the next packet.
    pub open spec fn next_header(self, command: u8) -> Seq<u8> {
        (PacketHeader { command, flags: self.client_group, sequence: self.sequence }).bytes()
    }

    /// The timestamp of the next packet: the low 32 bits.
    pub open spec fn wire_timestamp(self) -> u32 {
        (self.timestamp % 0x1_0000_0000) as u32
    }

    /// The channel configuration and the descriptors of the current format.
    pub open spec fn config_bytes(self) -> Seq<u8> {
        (ChannelConfigHeader {
            word_count: (self.point_format.descriptor_words().len() / 2) as u8,
            flags: IDNFLG_CHNCFG_ROUTING | sdm_bits(self.service_data_match),
            service_id: self.dac.service.service_id,
            service_mode: service_mode_byte(self.frame_mode),
        }).bytes() + word_bytes(self.point_format.descriptor_words())
    }

    /// A packet with samples: the headers, the configuration if it is wanted,
    /// and the points.
    pub open spec fn sample_packet<P: Point>(
        self,
        command: u8,
        with_config: bool,
        chunk_type: u8,
        points: Seq<P>,
    ) -> Seq<u8> {
        self.next_header(command) + (ChannelMessageHeader {
            total_size: (12 + config_size(with_config, self.point_format) + points.len()
                * P::size()) as u16,
            content_id: IDNFLG_CONTENTID_CHANNELMSG | channel_bits(self.dac.service.service_id) | (
            if with_config {
                IDNFLG_CONTENTID_CONFIG_LSTFRG
            } else {
                0u16
            }) | chunk_type as u16,
            timestamp: self.wire_timestamp(),
        }).bytes() + (if with_config {
            self.config_bytes()
        } else {
            seq![]
        }) + bytes::be_u32_bytes(
            SampleChunkHeader::word(
                sdm_bits(self.service_data_match),
                duration_us(points.len() as int, self.scan_speed) as u32,
            ),
        ) + sample_bytes(points)
    }

    /// How many points the first packet of a frame of `n` points takes.
    pub open spec fn first_share<P: Point>(self, n: int) -> int {
        packet_share(n, packet_capacity(self.wants_config(), self.point_format, P::size()))
    }

    /// The first packet of a frame.
    pub open spec fn first_packet<P: Point>(self, command: u8, points: Seq<P>) -> Seq<u8> {
        let n = points.len() as int;
        let capacity = packet_capacity(self.wants_config(), self.point_format, P::size());
        self.sample_packet(
            command,
            self.wants_config(),
            chunk_type_byte(self.frame_mode, true, packet_count(n, capacity) == 1),
            points.take(self.first_share::<P>(n)),
        )
    }

    /// How many points the next packet takes of the `n` that are left.
    pub open spec fn rest_share<P: Point>(self, n: int) -> int {
        packet_share(n, packet_capacity(false, self.point_format, P::size()))
    }

    /// The next packet of a frame of which these points are left.
    pub open spec fn rest_packet<P: Point>(self, points: Seq<P>) -> Seq<u8> {
        self.sample_packet(
            IDNCMD_RT_CNLMSG,
            false,
            chunk_type_byte(self.frame_mode, false, false),
            points.take(self.rest_share::<P>(points.len() as int)),
        )
    }

    /// The stream after a packet header was numbered.
    pub open spec fn numbered(self) -> Stream {
        Stream { sequence: ((self.sequence + 1) % 0x1_0000) as u16, ..self }
    }

    /// The stream once the first packet of a frame is built.
    pub open spec fn first_built(self) -> Stream {
        if self.wants_config() {
            Stream { previous_format: Some(self.point_format), ..self.numbered() }
        } else {
            self.numbered()
        }
    }

    /// The stream once the first packet of a frame, with `n` points, was sent.
    pub open spec fn first_sent(self, n: int, now_ns: u64) -> Stream {
        Stream {
            last_send_ns: Some(now_ns),
            timestamp: (self.timestamp + duration_us(n, self.scan_speed)) as u64,
            frame_count: (self.frame_count + 1) as u64,
            ..self
        }
    }

    /// The stream once a further packet, with `n` points, was sent.
    pub open spec fn rest_sent(self, n: int, now_ns: u64) -> Stream {
        Stream {
            last_send_ns: Some(now_ns),
            timestamp: (self.timestamp + duration_us(n, self.scan_speed)) as u64,
            ..self
        }
    }

    /// The stream when a frame begins: the match counter moves on with a change
    /// of format, and the first frame starts the clock at the time since the
    /// connection was made.
    pub open spec fn frame_begun(self, now_ns: u64) -> Stream {
        Stream {
            service_data_match: if self.previous_format != Some(self.point_format) {
                ((self.service_data_match + 1) % 256) as u8
            } else {
                self.service_data_match
            },
            timestamp: if self.frame_count == 0 {
                arith::since(now_ns, self.connect_ns) / 1000
            } else {
                self.timestamp
            },
            ..self
        }
    }
}

/// A frame brought to the minimum length by repeating its last point.
pub open spec fn padded<P: Point>(points: Seq<P>) -> Seq<P> {
    if points.len() < 20 {
        points + Seq::new((20 - points.len()) as nat, |i: int| points.last())
    } else {
        points
    }
}

/// A packet that is ready to be sent.
pub struct SamplePacket {
    pub bytes: Vec<u8>,
    /// The number of the packet.
    pub sequence: u16,
    /// How many points it holds.
    pub points: usize,
}

proof fn lemma_word_bytes_len(words: Seq<u16>)
    ensures
        word_bytes(words).len() == 2 * words.len(),
    decreases words.len(),
{
    if words.len() > 0 {
        lemma_word_bytes_len(words.drop_last());
    }
}

/// Samples are stored without gaps.
pub proof fn sample_bytes_len<P: Point>(points: Seq<P>)
    ensures
        sample_bytes(points).len() == points.len() * P::size(),
    decreases points.len(),
{
    if points.len() > 0 {
        sample_bytes_len(points.drop_last());
        points.last().size_is_fixed();
        assert((points.len() - 1) * P::size() + P::size() == points.len() * P::size())
            by (nonlinear_arith);
    } else {
        assert(0 * P::size() == 0) by (nonlinear_arith);
    }
}

/// A packet with samples has the size that its header declares, and never
/// exceeds the UDP payload limit if it holds no more points than fit.
pub proof fn sample_packet_size<P: Point>(
    stream: Stream,
    command: u8,
    with_config: bool,
    chunk_type: u8,
    points: Seq<P>,
)
    requires
        1 <= P::size() <= 20,
        points.len() <= packet_capacity(with_config, stream.point_format, P::size()),
    ensures
        stream.sample_packet(command, with_config, chunk_type, points).len() == 16 + config_size(
            with_config,
            stream.point_format,
        ) + points.len() * P::size(),
        stream.sample_packet(command, with_config, chunk_type, points).len() <= MAX_UDP_PAYLOAD,
        points.len() * P::size() <= 1438,
{
    let format = stream.point_format;
    let room = 1454 - (16 + config_size(with_config, format));
    sample_bytes_len(points);
    lemma_word_bytes_len(format.descriptor_words());
    let n = points.len() as int;
    let size = P::size();
    assert(n * size <= room) by (nonlinear_arith)
        requires
            n <= room / size,
            size >= 1,
            room >= 0,
            n >= 0,
    ;
}

fn push_words(words: &Vec<u16>, out: &mut Vec<u8>)
    ensures
        final(out)@ == old(out)@ + word_bytes(words@),
{
    let ghost before = out@;
    let mut i: usize = 0;
    assert(out@ =~= before + word_bytes(words@.take(0)));
    while i < words.len()
        invariant
            i <= words.len(),
            out@ == before + word_bytes(words@.take(i as int)),
        decreases words.len() - i,
    {
        push_be_u16(out, words[i]);
        proof {
            assert(words@.take(i + 1).drop_last() =~= words@.take(i as int));
            assert(out@ =~= before + word_bytes(words@.take(i + 1)));
        }
        i += 1;
    }
    assert(words@.take(i as int) =~= words@);
}

fn push_samples<P: Point>(points: &[P], count: usize, out: &mut Vec<u8>)
    requires
        count <= points@.len(),
    ensures
        final(out)@ == old(out)@ + sample_bytes(points@.take(count as int)),
{
    let ghost before = out@;
    let mut i: usize = 0;
    assert(out@ =~= before + sample_bytes(points@.take(0)));
    while i < count
        invariant
            i <= count <= points.len(),
            out@ == before + sample_bytes(points@.take(i as int)),
        decreases count - i,
    {
        points[i].write(out);
        proof {
            assert(points@.take(i + 1).drop_last() =~= points@.take(i as int));
            assert(out@ =~= before + sample_bytes(points@.take(i + 1)));
        }
        i += 1;
    }
}

// ---------------------------------------------------------------------------
// Connecting
// ---------------------------------------------------------------------------

/// Whether the server lists a service with this id.
pub open spec fn offers(server: &ServerInfo, service_id: u8) -> bool {
    exists|i: int| 0 <= i < server.services@.len() && (#[trigger] server.services@[i]).service_id == service_id
}

/// Connect to an IDN server for streaming, in client group 0.
pub fn connect(server: &ServerInfo, service_id: u8, now_ns: u64) -> (r: Result<Stream, IoError>)
    ensures
        connected(server, service_id, 0, now_ns, r),
{
    connect_with_group(server, service_id, 0, now_ns)
}

/// What connecting yields: a fresh stream to the first service with the given id
/// at the first address, or `NotFound` if there is no address or no such service.
pub open spec fn connected(
    server: &ServerInfo,
    service_id: u8,
    client_group: u8,
    now_ns: u64,
    r: Result<Stream, IoError>,
) -> bool {
    match r {
        Ok(s) => {
            &&& server.addresses@.len() > 0
            &&& s.dac.server.same(server)
            &&& s.dac.service.service_id == service_id
            &&& exists|i: int|
                0 <= i < server.services@.len() && s.dac.service == #[trigger] server.services@[i]
                    && forall|j: int|
                    0 <= j < i ==> (#[trigger] server.services@[j]).service_id != service_id
            &&& s.dac.address == server.addresses@[0]
            &&& s.client_group == client_group & 0x0F
            &&& s.sequence == 0
            &&& s.timestamp == 0
            &&& s.scan_speed == 30_000
            &&& s.point_format == PointFormat::Xyrgbi
            &&& s.service_data_match == 0
            &&& s.previous_format is None
            &&& s.frame_count == 0
            &&& s.last_send_ns is None
            &&& s.connect_ns == now_ns
            &&& s.frame_mode == FrameMode::Wave
        },
        Err(e) => {
            &&& e.kind == IoErrorKind::NotFound
            &&& server.addresses@.len() == 0 || !offers(server, service_id)
            &&& e.message@ == (if server.addresses@.len() == 0 {
                "server has no addresses"@
            } else {
                "service not found"@
            })
        },
    }
}

/// Connect to an IDN server for streaming with a specific client group.
pub fn connect_with_group(server: &ServerInfo, service_id: u8, client_group: u8, now_ns: u64) -> (r:
    Result<Stream, IoError>)
    ensures
        connected(server, service_id, client_group, now_ns, r),
{
    let address = match server.primary_address() {
        Some(a) => a,
        None => {
            return Err(IoError::new(IoErrorKind::NotFound, "server has no addresses"));
        },
    };
    let service: &ServiceInfo = match server.find_service(service_id) {
        Some(s) => s,
        None => {
            return Err(IoError::new(IoErrorKind::NotFound, "service not found"));
        },
    };
    let dac = Addressed::new(server.clone(), service.clone(), address);
    Ok(
        Stream {
            dac,
            client_group: client_group & 0x0F,
            sequence: 0,
            timestamp: 0,
            scan_speed: 30_000,
            point_format: PointFormat::Xyrgbi,
            service_data_match: 0,
            previous_format: None,
            frame_count: 0,
            last_send_ns: None,
            connect_ns: now_ns,
            frame_mode: FrameMode::Wave,
        },
    )
}

// ---------------------------------------------------------------------------
// Streaming
// ---------------------------------------------------------------------------

impl Stream {
    /// Whether a frame has to announce its format.
    pub fn needs_config(
        frame_count: u64,
        previous_format: Option<PointFormat>,
        point_format: PointFormat,
    ) -> (r: bool)
        ensures
            r == config_needed(frame_count, previous_format, point_format),
    {
        frame_count == 0 || match previous_format {
            Some(f) => f != point_format,
            None => true,
        }
    }

    /// Get a reference to the addressed DAC.
    pub fn dac(&self) -> (r: &Addressed)
        ensures
            *r == self.dac,
    {
        &self.dac
    }

    /// Get the current scan speed in points per second.
    pub fn scan_speed(&self) -> (r: u32)
        ensures
            r == self.scan_speed,
    {
        self.scan_speed
    }

    /// Set the scan speed in points per second.
    pub fn set_scan_speed(&mut self, pps: u32)
        ensures
            *final(self) == (Stream { scan_speed: pps, ..*old(self) }),
    {
        self.scan_speed = pps;
    }

    /// Get the current point format.
    pub fn point_format(&self) -> (r: PointFormat)
        ensures
            r == self.point_format,
    {
        self.point_format
    }

    /// Set the point format for subsequent frames.
    pub fn set_point_format(&mut self, format: PointFormat)
        ensures
            *final(self) == (Stream { point_format: format, ..*old(self) }),
    {
        self.point_format = format;
    }

    /// Get the current frame mode.
    pub fn frame_mode(&self) -> (r: FrameMode)
        ensures
            r == self.frame_mode,
    {
        self.frame_mode
    }

    /// Set the frame mode (wave vs frame).
    pub fn set_frame_mode(&mut self, mode: FrameMode)
        ensures
            *final(self) == (Stream { frame_mode: mode, ..*old(self) }),
    {
        self.frame_mode = mode;
    }

    /// Check if a keepalive is needed to maintain the link: more than
    /// [`KEEPALIVE_INTERVAL_NS`] has passed since the last send.
    pub fn needs_keepalive(&self, now_ns: u64) -> (r: bool)
        ensures
            r == match self.last_send_ns {
                Some(last) => arith::since(now_ns, last) > 500_000_000,
                None => self.frame_count > 0,
            },
    {
        match self.last_send_ns {
            Some(last) => now_ns.saturating_sub(last) > KEEPALIVE_INTERVAL_NS,
            None => self.frame_count > 0,
        }
    }

    /// Get the time since the last data was sent, in nanoseconds.
    ///
    /// Returns `None` if no data has been sent yet.
    pub fn time_since_last_send(&self, now_ns: u64) -> (r: Option<u64>)
        ensures
            r == match self.last_send_ns {
                Some(last) => Some(arith::since(now_ns, last)),
                None => None,
            },
    {
        match self.last_send_ns {
            Some(last) => Some(now_ns.saturating_sub(last)),
            None => None,
        }
    }

    /// Note that a packet without samples was sent.
    pub fn packet_sent(&mut self, now_ns: u64)
        ensures
            *final(self) == (Stream { last_send_ns: Some(now_ns), ..*old(self) }),
    {
        self.last_send_ns = Some(now_ns);
    }

    /// Get the next sequence number.
    pub fn next_sequence(&mut self) -> (r: u16)
        ensures
            r == old(self).sequence,
            *final(self) == old(self).numbered(),
    {
        let seq: u16 = self.sequence;
        self.sequence = if seq == 0xFFFF { 0 } else { seq + 1 };
        seq
    }

    /// Compute the IDN channel bits from the service ID.
    pub fn channel_id(&self) -> (r: u16)
        ensures
            r == channel_bits(self.dac.service.service_id),
    {
        (self.dac.service.service_id.saturating_sub(1) as u16 & 0x3F) << 8u16
    }

    /// Compute the service-data-match flags for sample chunk headers.
    pub fn sdm_flags(&self) -> (r: u8)
        ensures
            r == sdm_bits(self.service_data_match),
    {
        ((self.service_data_match & 1) | 2) << 4u8
    }

    /// Return the chunk type byte for the current frame mode and packet position.
    pub fn chunk_type(&self, is_first: bool, is_only: bool) -> (r: u8)
        ensures
            r == chunk_type_byte(self.frame_mode, is_first, is_only),
    {
        match self.frame_mode {
            FrameMode::Wave => IDNVAL_CNKTYPE_LPGRF_WAVE,
            FrameMode::Frame => if is_only {
                IDNVAL_CNKTYPE_LPGRF_FRAME
            } else if is_first {
                IDNVAL_CNKTYPE_LPGRF_FRAME_FIRST
            } else {
                IDNVAL_CNKTYPE_LPGRF_FRAME_SEQUEL
            },
        }
    }

    /// Build the keepalive void channel message that maintains both link and
    /// session.
    pub fn send_keepalive(&mut self) -> (r: Vec<u8>)
        ensures
            *final(self) == old(self).numbered(),
            r@ == old(self).next_header(IDNCMD_RT_CNLMSG) + (ChannelMessageHeader {
                total_size: 8,
                content_id: IDNFLG_CONTENTID_CHANNELMSG | channel_bits(
                    old(self).dac.service.service_id,
                ) | IDNVAL_CNKTYPE_VOID as u16,
                timestamp: old(self).wire_timestamp(),
            }).bytes(),
    {
        let content_id: u16 = IDNFLG_CONTENTID_CHANNELMSG | self.channel_id()
            | IDNVAL_CNKTYPE_VOID as u16;
        let timestamp: u32 = (self.timestamp % 0x1_0000_0000) as u32;
        let mut out: Vec<u8> = Vec::new();
        let header = PacketHeader {
            command: IDNCMD_RT_CNLMSG,
            flags: self.client_group,
            sequence: self.next_sequence(),
        };
        header.write(&mut out);
        ChannelMessageHeader { total_size: 8, content_id, timestamp }.write(&mut out);
        out
    }

    /// Pad a point slice to the minimum sample count by repeating the last point.
    pub fn pad_points<P: Point>(points: &[P]) -> (r: Vec<P>)
        requires
            points@.len() > 0,
        ensures
            r@ == padded(points@),
    {
        let mut out: Vec<P> = Vec::new();
        let mut i: usize = 0;
        while i < points.len()
            invariant
                i <= points.len(),
                out@ =~= points@.take(i as int),
            decreases points.len() - i,
        {
            out.push(points[i]);
            i += 1;
        }
        let last: P = points[points.len() - 1];
        while out.len() < MIN_SAMPLES_PER_FRAME
            invariant
                points@.len() > 0,
                last == points@.last(),
                points@.len() <= out@.len(),
                out@.len() <= 20 || out@.len() == points@.len(),
                out@ =~= points@ + Seq::new(
                    (out@.len() - points@.len()) as nat,
                    |j: int| points@.last(),
                ),
            decreases 20 - out.len(),
        {
            out.push(last);
        }
        assert(out@ =~= padded(points@));
        out
    }

    /// Begin a frame: pad the points if needed and update the pre-frame state.
    /// A scan speed of zero is refused.
    pub fn prepare_points<P: Point>(&mut self, points: &[P], now_ns: u64) -> (r: Result<
        Vec<P>,
        CommunicationError,
    >)
        requires
            points@.len() > 0,
        ensures
            match r {
                Ok(p) => old(self).scan_speed != 0 && p@ == padded(points@) && *final(self) == old(self).frame_begun(now_ns),
                Err(e) => old(self).scan_speed == 0 && e == CommunicationError::Protocol(
                    ProtocolError::InvalidPointFormat,
                ) && *final(self) == *old(self),
            },
    {
        if self.scan_speed == 0 {
            return Err(CommunicationError::Protocol(ProtocolError::InvalidPointFormat));
        }
        let points: Vec<P> = Stream::pad_points(points);
        let changed: bool = match self.previous_format {
            Some(f) => f != self.point_format,
            None => true,
        };
        if changed {
            let sdm: u8 = self.service_data_match;
            self.service_data_match = if sdm == 255 { 0 } else { sdm + 1 };
        }
        if self.frame_count == 0 {
            self.timestamp = now_ns.saturating_sub(self.connect_ns) / 1000;
        }
        Ok(points)
    }

    /// The points of the next packet and the packets still needed.
    fn share_of<P: Point>(&self, with_config: bool, n: usize) -> (r: (usize, usize))
        requires
            n > 0,
        ensures
            r.0 == packet_share(
                n as int,
                packet_capacity(with_config, self.point_format, P::size()),
            ),
            r.1 == packet_count(
                n as int,
                packet_capacity(with_config, self.point_format, P::size()),
            ),
            1 <= r.0 <= n,
            r.0 <= packet_capacity(with_config, self.point_format, P::size()),
    {
        let size: usize = P::size_bytes();
        let config: usize = if with_config {
            ChannelConfigHeader::SIZE_BYTES + 4 * self.point_format.word_count() as usize
        } else {
            0
        };
        let header: usize = PacketHeader::SIZE_BYTES + ChannelMessageHeader::SIZE_BYTES + config
            + SampleChunkHeader::SIZE_BYTES;
        let capacity: usize = (MAX_UDP_PAYLOAD - header) / size;
        proof {
            assert(header == 16 + config_size(with_config, self.point_format));
            assert(capacity >= 1) by (nonlinear_arith)
                requires
                    capacity == (1454 - header) / size as int,
                    header <= 60,
                    1 <= size <= 20,
            ;
            packet_share_fits(n as int, capacity as int);
        }
        let count: usize = n / capacity + if n % capacity > 0 { 1 } else { 0 };
        (n / count, count)
    }

    /// Append the channel configuration and the descriptors.
    fn write_config(&self, out: &mut Vec<u8>)
        ensures
            final(out)@ == old(out)@ + self.config_bytes(),
    {
        let ghost before = out@;
        let header = ChannelConfigHeader {
            word_count: self.point_format.word_count(),
            flags: IDNFLG_CHNCFG_ROUTING | self.sdm_flags(),
            service_id: self.dac.service.service_id,
            service_mode: match self.frame_mode {
                FrameMode::Wave => IDNVAL_SMOD_LPGRF_CONTINUOUS,
                FrameMode::Frame => IDNVAL_SMOD_LPGRF_DISCRETE,
            },
        };
        header.write(out);
        let words: Vec<u16> = self.point_format.descriptors();
        push_words(&words, out);
        assert(out@ =~= before + self.config_bytes());
    }

    /// Build a packet with the first `count` of the points.
    fn build_samples<P: Point>(
        &self,
        command: u8,
        with_config: bool,
        chunk_type: u8,
        points: &[P],
        count: usize,
    ) -> (r: Vec<u8>)
        requires
            self.scan_speed != 0,
            count <= points@.len(),
            count <= packet_capacity(with_config, self.point_format, P::size()),
        ensures
            r@ == self.sample_packet(command, with_config, chunk_type, points@.take(count as int)),
            r@.len() <= MAX_UDP_PAYLOAD,
    {
        let size: usize = P::size_bytes();
        proof {
            sample_packet_size(*self, command, with_config, chunk_type, points@.take(count as int));
            lemma_capacity_bound(with_config, self.point_format, size as int);
            lemma_duration(count as int, self.scan_speed);
        }
        let config: usize = if with_config {
            ChannelConfigHeader::SIZE_BYTES + 4 * self.point_format.word_count() as usize
        } else {
            0
        };
        let samples_size: usize = count * size;
        let total: usize = ChannelMessageHeader::SIZE_BYTES + config + SampleChunkHeader::SIZE_BYTES
            + samples_size;
        let flag: u16 = if with_config { IDNFLG_CONTENTID_CONFIG_LSTFRG } else { 0 };
        let header = PacketHeader { command, flags: self.client_group, sequence: self.sequence };
        let message = ChannelMessageHeader {
            total_size: total as u16,
            content_id: IDNFLG_CONTENTID_CHANNELMSG | self.channel_id() | flag | chunk_type as u16,
            timestamp: (self.timestamp % 0x1_0000_0000) as u32,
        };
        let mut out: Vec<u8> = Vec::new();
        header.write(&mut out);
        assert(out@ =~= self.next_header(command));
        message.write(&mut out);
        if with_config {
            self.write_config(&mut out);
        } else {
            assert(out@ + Seq::<u8>::empty() =~= out@);
        }
        let duration: u64 = count as u64 * 1_000_000 / self.scan_speed as u64;
        SampleChunkHeader::new(self.sdm_flags(), duration as u32).write(&mut out);
        push_samples(points, count, &mut out);
        out
    }

    /// Build the first packet of a frame of prepared points.
    pub fn build_first_packet<P: Point>(&mut self, points: &[P], command: u8) -> (r: SamplePacket)
        requires
            old(self).scan_speed != 0,
            points@.len() > 0,
        ensures
            r.bytes@ == old(self).first_packet(command, points@),
            r.bytes@.len() <= MAX_UDP_PAYLOAD,
            r.sequence == old(self).sequence,
            r.points == old(self).first_share::<P>(points@.len() as int),
            1 <= r.points <= points@.len(),
            *final(self) == old(self).first_built(),
    {
        let with_config: bool = Stream::needs_config(
            self.frame_count,
            self.previous_format,
            self.point_format,
        );
        let (count, packets) = self.share_of::<P>(with_config, points.len());
        let chunk_type: u8 = self.chunk_type(true, packets == 1);
        let out: Vec<u8> = self.build_samples(command, with_config, chunk_type, points, count);
        let sequence: u16 = self.next_sequence();
        if with_config {
            self.previous_format = Some(self.point_format);
        }
        SamplePacket { bytes: out, sequence, points: count }
    }

    /// Begin a frame whose first packet asks for an acknowledgment: that packet, and
    /// the points of the whole frame. The rest is sent once the acknowledgment is
    /// there. Without points there is nothing to acknowledge.
    pub fn write_frame_with_ack<P: Point>(&mut self, points: &[P], now_ns: u64) -> (r: Result<
        (SamplePacket, Vec<P>),
        CommunicationError,
    >)
        ensures
            match r {
                Ok((packet, frame)) => {
                    let begun = old(self).frame_begun(now_ns);
                    &&& points@.len() > 0
                    &&& old(self).scan_speed != 0
                    &&& frame@ == padded(points@)
                    &&& packet.bytes@ == begun.first_packet(IDNCMD_RT_CNLMSG_ACKREQ, frame@)
                    &&& packet.sequence == begun.sequence
                    &&& packet.points == begun.first_share::<P>(frame@.len() as int)
                    &&& 1 <= packet.points <= frame@.len()
                    &&& *final(self) == begun.first_built()
                },
                Err(e) => {
                    &&& *final(self) == *old(self)
                    &&& points@.len() == 0 ==> e == CommunicationError::Protocol(
                        ProtocolError::BufferTooSmall,
                    )
                    &&& points@.len() > 0 ==> old(self).scan_speed == 0 && e
                        == CommunicationError::Protocol(ProtocolError::InvalidPointFormat)
                },
            },
    {
        if points.len() == 0 {
            return Err(CommunicationError::Protocol(ProtocolError::BufferTooSmall));
        }
        match self.prepare_points(points, now_ns) {
            Ok(frame) => {
                let packet = self.build_first_packet(frame.as_slice(), IDNCMD_RT_CNLMSG_ACKREQ);
                Ok((packet, frame))
            },
            Err(e) => Err(e),
        }
    }

    /// Account for the first packet of a frame once it was sent.
    pub fn first_packet_sent(&mut self, points: usize, now_ns: u64)
        requires
            old(self).scan_speed != 0,
            points <= MAX_UDP_PAYLOAD,
            old(self).timestamp + duration_us(points as int, old(self).scan_speed) <= u64::MAX,
            old(self).frame_count < u64::MAX,
        ensures
            *final(self) == old(self).first_sent(points as int, now_ns),
    {
        proof {
            lemma_duration(points as int, self.scan_speed);
        }
        let duration: u64 = points as u64 * 1_000_000 / self.scan_speed as u64;
        self.last_send_ns = Some(now_ns);
        self.timestamp += duration;
        self.frame_count += 1;
    }

    /// Build the next packet of a frame, of which these points are left.
    pub fn build_continuation<P: Point>(&mut self, points: &[P]) -> (r: SamplePacket)
        requires
            old(self).scan_speed != 0,
            points@.len() > 0,
        ensures
            r.bytes@ == old(self).rest_packet(points@),
            r.bytes@.len() <= MAX_UDP_PAYLOAD,
            r.sequence == old(self).sequence,
            r.points == old(self).rest_share::<P>(points@.len() as int),
            1 <= r.points <= points@.len(),
            *final(self) == old(self).numbered(),
    {
        let (count, _packets) = self.share_of::<P>(false, points.len());
        let chunk_type: u8 = self.chunk_type(false, false);
        let out: Vec<u8> = self.build_samples(IDNCMD_RT_CNLMSG, false, chunk_type, points, count);
        let sequence: u16 = self.next_sequence();
        SamplePacket { bytes: out, sequence, points: count }
    }

    /// Account for a further packet of a frame once it was sent.
    pub fn continuation_sent(&mut self, points: usize, now_ns: u64)
        requires
            old(self).scan_speed != 0,
            points <= MAX_UDP_PAYLOAD,
            old(self).timestamp + duration_us(points as int, old(self).scan_speed) <= u64::MAX,
        ensures
            *final(self) == old(self).rest_sent(points as int, now_ns),
    {
        proof {
            lemma_duration(points as int, self.scan_speed);
        }
        let duration: u64 = points as u64 * 1_000_000 / self.scan_speed as u64;
        self.last_send_ns = Some(now_ns);
        self.timestamp += duration;
    }
}

proof fn lemma_duration(points: int, scan_speed: u32)
    requires
        0 <= points <= 1454,
        scan_speed != 0,
    ensures
        0 <= duration_us(points, scan_speed) <= points * 1_000_000,
        points * 1_000_000 <= 1_454_000_000,
{
    let n = points * 1_000_000;
    let d = scan_speed as int;
    assert(0 <= n / d <= n) by (nonlinear_arith)
        requires
            d >= 1,
            n >= 0,
    ;
}

// ---------------------------------------------------------------------------
// Whole frames
// ---------------------------------------------------------------------------

/// The packets for the points that are left of a frame, if each is sent.
pub open spec fn rest_packets<P: Point>(stream: Stream, points: Seq<P>, now_ns: u64) -> Seq<Seq<u8>>
    decreases points.len(),
{
    let k = stream.rest_share::<P>(points.len() as int);
    if points.len() == 0 || k < 1 || k > points.len() {
        seq![]
    } else {
        seq![stream.rest_packet(points)] + rest_packets(
            stream.numbered().rest_sent(k, now_ns),
            points.skip(k),
            now_ns,
        )
    }
}

/// The stream after the points that are left of a frame were sent.
pub open spec fn after_rest<P: Point>(stream: Stream, points: Seq<P>, now_ns: u64) -> Stream
    decreases points.len(),
{
    let k = stream.rest_share::<P>(points.len() as int);
    if points.len() == 0 || k < 1 || k > points.len() {
        stream
    } else {
        after_rest(stream.numbered().rest_sent(k, now_ns), points.skip(k), now_ns)
    }
}

/// The stream after the first packet of a frame that has begun was sent.
pub open spec fn after_first<P: Point>(stream: Stream, points: Seq<P>, now_ns: u64) -> Stream {
    stream.first_built().first_sent(stream.first_share::<P>(points.len() as int), now_ns)
}

/// The packets of a frame that has begun, if each is sent.
pub open spec fn frame_packets<P: Point>(stream: Stream, command: u8, points: Seq<P>, now_ns: u64) -> Seq<
    Seq<u8>,
> {
    seq![stream.first_packet(command, points)] + rest_packets(
        after_first(stream, points, now_ns),
        points.skip(stream.first_share::<P>(points.len() as int)),
        now_ns,
    )
}

/// The stream after a frame that had begun was sent.
pub open spec fn after_frame<P: Point>(stream: Stream, points: Seq<P>, now_ns: u64) -> Stream {
    after_rest(
        after_first(stream, points, now_ns),
        points.skip(stream.first_share::<P>(points.len() as int)),
        now_ns,
    )
}

/// Packets as sequences of bytes.
pub open spec fn packet_views(packets: Seq<Vec<u8>>) -> Seq<Seq<u8>> {
    Seq::new(packets.len(), |i: int| packets[i]@)
}

impl Stream {
    /// All packets of a frame at once, for a link on which none is lost.
    ///
    /// A frame without points yields no packet and changes nothing.
    pub fn write_frame<P: Point>(&mut self, points: &[P], command: u8, now_ns: u64) -> (r: Result<
        Vec<Vec<u8>>,
        CommunicationError,
    >)
        requires
            old(self).frame_begun(now_ns).timestamp + padded(points@).len() * 1_000_000
                <= u64::MAX,
            old(self).frame_count < u64::MAX,
        ensures
            match r {
                Ok(packets) => if points@.len() == 0 {
                    packets@.len() == 0 && *final(self) == *old(self)
                } else {
                    &&& old(self).scan_speed != 0
                    &&& packet_views(packets@) == frame_packets(
                        old(self).frame_begun(now_ns),
                        command,
                        padded(points@),
                        now_ns,
                    )
                    &&& *final(self) == after_frame(
                        old(self).frame_begun(now_ns),
                        padded(points@),
                        now_ns,
                    )
                    &&& forall|i: int|
                        0 <= i < packets@.len() ==> (#[trigger] packets@[i])@.len()
                            <= MAX_UDP_PAYLOAD
                },
                Err(e) => points@.len() > 0 && old(self).scan_speed == 0 && e
                    == CommunicationError::Protocol(ProtocolError::InvalidPointFormat) && *final(self) == *old(self),
            },
    {
        if points.len() == 0 {
            return Ok(Vec::new());
        }
        let ghost begun = self.frame_begun(now_ns);
        let points: Vec<P> = match self.prepare_points(points, now_ns) {
            Ok(p) => p,
            Err(e) => {
                return Err(e);
            },
        };
        let mut packets: Vec<Vec<u8>> = Vec::new();
        let first = self.build_first_packet(points.as_slice(), command);
        proof {
            points@[0].size_is_fixed();
            share_is_sound::<P>(begun.wants_config(), begun.point_format, points@.len() as int);
            lemma_duration(first.points as int, self.scan_speed);
        }
        self.first_packet_sent(first.points, now_ns);
        packets.push(first.bytes);
        let mut at: usize = first.points;
        let ghost all = frame_packets(begun, command, points@, now_ns);
        let ghost last = after_frame(begun, points@, now_ns);
        assert(packet_views(packets@) + rest_packets(*self, points@.skip(at as int), now_ns) =~= all);
        while at < points.len()
            invariant
                at <= points.len(),
                self.scan_speed != 0,
                self.timestamp + (points.len() - at) * 1_000_000 <= u64::MAX,
                packet_views(packets@) + rest_packets(*self, points@.skip(at as int), now_ns)
                    == all,
                after_rest(*self, points@.skip(at as int), now_ns) == last,
                forall|i: int|
                    0 <= i < packets@.len() ==> (#[trigger] packets@[i])@.len() <= MAX_UDP_PAYLOAD,
            decreases points.len() - at,
        {
            let rest = slice_subrange(points.as_slice(), at, points.len());
            assert(rest@ =~= points@.skip(at as int));
            let ghost before = *self;
            let ghost done = packet_views(packets@);
            let packet = self.build_continuation(rest);
            proof {
                rest@[0].size_is_fixed();
                share_is_sound::<P>(false, before.point_format, rest@.len() as int);
                lemma_duration(packet.points as int, self.scan_speed);
            }
            self.continuation_sent(packet.points, now_ns);
            let ghost bytes = packet.bytes@;
            packets.push(packet.bytes);
            proof {
                assert(rest@.skip(packet.points as int) =~= points@.skip(at + packet.points));
                assert(packet_views(packets@) =~= done.push(bytes));
                assert(done.push(bytes) + rest_packets(
                    *self,
                    points@.skip(at + packet.points),
                    now_ns,
                ) =~= done + (seq![bytes] + rest_packets(
                    *self,
                    points@.skip(at + packet.points),
                    now_ns,
                )));
            }
            at += packet.points;
        }
        proof {
            assert(points@.skip(at as int).len() == 0);
            assert(packet_views(packets@) + seq![] =~= packet_views(packets@));
        }
        Ok(packets)
    }
}

proof fn lemma_capacity_bound(with_config: bool, format: PointFormat, size: int)
    requires
        1 <= size <= 20,
    ensures
        1 <= packet_capacity(with_config, format, size) <= 1454,
{
    let room = 1454 - (16 + config_size(with_config, format));
    assert(1 <= room / size <= 1454) by (nonlinear_arith)
        requires
            1 <= size <= 20,
            1394 <= room <= 1438,
    ;
}

/// A packet takes at least one point, and no more than fit or are left.
pub proof fn share_is_sound<P: Point>(with_config: bool, format: PointFormat, n: int)
    requires
        n >= 1,
        1 <= P::size() <= 20,
    ensures
        1 <= packet_share(n, packet_capacity(with_config, format, P::size())) <= 1454,
        packet_share(n, packet_capacity(with_config, format, P::size())) <= n,
        packet_share(n, packet_capacity(with_config, format, P::size())) <= packet_capacity(
            with_config,
            format,
            P::size(),
        ),
{
    lemma_capacity_bound(with_config, format, P::size());
    packet_share_fits(n, packet_capacity(with_config, format, P::size()));
}

// ---------------------------------------------------------------------------
// Closing
// ---------------------------------------------------------------------------

impl Stream {
    /// The packet that closes the channel.
    pub open spec fn channel_close_packet(self) -> Seq<u8> {
        self.next_header(IDNCMD_RT_CNLMSG) + (ChannelMessageHeader {
            total_size: 12,
            content_id: IDNFLG_CONTENTID_CHANNELMSG | IDNFLG_CONTENTID_CONFIG_LSTFRG | channel_bits(
                self.dac.service.service_id,
            ) | IDNVAL_CNKTYPE_VOID as u16,
            timestamp: self.wire_timestamp(),
        }).bytes() + (ChannelConfigHeader {
            word_count: 0,
            flags: IDNFLG_CHNCFG_CLOSE,
            service_id: self.dac.service.service_id,
            service_mode: 0,
        }).bytes()
    }

    /// Build the channel-close packet.
    pub fn send_channel_close(&mut self) -> (r: Vec<u8>)
        ensures
            r@ == old(self).channel_close_packet(),
            *final(self) == old(self).numbered(),
    {
        let content_id: u16 = IDNFLG_CONTENTID_CHANNELMSG | IDNFLG_CONTENTID_CONFIG_LSTFRG
            | self.channel_id() | IDNVAL_CNKTYPE_VOID as u16;
        let mut out: Vec<u8> = Vec::new();
        let timestamp: u32 = (self.timestamp % 0x1_0000_0000) as u32;
        let service_id: u8 = self.dac.service.service_id;
        let header = PacketHeader {
            command: IDNCMD_RT_CNLMSG,
            flags: self.client_group,
            sequence: self.next_sequence(),
        };
        header.write(&mut out);
        ChannelMessageHeader { total_size: 12, content_id, timestamp }.write(&mut out);
        ChannelConfigHeader {
            word_count: 0,
            flags: IDNFLG_CHNCFG_CLOSE,
            service_id,
            service_mode: 0,
        }.write(&mut out);
        assert(out@ =~= old(self).channel_close_packet());
        out
    }

    /// Build the session-close packet that follows the channel close.
    pub fn close(&mut self) -> (r: Vec<u8>)
        ensures
            r@ == old(self).next_header(IDNCMD_RT_CNLMSG_CLOSE),
            *final(self) == old(self).numbered(),
    {
        self.build_header(IDNCMD_RT_CNLMSG_CLOSE)
    }

    /// Build the session-close packet that asks for an acknowledgment.
    pub fn close_with_ack(&mut self) -> (r: (Vec<u8>, u16))
        ensures
            r.0@ == old(self).next_header(IDNCMD_RT_CNLMSG_CLOSE_ACKREQ),
            r.1 == old(self).sequence,
            *final(self) == old(self).numbered(),
    {
        let sequence: u16 = self.sequence;
        (self.build_header(IDNCMD_RT_CNLMSG_CLOSE_ACKREQ), sequence)
    }

    fn build_header(&mut self, command: u8) -> (r: Vec<u8>)
        ensures
            r@ == old(self).next_header(command),
            *final(self) == old(self).numbered(),
    {
        let mut out: Vec<u8> = Vec::new();
        let header = PacketHeader {
            command,
            flags: self.client_group,
            sequence: self.next_sequence(),
        };
        header.write(&mut out);
        assert(out@ =~= header.bytes());
        out
    }
}

// ---------------------------------------------------------------------------
// Requests and responses
// ---------------------------------------------------------------------------

/// A request packet and the sequence number its response has to carry.
pub struct Request {
    pub bytes: Vec<u8>,
    pub sequence: u16,
}

/// The command codes of a parameter request and its response: unit parameters
/// for service 0, service parameters otherwise.
pub open spec fn param_command_pair(service_id: u8) -> (u8, u8) {
    if service_id == 0 {
        (IDNCMD_UNIT_PARAMS_REQUEST, IDNCMD_UNIT_PARAMS_RESPONSE)
    } else {
        (IDNCMD_SERVICE_PARAMS_REQUEST, IDNCMD_SERVICE_PARAMS_RESPONSE)
    }
}

/// Return the (request_cmd, response_cmd) pair for parameter operations.
pub fn param_commands(service_id: u8) -> (r: (u8, u8))
    ensures
        r == param_command_pair(service_id),
{
    if service_id == 0 {
        (IDNCMD_UNIT_PARAMS_REQUEST, IDNCMD_UNIT_PARAMS_RESPONSE)
    } else {
        (IDNCMD_SERVICE_PARAMS_REQUEST, IDNCMD_SERVICE_PARAMS_RESPONSE)
    }
}

/// The body of a group request.
pub open spec fn group_request_body(op_code: u8, mask: u16) -> Seq<u8> {
    seq![16u8, op_code] + bytes::be_u16_bytes(mask) + Seq::new(12, |i: int| 0u8)
}

impl Stream {
    /// Build a ping request.
    pub fn ping(&mut self) -> (r: Request)
        ensures
            r.bytes@ == old(self).next_header(IDNCMD_PING_REQUEST),
            r.sequence == old(self).sequence,
            *final(self) == old(self).numbered(),
    {
        let sequence: u16 = self.sequence;
        Request { bytes: self.build_header(IDNCMD_PING_REQUEST), sequence }
    }

    fn group_request(&mut self, op_code: u8, mask: u16) -> (r: Request)
        ensures
            r.bytes@ == old(self).next_header(IDNCMD_GROUP_REQUEST) + group_request_body(
                op_code,
                mask,
            ),
            r.sequence == old(self).sequence,
            *final(self) == old(self).numbered(),
    {
        let sequence: u16 = self.sequence;
        let mut out: Vec<u8> = self.build_header(IDNCMD_GROUP_REQUEST);
        out.push(16);
        out.push(op_code);
        push_be_u16(&mut out, mask);
        push_be_u32(&mut out, 0);
        push_be_u32(&mut out, 0);
        push_be_u32(&mut out, 0);
        assert(out@ =~= old(self).next_header(IDNCMD_GROUP_REQUEST) + group_request_body(
            op_code,
            mask,
        ));
        Request { bytes: out, sequence }
    }

    /// Build the request for the server's client group mask.
    pub fn get_client_group_mask(&mut self) -> (r: Request)
        ensures
            r.bytes@ == old(self).next_header(IDNCMD_GROUP_REQUEST) + group_request_body(
                IDNVAL_GROUP_OP_GET,
                0,
            ),
            r.sequence == old(self).sequence,
            *final(self) == old(self).numbered(),
    {
        self.group_request(IDNVAL_GROUP_OP_GET, 0)
    }

    /// Build the request that sets the server's client group mask.
    pub fn set_client_group_mask(&mut self, mask: u16) -> (r: Request)
        ensures
            r.bytes@ == old(self).next_header(IDNCMD_GROUP_REQUEST) + group_request_body(
                IDNVAL_GROUP_OP_SET,
                mask,
            ),
            r.sequence == old(self).sequence,
            *final(self) == old(self).numbered(),
    {
        self.group_request(IDNVAL_GROUP_OP_SET, mask)
    }

    /// Build the request for a parameter value.
    pub fn get_parameter(&mut self, service_id: u8, param_id: u16) -> (r: Request)
        ensures
            r.bytes@ == old(self).next_header(param_command_pair(service_id).0) + seq![
                service_id,
                0u8,
            ] + bytes::be_u16_bytes(param_id),
            r.sequence == old(self).sequence,
            *final(self) == old(self).numbered(),
    {
        let sequence: u16 = self.sequence;
        let (command, _response) = param_commands(service_id);
        let mut out: Vec<u8> = self.build_header(command);
        out.push(service_id);
        out.push(0);
        push_be_u16(&mut out, param_id);
        assert(out@ =~= old(self).next_header(command) + seq![service_id, 0u8]
            + bytes::be_u16_bytes(param_id));
        Request { bytes: out, sequence }
    }

    /// Build the request that sets a parameter value.
    pub fn set_parameter(&mut self, service_id: u8, param_id: u16, value: u32) -> (r: Request)
        ensures
            r.bytes@ == old(self).next_header(param_command_pair(service_id).0) + seq![
                service_id,
                0u8,
            ] + bytes::be_u16_bytes(param_id) + bytes::be_u32_bytes(value),
            r.sequence == old(self).sequence,
            *final(self) == old(self).numbered(),
    {
        let sequence: u16 = self.sequence;
        let (command, _response) = param_commands(service_id);
        let mut out: Vec<u8> = self.build_header(command);
        out.push(service_id);
        out.push(0);
        push_be_u16(&mut out, param_id);
        push_be_u32(&mut out, value);
        assert(out@ =~= old(self).next_header(command) + seq![service_id, 0u8]
            + bytes::be_u16_bytes(param_id) + bytes::be_u32_bytes(value));
        Request { bytes: out, sequence }
    }
}

/// What is wrong with a response, if anything: too short for its header and
/// body, of another command, or numbered differently.
pub open spec fn response_error(
    data: Seq<u8>,
    body: int,
    expected_cmd: u8,
    expected_seq: u16,
) -> Option<CommunicationError> {
    if data.len() < 4 + body {
        Some(CommunicationError::Protocol(ProtocolError::BufferTooSmall))
    } else if data[0] != expected_cmd {
        Some(CommunicationError::Response(ResponseError::UnexpectedResponse))
    } else if bytes::be_u16(data, 2) != expected_seq {
        Some(
            CommunicationError::Protocol(
                ProtocolError::SequenceMismatch {
                    expected: expected_seq,
                    actual: bytes::be_u16(data, 2),
                },
            ),
        )
    } else {
        None
    }
}

/// Verify that a response sequence number matches the expected value.
pub fn check_sequence(expected: u16, actual: u16) -> (r: Result<(), CommunicationError>)
    ensures
        r == (if actual != expected {
            Err::<(), CommunicationError>(
                CommunicationError::Protocol(ProtocolError::SequenceMismatch { expected, actual }),
            )
        } else {
            Ok(())
        }),
{
    if actual != expected {
        return Err(
            CommunicationError::Protocol(ProtocolError::SequenceMismatch { expected, actual }),
        );
    }
    Ok(())
}

/// Validate the header of a received response with a body of the given size.
pub fn check_response(data: &[u8], body: usize, expected_cmd: u8, expected_seq: u16) -> (r: Result<
    (),
    CommunicationError,
>)
    requires
        body <= 1500,
    ensures
        match r {
            Ok(_) => response_error(data@, body as int, expected_cmd, expected_seq) is None,
            Err(e) => response_error(data@, body as int, expected_cmd, expected_seq) == Some(e),
        },
{
    if data.len() < PacketHeader::SIZE_BYTES + body {
        return Err(CommunicationError::Protocol(ProtocolError::BufferTooSmall));
    }
    let header = PacketHeader::read(data);
    if header.command != expected_cmd {
        return Err(CommunicationError::Response(ResponseError::UnexpectedResponse));
    }
    check_sequence(expected_seq, header.sequence)
}

/// Read the answer to a ping.
pub fn recv_ping(data: &[u8], expected_seq: u16) -> (r: Result<(), CommunicationError>)
    ensures
        match r {
            Ok(_) => response_error(data@, 0, IDNCMD_PING_RESPONSE, expected_seq) is None,
            Err(e) => response_error(data@, 0, IDNCMD_PING_RESPONSE, expected_seq) == Some(e),
        },
{
    check_response(data, 0, IDNCMD_PING_RESPONSE, expected_seq)
}

/// What an acknowledgment packet yields.
pub open spec fn acknowledge_outcome(data: Seq<u8>, expected_seq: u16) -> Result<
    AcknowledgeResponse,
    CommunicationError,
> {
    match response_error(data, 12, IDNCMD_RT_ACKNOWLEDGE, expected_seq) {
        Some(e) => Err(e),
        None => match ResponseError::of_ack_code(AcknowledgeResponse::in_packet(data).result_code) {
            Some(error) => Err(CommunicationError::Response(error)),
            None => Ok(AcknowledgeResponse::in_packet(data)),
        },
    }
}

/// Read an acknowledgment: a negative result code is an error.
pub fn recv_acknowledge(data: &[u8], expected_seq: u16) -> (r: Result<
    AcknowledgeResponse,
    CommunicationError,
>)
    ensures
        r == acknowledge_outcome(data@, expected_seq),
{
    match check_response(
        data,
        AcknowledgeResponse::SIZE_BYTES,
        IDNCMD_RT_ACKNOWLEDGE,
        expected_seq,
    ) {
        Ok(_) => {},
        Err(e) => {
            return Err(e);
        },
    }
    let ack = AcknowledgeResponse::read(data);
    match ResponseError::from_ack_code(ack.result_code) {
        Some(error) => Err(CommunicationError::Response(error)),
        None => Ok(ack),
    }
}

/// Read the answer to a group request.
pub fn recv_group(data: &[u8], expected_seq: u16) -> (r: Result<GroupResponse, CommunicationError>)
    ensures
        r == match response_error(data@, 4, IDNCMD_GROUP_RESPONSE, expected_seq) {
            Some(e) => Err::<GroupResponse, CommunicationError>(e),
            None => Ok(GroupResponse::in_packet(data@)),
        },
{
    match check_response(data, GroupResponse::SIZE_BYTES, IDNCMD_GROUP_RESPONSE, expected_seq) {
        Ok(_) => Ok(GroupResponse::read(data)),
        Err(e) => Err(e),
    }
}

/// Check a parameter response for errors.
pub fn check_parameter_response(response: &ParameterResponse) -> (r: Result<(), CommunicationError>)
    ensures
        r == match ResponseError::of_ack_code(response.result_code) {
            Some(error) => Err::<(), CommunicationError>(CommunicationError::Response(error)),
            None => Ok(()),
        },
{
    match ResponseError::from_ack_code(response.result_code) {
        Some(error) => Err(CommunicationError::Response(error)),
        None => Ok(()),
    }
}

/// What a parameter response packet yields.
pub open spec fn parameter_outcome(data: Seq<u8>, service_id: u8, expected_seq: u16) -> Result<
    ParameterResponse,
    CommunicationError,
> {
    match response_error(data, 8, param_command_pair(service_id).1, expected_seq) {
        Some(e) => Err(e),
        None => match ResponseError::of_ack_code(ParameterResponse::in_packet(data).result_code) {
            Some(error) => Err(CommunicationError::Response(error)),
            None => Ok(ParameterResponse::in_packet(data)),
        },
    }
}

/// Read the answer to a parameter request for a service.
pub fn recv_parameter(data: &[u8], service_id: u8, expected_seq: u16) -> (r: Result<
    ParameterResponse,
    CommunicationError,
>)
    ensures
        r == parameter_outcome(data@, service_id, expected_seq),
{
    let (_command, response_cmd) = param_commands(service_id);
    match check_response(data, ParameterResponse::SIZE_BYTES, response_cmd, expected_seq) {
        Ok(_) => {},
        Err(e) => {
            return Err(e);
        },
    }
    let response = ParameterResponse::read(data);
    match check_parameter_response(&response) {
        Ok(_) => Ok(response),
        Err(e) => Err(e),
    }
}

/// The error for a failed receive: a timeout if nothing came in time.
pub fn recv_failure(error: IoError) -> (r: CommunicationError)
    ensures
        r == (if error.kind == IoErrorKind::WouldBlock || error.kind == IoErrorKind::TimedOut {
            CommunicationError::Response(ResponseError::Timeout)
        } else {
            CommunicationError::Io(error)
        }),
{
    if error.kind == IoErrorKind::WouldBlock || error.kind == IoErrorKind::TimedOut {
        CommunicationError::Response(ResponseError::Timeout)
    } else {
        CommunicationError::Io(error)
    }
}

proof fn lemma_numbered(st: Stream, command: u8, body: Seq<u8>)
    ensures
        ({
            let s = st.next_header(command) + body;
            &&& s.len() == 4 + body.len()
            &&& s[0] == command
            &&& s[1] == st.client_group
            &&& bytes::be_u16(s, 2) == st.sequence
            &&& s.skip(4) == body
        }),
{
    let s = st.next_header(command) + body;
    assert(s.subrange(2, 4) =~= bytes::be_u16_bytes(st.sequence));
    bytes::be_u16_round_trip(s, 2, st.sequence);
    assert(s.skip(4) =~= body);
}

/// Whether bytes start with the header of the next packet of a stream.
pub open spec fn starts_next_packet(before: Stream, after: Stream, s: Seq<u8>, command: u8) -> bool {
    &&& s.len() >= 4
    &&& s[0] == command
    &&& s[1] == before.client_group
    &&& bytes::be_u16(s, 2) == before.sequence
    &&& after.sequence == if before.sequence == 0xFFFF {
        0int
    } else {
        before.sequence + 1
    }
    &&& after.timestamp == before.timestamp
    &&& after.frame_count == before.frame_count
    &&& after.last_send_ns == before.last_send_ns
    &&& after.point_format == before.point_format
    &&& after.scan_speed == before.scan_speed
}

/// A keepalive is a message of the channel that holds nothing and is not marked, with the
/// time that the next samples have.
pub proof fn keepalive_holds_nothing()
    ensures
        forall|st: &mut Stream, r: Vec<u8>| #[trigger]
            call_ensures(Stream::send_keepalive, (st,), r) ==> {
                &&& starts_next_packet(*st, *final(st), r@, 0x40)
                &&& r@.len() == 12
                &&& bytes::be_u16(r@, 4) == 8
                &&& bytes::be_u16(r@, 6) == 0x8000 + 256 * ((if st.dac.service.service_id == 0 {
                    0int
                } else {
                    st.dac.service.service_id - 1
                }) % 64)
                &&& bytes::be_u32(r@, 8) == st.timestamp as int % 0x1_0000_0000
            },
{
    assert forall|st: &mut Stream, r: Vec<u8>| #[trigger]
        call_ensures(Stream::send_keepalive, (st,), r) implies {
        &&& starts_next_packet(*st, *final(st), r@, 0x40)
        &&& r@.len() == 12
        &&& bytes::be_u16(r@, 4) == 8
        &&& bytes::be_u16(r@, 6) == 0x8000 + 256 * ((if st.dac.service.service_id == 0 {
            0int
        } else {
            st.dac.service.service_id - 1
        }) % 64)
        &&& bytes::be_u32(r@, 8) == st.timestamp as int % 0x1_0000_0000
    } by {
        let id = st.dac.service.service_id;
        let h = ChannelMessageHeader {
            total_size: 8,
            content_id: IDNFLG_CONTENTID_CHANNELMSG | channel_bits(id) | IDNVAL_CNKTYPE_VOID as u16,
            timestamp: st.wire_timestamp(),
        };
        lemma_numbered(*st, 0x40, h.bytes());
        assert(r@.subrange(4, 6) =~= bytes::be_u16_bytes(8));
        assert(r@.subrange(6, 8) =~= bytes::be_u16_bytes(h.content_id));
        assert(r@.subrange(8, 12) =~= bytes::be_u32_bytes(h.timestamp));
        bytes::be_u16_round_trip(r@, 4, 8);
        bytes::be_u16_round_trip(r@, 6, h.content_id);
        bytes::be_u32_round_trip(r@, 8, h.timestamp);
        let c: u16 = if id == 0 {
            0
        } else {
            (id - 1) as u16
        };
        assert(0x8000u16 | ((c & 0x3Fu16) << 8u16) | 0u16 == 0x8000 + 256 * (c % 64)) by (bit_vector)
            requires
                c < 256,
        ;
    }
}

/// A request carries the number that its answer has to carry, and the next request
/// another. A ping and a close are a bare header.
pub proof fn requests_are_numbered()
    ensures
        forall|st: &mut Stream, r: Request| #[trigger]
            call_ensures(Stream::ping, (st,), r) ==> starts_next_packet(
                *st,
                *final(st),
                r.bytes@,
                0x08,
            ) && r.bytes@.len() == 4 && r.sequence == st.sequence,
        forall|st: &mut Stream, r: Vec<u8>| #[trigger]
            call_ensures(Stream::close, (st,), r) ==> starts_next_packet(*st, *final(st), r@, 0x44)
                && r@.len() == 4,
        forall|st: &mut Stream, r: (Vec<u8>, u16)| #[trigger]
            call_ensures(Stream::close_with_ack, (st,), r) ==> starts_next_packet(
                *st,
                *final(st),
                r.0@,
                0x45,
            ) && r.0@.len() == 4 && r.1 == st.sequence,
{
    assert forall|st: &mut Stream, r: Request| #[trigger]
        call_ensures(Stream::ping, (st,), r) implies starts_next_packet(
        *st,
        *final(st),
        r.bytes@,
        0x08,
    ) && r.bytes@.len() == 4 && r.sequence == st.sequence by {
        lemma_numbered(*st, 0x08, seq![]);
        assert(st.next_header(0x08) + seq![] =~= r.bytes@);
    }
    assert forall|st: &mut Stream, r: Vec<u8>| #[trigger]
        call_ensures(Stream::close, (st,), r) implies starts_next_packet(*st, *final(st), r@, 0x44)
        && r@.len() == 4 by {
        lemma_numbered(*st, 0x44, seq![]);
        assert(st.next_header(0x44) + seq![] =~= r@);
    }
    assert forall|st: &mut Stream, r: (Vec<u8>, u16)| #[trigger]
        call_ensures(Stream::close_with_ack, (st,), r) implies starts_next_packet(
        *st,
        *final(st),
        r.0@,
        0x45,
    ) && r.0@.len() == 4 && r.1 == st.sequence by {
        lemma_numbered(*st, 0x45, seq![]);
        assert(st.next_header(0x45) + seq![] =~= r.0@);
    }
}

/// A group request carries its own size, whether it reads or sets, and the mask that is
/// to be set; what follows is zero.
pub proof fn group_requests_carry_the_mask()
    ensures
        forall|st: &mut Stream, r: Request| #[trigger]
            call_ensures(Stream::get_client_group_mask, (st,), r) ==> {
                &&& starts_next_packet(*st, *final(st), r.bytes@, 0x0C)
                &&& r.sequence == st.sequence
                &&& r.bytes@.len() == 4 + r.bytes@[4]
                &&& r.bytes@[4] == 16
                &&& r.bytes@[5] == 1
                &&& forall|i: int| 6 <= i < 20 ==> #[trigger] r.bytes@[i] == 0
            },
        forall|st: &mut Stream, mask: u16, r: Request| #[trigger]
            call_ensures(Stream::set_client_group_mask, (st, mask), r) ==> {
                &&& starts_next_packet(*st, *final(st), r.bytes@, 0x0C)
                &&& r.sequence == st.sequence
                &&& r.bytes@.len() == 4 + r.bytes@[4]
                &&& r.bytes@[4] == 16
                &&& r.bytes@[5] == 2
                &&& bytes::be_u16(r.bytes@, 6) == mask
                &&& forall|i: int| 8 <= i < 20 ==> #[trigger] r.bytes@[i] == 0
            },
{
    assert forall|st: &mut Stream, r: Request| #[trigger]
        call_ensures(Stream::get_client_group_mask, (st,), r) implies {
        &&& starts_next_packet(*st, *final(st), r.bytes@, 0x0C)
        &&& r.sequence == st.sequence
        &&& r.bytes@.len() == 4 + r.bytes@[4]
        &&& r.bytes@[4] == 16
        &&& r.bytes@[5] == 1
        &&& forall|i: int| 6 <= i < 20 ==> #[trigger] r.bytes@[i] == 0
    } by {
        lemma_numbered(*st, 0x0C, group_request_body(1, 0));
    }
    assert forall|st: &mut Stream, mask: u16, r: Request| #[trigger]
        call_ensures(Stream::set_client_group_mask, (st, mask), r) implies {
        &&& starts_next_packet(*st, *final(st), r.bytes@, 0x0C)
        &&& r.sequence == st.sequence
        &&& r.bytes@.len() == 4 + r.bytes@[4]
        &&& r.bytes@[4] == 16
        &&& r.bytes@[5] == 2
        &&& bytes::be_u16(r.bytes@, 6) == mask
        &&& forall|i: int| 8 <= i < 20 ==> #[trigger] r.bytes@[i] == 0
    } by {
        lemma_numbered(*st, 0x0C, group_request_body(2, mask));
        assert(r.bytes@.subrange(6, 8) =~= bytes::be_u16_bytes(mask));
        bytes::be_u16_round_trip(r.bytes@, 6, mask);
    }
}

/// A parameter request names its service and its parameter, and the value that is to be
/// set; requests to the unit and to a service have commands of their own.
pub proof fn parameter_requests_carry_the_value()
    ensures
        forall|st: &mut Stream, service_id: u8, param_id: u16, r: Request| #[trigger]
            call_ensures(Stream::get_parameter, (st, service_id, param_id), r) ==> {
                &&& service_id == 0 ==> starts_next_packet(*st, *final(st), r.bytes@, 0x22)
                &&& service_id != 0 ==> starts_next_packet(*st, *final(st), r.bytes@, 0x20)
                &&& r.sequence == st.sequence
                &&& r.bytes@.len() == 8
                &&& r.bytes@[4] == service_id
                &&& r.bytes@[5] == 0
                &&& bytes::be_u16(r.bytes@, 6) == param_id
            },
        forall|st: &mut Stream, service_id: u8, param_id: u16, value: u32, r: Request| #[trigger]
            call_ensures(Stream::set_parameter, (st, service_id, param_id, value), r) ==> {
                &&& service_id == 0 ==> starts_next_packet(*st, *final(st), r.bytes@, 0x22)
                &&& service_id != 0 ==> starts_next_packet(*st, *final(st), r.bytes@, 0x20)
                &&& r.sequence == st.sequence
                &&& r.bytes@.len() == 12
                &&& r.bytes@[4] == service_id
                &&& r.bytes@[5] == 0
                &&& bytes::be_u16(r.bytes@, 6) == param_id
                &&& bytes::be_u32(r.bytes@, 8) == value
            },
{
    assert forall|st: &mut Stream, service_id: u8, param_id: u16, r: Request| #[trigger]
        call_ensures(Stream::get_parameter, (st, service_id, param_id), r) implies {
        &&& service_id == 0 ==> starts_next_packet(*st, *final(st), r.bytes@, 0x22)
        &&& service_id != 0 ==> starts_next_packet(*st, *final(st), r.bytes@, 0x20)
        &&& r.sequence == st.sequence
        &&& r.bytes@.len() == 8
        &&& r.bytes@[4] == service_id
        &&& r.bytes@[5] == 0
        &&& bytes::be_u16(r.bytes@, 6) == param_id
    } by {
        let command = param_command_pair(service_id).0;
        let body = seq![service_id, 0u8] + bytes::be_u16_bytes(param_id);
        lemma_numbered(*st, command, body);
        assert(st.next_header(command) + body =~= r.bytes@);
        assert(r.bytes@.subrange(6, 8) =~= bytes::be_u16_bytes(param_id));
        bytes::be_u16_round_trip(r.bytes@, 6, param_id);
    }
    assert forall|st: &mut Stream, service_id: u8, param_id: u16, value: u32, r: Request| #[trigger]
        call_ensures(Stream::set_parameter, (st, service_id, param_id, value), r) implies {
        &&& service_id == 0 ==> starts_next_packet(*st, *final(st), r.bytes@, 0x22)
        &&& service_id != 0 ==> starts_next_packet(*st, *final(st), r.bytes@, 0x20)
        &&& r.sequence == st.sequence
        &&& r.bytes@.len() == 12
        &&& r.bytes@[4] == service_id
        &&& r.bytes@[5] == 0
        &&& bytes::be_u16(r.bytes@, 6) == param_id
        &&& bytes::be_u32(r.bytes@, 8) == value
    } by {
        let command = param_command_pair(service_id).0;
        let body = seq![service_id, 0u8] + bytes::be_u16_bytes(param_id) + bytes::be_u32_bytes(
            value,
        );
        lemma_numbered(*st, command, body);
        assert(st.next_header(command) + body =~= r.bytes@);
        assert(r.bytes@.subrange(6, 8) =~= bytes::be_u16_bytes(param_id));
        assert(r.bytes@.subrange(8, 12) =~= bytes::be_u32_bytes(value));
        bytes::be_u16_round_trip(r.bytes@, 6, param_id);
        bytes::be_u32_round_trip(r.bytes@, 8, value);
    }
}

/// An answer is taken if it is whole, answers the command and carries the number of the
/// request; one that reports a failure is an error with that failure.
pub proof fn only_the_awaited_answer_is_taken()
    ensures
        forall|data: &[u8], seq: u16, r: Result<(), CommunicationError>| #[trigger]
            call_ensures(recv_ping, (data, seq), r) ==> (r is Ok <==> data@.len() >= 4 && data@[0]
                == 0x09 && 256 * data@[2] + data@[3] == seq),
        forall|data: &[u8], seq: u16, r: Result<GroupResponse, CommunicationError>| #[trigger]
            call_ensures(recv_group, (data, seq), r) ==> {
                &&& r is Ok <==> data@.len() >= 8 && data@[0] == 0x0D && 256 * data@[2] + data@[3]
                    == seq
                &&& r matches Ok(g) ==> g.struct_size == data@[4] && g.group_mask == 256 * data@[6]
                    + data@[7] && (g.op_code - data@[5]) % 256 == 0
            },
        forall|data: &[u8], seq: u16, r: Result<AcknowledgeResponse, CommunicationError>| #[trigger]
            call_ensures(recv_acknowledge, (data, seq), r) ==> {
                &&& r is Ok <==> data@.len() >= 16 && data@[0] == 0x47 && 256 * data@[2] + data@[3]
                    == seq && data@[5] < 128
                &&& r matches Ok(a) ==> {
                    &&& a.struct_size == data@[4]
                    &&& a.result_code == data@[5]
                    &&& a.input_event_flags == 256 * data@[6] + data@[7]
                    &&& a.pipeline_event_flags == 256 * data@[8] + data@[9]
                    &&& a.status_flags == data@[10]
                    &&& a.link_quality == data@[11]
                    &&& a.latency_us == bytes::be_u32(data@, 12)
                }
            },
        forall|
            data: &[u8],
            service_id: u8,
            seq: u16,
            r: Result<ParameterResponse, CommunicationError>,
        | #[trigger]
            call_ensures(recv_parameter, (data, service_id, seq), r) ==> {
                &&& r is Ok <==> data@.len() >= 12 && data@[0] == (if service_id == 0 {
                    0x23int
                } else {
                    0x21
                }) && 256 * data@[2] + data@[3] == seq && data@[5] < 128
                &&& r matches Ok(p) ==> {
                    &&& p.service_id == data@[4]
                    &&& p.result_code == data@[5]
                    &&& p.param_id == 256 * data@[6] + data@[7]
                    &&& p.value == bytes::be_u32(data@, 8)
                }
            },
{
}

/// Each failure code that a server reports is told as itself, and a wait that was too long
/// as a timeout.
pub proof fn failures_are_told_apart()
    ensures
        forall|code: i8, r: Option<ResponseError>| #[trigger]
            call_ensures(ResponseError::from_ack_code, (code,), r) ==> {
                &&& r is None <==> code >= 0
                &&& r == Some(ResponseError::NotConnected) <==> code + 256 == 0xEB
                &&& r == Some(ResponseError::Occupied) <==> code + 256 == 0xEC
                &&& r == Some(ResponseError::Excluded) <==> code + 256 == 0xED
                &&& r == Some(ResponseError::InvalidPayload) <==> code + 256 == 0xEE
                &&& r == Some(ResponseError::GenericError) <==> code + 256 == 0xEF
                &&& code < -21 || -17 < code < 0 ==> r == Some(ResponseError::UnknownAckCode(code))
            },
        forall|e: IoError, r: CommunicationError| #[trigger]
            call_ensures(recv_failure, (e,), r) ==> {
                &&& r == CommunicationError::Response(ResponseError::Timeout)
                    <==> e.kind is WouldBlock || e.kind is TimedOut
                &&& !(e.kind is WouldBlock || e.kind is TimedOut) ==> r == CommunicationError::Io(e)
            },
{
}

/// A link that was silent for more than half a second needs a keepalive; one on which
/// nothing was sent yet needs none.
pub proof fn silence_asks_for_a_keepalive()
    ensures
        forall|st: &Stream, now_ns: u64, r: bool| #[trigger]
            call_ensures(Stream::needs_keepalive, (st, now_ns), r) ==> {
                &&& st.last_send_ns matches Some(last) ==> (r <==> now_ns > last + 500_000_000)
                &&& st.last_send_ns is None && st.frame_count == 0 ==> !r
            },
        forall|st: &Stream, now_ns: u64, r: Option<u64>| #[trigger]
            call_ensures(Stream::time_since_last_send, (st, now_ns), r) ==> {
                &&& r is None <==> st.last_send_ns is None
                &&& r is Some && now_ns >= st.last_send_ns->0 ==> st.last_send_ns->0 + r->0
                    == now_ns
                &&& r is Some && now_ns < st.last_send_ns->0 ==> r->0 == 0
            },
        forall|st: &mut Stream, now_ns: u64| #[trigger]
            call_ensures(Stream::packet_sent, (st, now_ns), ()) ==> {
                &&& final(st).last_send_ns == Some(now_ns)
                &&& final(st).timestamp == st.timestamp
                &&& final(st).sequence == st.sequence
            },
{
}

/// A setting that is changed is the one that is asked back, and leaves the others and the
/// numbering alone.
pub proof fn settings_are_kept()
    ensures
        forall|st: &mut Stream, pps: u32| #[trigger]
            call_ensures(Stream::set_scan_speed, (st, pps), ()) ==> {
                &&& final(st).scan_speed == pps
                &&& final(st).point_format == st.point_format
                &&& final(st).frame_mode == st.frame_mode
                &&& final(st).timestamp == st.timestamp
                &&& final(st).sequence == st.sequence
            },
        forall|st: &mut Stream, format: PointFormat| #[trigger]
            call_ensures(Stream::set_point_format, (st, format), ()) ==> {
                &&& final(st).point_format == format
                &&& final(st).previous_format == st.previous_format
                &&& final(st).scan_speed == st.scan_speed
                &&& final(st).frame_mode == st.frame_mode
                &&& final(st).sequence == st.sequence
            },
        forall|st: &mut Stream, mode: FrameMode| #[trigger]
            call_ensures(Stream::set_frame_mode, (st, mode), ()) ==> {
                &&& final(st).frame_mode == mode
                &&& final(st).point_format == st.point_format
                &&& final(st).scan_speed == st.scan_speed
                &&& final(st).sequence == st.sequence
            },
{
}

/// A connection goes to the first address of a server that has the service, and starts
/// with nothing sent; without an address or the service there is none.
pub proof fn connection_starts_afresh()
    ensures
        forall|server: &ServerInfo, id: u8, group: u8, now_ns: u64, r: Result<Stream, IoError>|
            #[trigger] call_ensures(connect_with_group, (server, id, group, now_ns), r) ==> {
                &&& r matches Ok(s) ==> {
                    &&& s.dac.address == server.addresses@[0]
                    &&& s.dac.service.service_id == id
                    &&& s.client_group == group % 16
                    &&& s.sequence == 0 && s.timestamp == 0 && s.frame_count == 0
                    &&& s.last_send_ns is None && s.previous_format is None
                    &&& s.scan_speed == 30_000
                }
                &&& r matches Err(e) ==> e.kind is NotFound
                &&& server.addresses@.len() == 0 ==> r is Err
            },
{
    assert forall|group: u8| #[trigger] (group & 0x0Fu8) == group % 16 by {
        assert(group & 0x0Fu8 == group % 16) by (bit_vector);
    }
}

/// A packet that was sent moves the clock of the stream by as long as its points play, and
/// that is when something was last sent. Only the first packet of a frame counts a frame.
pub proof fn sent_packets_move_the_clock()
    ensures
        forall|st: &mut Stream, n: usize, now_ns: u64| #[trigger]
            call_ensures(Stream::first_packet_sent, (st, n, now_ns), ()) && st.scan_speed != 0 && n
                <= MAX_UDP_PAYLOAD && st.timestamp + duration_us(n as int, st.scan_speed)
                <= u64::MAX && st.frame_count < u64::MAX ==> {
                let t = final(st).timestamp - st.timestamp;
                &&& t * st.scan_speed <= n * 1_000_000 < (t + 1) * st.scan_speed
                &&& final(st).last_send_ns == Some(now_ns)
                &&& final(st).frame_count == st.frame_count + 1
                &&& final(st).sequence == st.sequence
                &&& final(st).scan_speed == st.scan_speed
                &&& final(st).previous_format == st.previous_format
            },
        forall|st: &mut Stream, n: usize, now_ns: u64| #[trigger]
            call_ensures(Stream::continuation_sent, (st, n, now_ns), ()) && st.scan_speed != 0 && n
                <= MAX_UDP_PAYLOAD && st.timestamp + duration_us(n as int, st.scan_speed)
                <= u64::MAX ==> {
                let t = final(st).timestamp - st.timestamp;
                &&& t * st.scan_speed <= n * 1_000_000 < (t + 1) * st.scan_speed
                &&& final(st).last_send_ns == Some(now_ns)
                &&& final(st).frame_count == st.frame_count
                &&& final(st).sequence == st.sequence
                &&& final(st).scan_speed == st.scan_speed
                &&& final(st).previous_format == st.previous_format
            },
{
    assert forall|st: &mut Stream, n: usize, now_ns: u64| #[trigger]
        call_ensures(Stream::first_packet_sent, (st, n, now_ns), ()) && st.scan_speed != 0 && n
            <= MAX_UDP_PAYLOAD && st.timestamp + duration_us(n as int, st.scan_speed) <= u64::MAX
            && st.frame_count < u64::MAX implies ({
        let t = final(st).timestamp - st.timestamp;
        t * st.scan_speed <= n * 1_000_000 < (t + 1) * st.scan_speed
    }) by {
        lemma_played(n as int, st.scan_speed);
    }
    assert forall|st: &mut Stream, n: usize, now_ns: u64| #[trigger]
        call_ensures(Stream::continuation_sent, (st, n, now_ns), ()) && st.scan_speed != 0 && n
            <= MAX_UDP_PAYLOAD && st.timestamp + duration_us(n as int, st.scan_speed)
            <= u64::MAX implies ({
        let t = final(st).timestamp - st.timestamp;
        t * st.scan_speed <= n * 1_000_000 < (t + 1) * st.scan_speed
    }) by {
        lemma_played(n as int, st.scan_speed);
    }
}

proof fn lemma_played(n: int, speed: u32)
    requires
        n >= 0,
        speed > 0,
    ensures
        ({
            let t = duration_us(n, speed);
            &&& t >= 0
            &&& t * speed <= n * 1_000_000 < (t + 1) * speed
        }),
{
    let t = duration_us(n, speed);
    let d = speed as int;
    let x = n * 1_000_000;
    assert(t >= 0 && t * d <= x < (t + 1) * d) by (nonlinear_arith)
        requires
            t == x / d,
            d > 0,
            x >= 0,
    ;
}

/// A packet of samples takes some of the points from the front, fits a datagram, and
/// carries the number of the stream, the next one with each packet.
pub proof fn sample_packets_are_numbered<P: Point>()
    ensures
        forall|st: &mut Stream, points: &[P], command: u8, r: SamplePacket| #[trigger]
            call_ensures(Stream::build_first_packet::<P>, (st, points, command), r)
                && st.scan_speed != 0 && points@.len() > 0 ==> {
                &&& r.bytes@ == st.first_packet(command, points@)
                &&& r.sequence == st.sequence
                &&& r.bytes@.len() <= 1454
                &&& 1 <= r.points <= points@.len()
                &&& final(st).sequence == if st.sequence == 0xFFFF {
                    0int
                } else {
                    st.sequence + 1
                }
                &&& final(st).timestamp == st.timestamp
                &&& final(st).frame_count == st.frame_count
            },
        forall|st: &mut Stream, points: &[P], r: SamplePacket| #[trigger]
            call_ensures(Stream::build_continuation::<P>, (st, points), r) && st.scan_speed != 0
                && points@.len() > 0 ==> {
                &&& r.bytes@ == st.rest_packet(points@)
                &&& r.sequence == st.sequence
                &&& r.bytes@.len() <= 1454
                &&& 1 <= r.points <= points@.len()
                &&& final(st).sequence == if st.sequence == 0xFFFF {
                    0int
                } else {
                    st.sequence + 1
                }
                &&& final(st).timestamp == st.timestamp
                &&& final(st).frame_count == st.frame_count
                &&& final(st).previous_format == st.previous_format
            },
        forall|st: &mut Stream, points: &[P], now_ns: u64, r: Result<Vec<P>, CommunicationError>|
            #[trigger] call_ensures(Stream::prepare_points::<P>, (st, points, now_ns), r)
                && points@.len() > 0 ==> {
                &&& r is Ok <==> st.scan_speed != 0
                &&& r matches Ok(p) ==> p@.len() >= 20 && points@.is_prefix_of(p@) && (points@.len()
                    >= 20 ==> p@ == points@)
                &&& final(st).sequence == st.sequence
                &&& final(st).scan_speed == st.scan_speed
                &&& final(st).frame_count == st.frame_count
            },
{
}

/// The first frame starts the clock at the whole microseconds since the connection was
/// made; a later one goes on with the clock as it stands. The match counter moves on just
/// where the format is another than before.
pub proof fn first_frame_starts_the_clock(st: Stream, now_ns: u64)
    ensures
        ({
            let begun = st.frame_begun(now_ns);
            &&& st.frame_count == 0 && now_ns >= st.connect_ns ==> begun.timestamp * 1000 <= now_ns
                - st.connect_ns < (begun.timestamp + 1) * 1000
            &&& st.frame_count > 0 ==> begun.timestamp == st.timestamp
            &&& st.previous_format == Some(st.point_format) ==> begun.service_data_match
                == st.service_data_match
            &&& st.previous_format != Some(st.point_format) ==> begun.service_data_match
                != st.service_data_match && (begun.service_data_match - st.service_data_match - 1)
                % 256 == 0
            &&& begun.sequence == st.sequence
            &&& begun.frame_count == st.frame_count
            &&& begun.scan_speed == st.scan_speed
            &&& begun.point_format == st.point_format
            &&& begun.last_send_ns == st.last_send_ns
        }),
{
}

} // verus!
