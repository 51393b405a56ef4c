//! IDN channel-message parser for the receiver.
//!
//! Parses the channel message header, channel config header, descriptor array
//! and sample chunk into a [`ParsedChunk`]. The sample format is read from the
//! declared descriptors, so XY, XYRGB, XYRGBI, high-res XYRGB and extended
//! streams are handled; other formats are skipped.

use vstd::prelude::*;
use vstd::slice::slice_subrange;

use crate::bytes::{self, read_be_i16, read_be_u16, read_be_u32};
use crate::net::SocketAddr;

verus! {

// Content ID flags.
pub const IDNFLG_CONTENTID_CHANNELMSG: u16 = 0x8000;
pub const IDNFLG_CONTENTID_CONFIG_LSTFRG: u16 = 0x4000;
pub const IDNMSK_CONTENTID_CHANNELID: u16 = 0x3F00;
pub const IDNMSK_CONTENTID_CNKTYPE: u16 = 0x00FF;
pub const IDNVAL_CNKTYPE_VOID: u8 = 0x00;
pub const IDNVAL_CNKTYPE_LPGRF_WAVE: u8 = 0x01;
pub const IDNVAL_CNKTYPE_LPGRF_FRAME: u8 = 0x02;
pub const IDNVAL_CNKTYPE_LPGRF_FRAME_FIRST: u8 = 0x03;
pub const IDNVAL_CNKTYPE_LPGRF_FRAME_SEQUEL: u8 = 0xC0;

// Channel configuration flags.
pub const IDNFLG_CHNCFG_ROUTING: u8 = 0x01;
pub const IDNFLG_CHNCFG_CLOSE: u8 = 0x02;
pub const IDNMSK_CHNCFG_SDM: u8 = 0x30;
pub const IDNMSK_CHUNKFLAGS_SCM: u8 = 0x30;

// Laser projector service modes.
pub const IDNVAL_SMOD_VOID: u8 = 0x00;
pub const IDNVAL_SMOD_LPGRF_CONTINUOUS: u8 = 0x01;
pub const IDNVAL_SMOD_LPGRF_DISCRETE: u8 = 0x02;

// Descriptors.
pub const DESC_X: u16 = 0x4200;
pub const DESC_Y: u16 = 0x4210;
pub const DESC_RED_638: u16 = 0x527E;
pub const DESC_GREEN_532: u16 = 0x5214;
pub const DESC_BLUE_460: u16 = 0x51CC;
pub const DESC_INTENSITY: u16 = 0x5C10;
pub const DESC_USER_1: u16 = 0x51BD;
pub const DESC_USER_2: u16 = 0x5241;
pub const DESC_USER_3: u16 = 0x51E8;
pub const DESC_X_PRIME: u16 = 0x4201;
pub const DESC_PRECISION_16BIT: u16 = 0x4010;
pub const DESC_NIL: u16 = 0x0000;

/// Full scale of a coordinate: `x` and `y` of a [`ReceivedPoint`] are in units
/// of one 32767th.
pub const COORDINATE_FULL_SCALE: i16 = 32767;

/// A parsed point.
///
/// The position is `x / 32767`, `y / 32767`, in `-1..=1`. The color is
/// `r / full_scale`, `g / full_scale`, `b / full_scale`, in `0..=1`, with the
/// intensity already multiplied into it.
#[derive(Clone, Copy, Debug, PartialEq, Eq, Structural)]
pub struct ReceivedPoint {
    pub x: i16,
    pub y: i16,
    pub r: u32,
    pub g: u32,
    pub b: u32,
    pub full_scale: u32,
}

/// Sample format identified from the channel descriptors.
#[derive(Clone, Copy, Debug, PartialEq, Eq, Structural)]
pub enum SampleFormat {
    /// X + Y, both 16-bit (4 bytes/sample).
    Xy,
    /// X + Y (16-bit) + R + G + B (8-bit), 7 bytes/sample.
    Xyrgb,
    /// X + Y (16-bit) + R + G + B + Intensity (8-bit), 8 bytes/sample.
    Xyrgbi,
    /// X + Y + R + G + B, all 16-bit (10 bytes/sample).
    XyrgbHighRes,
    /// X + Y + R + G + B + Intensity + four user channels, all 16-bit (20 bytes/sample).
    Extended,
}

impl SampleFormat {
    /// Bytes per sample.
    pub open spec fn size(self) -> int {
        match self {
            SampleFormat::Xy => 4,
            SampleFormat::Xyrgb => 7,
            SampleFormat::Xyrgbi => 8,
            SampleFormat::XyrgbHighRes => 10,
            SampleFormat::Extended => 20,
        }
    }

    /// Bytes per sample for this format.
    pub fn sample_size(&self) -> (r: usize)
        ensures
            r == self.size(),
    {
        match self {
            SampleFormat::Xy => 4,
            SampleFormat::Xyrgb => 7,
            SampleFormat::Xyrgbi => 8,
            SampleFormat::XyrgbHighRes => 10,
            SampleFormat::Extended => 20,
        }
    }
}

/// Logical IDN laser-graphics chunk type parsed from the content id.
#[derive(Clone, Copy, Debug, PartialEq, Eq, Structural)]
pub enum ChunkType {
    /// Void/keepalive message with no point data.
    Void,
    /// Continuous/wave sample stream without discrete frame boundaries.
    Wave,
    /// Complete discrete frame in a single channel message.
    Frame,
    /// First channel message of a multi-message discrete frame.
    FrameFirst,
    /// Continuation channel message of a multi-message discrete frame.
    FrameSequel,
    /// Unknown chunk type byte.
    Other(u8),
}

impl ChunkType {
    /// The chunk type a content-id byte stands for.
    pub open spec fn of_byte(value: u8) -> ChunkType {
        if value == 0x00 {
            ChunkType::Void
        } else if value == 0x01 {
            ChunkType::Wave
        } else if value == 0x02 {
            ChunkType::Frame
        } else if value == 0x03 {
            ChunkType::FrameFirst
        } else if value == 0xC0 {
            ChunkType::FrameSequel
        } else {
            ChunkType::Other(value)
        }
    }

    pub fn from_byte(value: u8) -> (r: ChunkType)
        ensures
            r == ChunkType::of_byte(value),
    {
        if value == IDNVAL_CNKTYPE_VOID {
            ChunkType::Void
        } else if value == IDNVAL_CNKTYPE_LPGRF_WAVE {
            ChunkType::Wave
        } else if value == IDNVAL_CNKTYPE_LPGRF_FRAME {
            ChunkType::Frame
        } else if value == IDNVAL_CNKTYPE_LPGRF_FRAME_FIRST {
            ChunkType::FrameFirst
        } else if value == IDNVAL_CNKTYPE_LPGRF_FRAME_SEQUEL {
            ChunkType::FrameSequel
        } else {
            ChunkType::Other(value)
        }
    }
}

// ---------------------------------------------------------------------------
// Descriptor classification
// ---------------------------------------------------------------------------

/// One sample channel of a descriptor array: its identifier and its width.
#[derive(Clone, Copy, Debug, PartialEq, Eq, Structural)]
pub struct Channel {
    pub id: u16,
    pub bytes: u8,
}

/// Category 0 descriptors: void tags, which carry no sample octet but may be
/// followed by up to 15 suffix words.
pub open spec fn is_void_tag(desc: u16) -> bool {
    desc & 0xF000u16 == 0
}

/// A break descriptor, which starts another scan-head group.
pub open spec fn is_break(desc: u16) -> bool {
    desc & 0xFF00u16 == 0x1000
}

/// Category 1 descriptors: modifiers without a sample octet.
pub open spec fn is_modifier(desc: u16) -> bool {
    desc & 0xF000u16 == 0x1000
}

/// Where the descriptor after the void tag at `i` stands.
pub open spec fn after_void_tag(d: Seq<u16>, i: int) -> int {
    let next = i + 1 + (d[i] & 0x000Fu16);
    if next < d.len() {
        next
    } else {
        d.len() as int
    }
}

/// The sample channels that the descriptors from `i` on declare, up to the
/// first break. `None` if a 16-bit precision modifier follows no channel.
pub open spec fn channels_from(d: Seq<u16>, i: int) -> Option<Seq<Channel>>
    decreases d.len() - i,
{
    if i < 0 || i >= d.len() {
        Some(seq![])
    } else if is_void_tag(d[i]) {
        channels_from(d, after_void_tag(d, i))
    } else if is_break(d[i]) {
        Some(seq![])
    } else if is_modifier(d[i]) {
        channels_from(d, i + 1)
    } else if d[i] == DESC_PRECISION_16BIT {
        None
    } else {
        let wide = i + 1 < d.len() && d[i + 1] == DESC_PRECISION_16BIT;
        let rest = channels_from(d, if wide { i + 2 } else { i + 1 });
        match rest {
            Some(r) => Some(seq![Channel { id: d[i], bytes: if wide { 2u8 } else { 1u8 } }] + r),
            None => None,
        }
    }
}

/// Bytes per sample of a channel list.
pub open spec fn channel_bytes(c: Seq<Channel>) -> int
    decreases c.len(),
{
    if c.len() == 0 {
        0
    } else {
        channel_bytes(c.drop_last()) + c.last().bytes
    }
}

/// A channel of one octet.
pub open spec fn narrow(id: u16) -> Channel {
    Channel { id, bytes: 1 }
}

/// A channel of two octets.
pub open spec fn wide(id: u16) -> Channel {
    Channel { id, bytes: 2 }
}

impl SampleFormat {
    /// The sample channels of the format, in order, each with its width.
    pub open spec fn channels(self) -> Seq<Channel> {
        match self {
            SampleFormat::Xy => seq![wide(DESC_X), wide(DESC_Y)],
            SampleFormat::Xyrgb => seq![
                wide(DESC_X),
                wide(DESC_Y),
                narrow(DESC_RED_638),
                narrow(DESC_GREEN_532),
                narrow(DESC_BLUE_460),
            ],
            SampleFormat::Xyrgbi => seq![
                wide(DESC_X),
                wide(DESC_Y),
                narrow(DESC_RED_638),
                narrow(DESC_GREEN_532),
                narrow(DESC_BLUE_460),
                narrow(DESC_INTENSITY),
            ],
            SampleFormat::XyrgbHighRes => seq![
                wide(DESC_X),
                wide(DESC_Y),
                wide(DESC_RED_638),
                wide(DESC_GREEN_532),
                wide(DESC_BLUE_460),
            ],
            SampleFormat::Extended => seq![
                wide(DESC_X),
                wide(DESC_Y),
                wide(DESC_RED_638),
                wide(DESC_GREEN_532),
                wide(DESC_BLUE_460),
                wide(DESC_INTENSITY),
                wide(DESC_USER_1),
                wide(DESC_USER_2),
                wide(DESC_USER_3),
                wide(DESC_X_PRIME),
            ],
        }
    }

    /// Whether these are the channels of the format.
    fn has_channels(self, channels: &Vec<Channel>) -> (r: bool)
        ensures
            r == (channels@ =~= self.channels()),
    {
        let ids: [u16; 10] = [
            DESC_X,
            DESC_Y,
            DESC_RED_638,
            DESC_GREEN_532,
            DESC_BLUE_460,
            DESC_INTENSITY,
            DESC_USER_1,
            DESC_USER_2,
            DESC_USER_3,
            DESC_X_PRIME,
        ];
        let (count, two_octets): (usize, usize) = match self {
            SampleFormat::Xy => (2, 2),
            SampleFormat::Xyrgb => (5, 2),
            SampleFormat::Xyrgbi => (6, 2),
            SampleFormat::XyrgbHighRes => (5, 5),
            SampleFormat::Extended => (10, 10),
        };
        let ghost want = self.channels();
        assert(want.len() == count);
        assert(forall|j: int|
            0 <= j < count ==> #[trigger] want[j] == (Channel {
                id: ids@[j],
                bytes: if j < two_octets {
                    2
                } else {
                    1
                },
            }));
        if channels.len() != count {
            return false;
        }
        let mut i: usize = 0;
        while i < count
            invariant
                i <= count <= 10,
                channels.len() == count,
                want.len() == count,
                forall|j: int|
                    0 <= j < count ==> #[trigger] want[j] == (Channel {
                        id: ids@[j],
                        bytes: if j < two_octets {
                            2
                        } else {
                            1
                        },
                    }),
                forall|j: int| 0 <= j < i ==> channels@[j] == want[j],
                want == self.channels(),
            decreases count - i,
        {
            let bytes: u8 = if i < two_octets {
                2
            } else {
                1
            };
            if channels[i] != (Channel { id: ids[i], bytes }) {
                assert(channels@[i as int] != want[i as int]);
                return false;
            }
            i += 1;
        }
        true
    }
}

/// The known format with exactly these channels.
pub open spec fn format_of_channels(c: Seq<Channel>) -> Option<SampleFormat> {
    if c =~= SampleFormat::Xy.channels() {
        Some(SampleFormat::Xy)
    } else if c =~= SampleFormat::Xyrgb.channels() {
        Some(SampleFormat::Xyrgb)
    } else if c =~= SampleFormat::XyrgbHighRes.channels() {
        Some(SampleFormat::XyrgbHighRes)
    } else if c =~= SampleFormat::Xyrgbi.channels() {
        Some(SampleFormat::Xyrgbi)
    } else if c =~= SampleFormat::Extended.channels() {
        Some(SampleFormat::Extended)
    } else {
        None
    }
}

/// A sample of a format holds the format's channels and nothing else.
pub proof fn channels_fill_sample(format: SampleFormat)
    ensures
        channel_bytes(format.channels()) == format.size(),
        format_of_channels(format.channels()) == Some(format),
{
    reveal_with_fuel(channel_bytes, 11);
    let c = format.channels();
    assert(c.len() >= 2 && c[1] == wide(DESC_Y));
    if format is XyrgbHighRes {
        assert(c[2] != SampleFormat::Xyrgb.channels()[2]);
    }
}

/// The sample format a descriptor array declares, if it is a known one.
pub open spec fn format_of(d: Seq<u16>) -> Option<SampleFormat> {
    match channels_from(d, 0) {
        Some(c) => format_of_channels(c),
        None => None,
    }
}

/// Classify the descriptor array into a known [`SampleFormat`].
///
/// Walks the descriptors, treating `0x4010` as a "make previous channel 16-bit
/// precision" modifier and `0x0000` as padding, then matches the resulting
/// channel signature against the known formats.
pub fn classify_format(descriptors: &[u16]) -> (r: Option<SampleFormat>)
    ensures
        r == format_of(descriptors@),
{
    let mut channels: Vec<Channel> = Vec::new();
    let mut i: usize = 0;
    let ghost all = channels_from(descriptors@, 0);
    while i < descriptors.len()
        invariant_except_break
            i <= descriptors.len(),
            all == (match channels_from(descriptors@, i as int) {
                Some(r) => Some(channels@ + r),
                None => None,
            }),
        invariant
            all == channels_from(descriptors@, 0),
        ensures
            all == Some(channels@),
        decreases descriptors.len() - i,
    {
        let desc: u16 = descriptors[i];
        if desc & 0xF000 == 0 {
            let suffix: usize = (desc & 0x000F) as usize;
            if suffix < descriptors.len() - i - 1 {
                i += 1 + suffix;
            } else {
                i = descriptors.len();
            }
            continue;
        }
        if desc & 0xFF00 == 0x1000 {
            assert(channels@ + seq![] =~= channels@);
            break;
        }
        if desc & 0xF000 == 0x1000 {
            i += 1;
            continue;
        }
        if desc == DESC_PRECISION_16BIT {
            return None;
        }
        let wide: bool = i < descriptors.len() - 1 && descriptors[i + 1] == DESC_PRECISION_16BIT;
        let bytes: u8 = if wide { 2 } else { 1 };
        let ghost before = channels@;
        channels.push(Channel { id: desc, bytes });
        i += if wide { 2 } else { 1 };
        proof {
            match channels_from(descriptors@, i as int) {
                Some(r) => {
                    assert(channels@ + r =~= before + (seq![Channel { id: desc, bytes }] + r));
                },
                None => {},
            }
        }
    }
    if SampleFormat::Xy.has_channels(&channels) {
        Some(SampleFormat::Xy)
    } else if SampleFormat::Xyrgb.has_channels(&channels) {
        Some(SampleFormat::Xyrgb)
    } else if SampleFormat::XyrgbHighRes.has_channels(&channels) {
        Some(SampleFormat::XyrgbHighRes)
    } else if SampleFormat::Xyrgbi.has_channels(&channels) {
        Some(SampleFormat::Xyrgbi)
    } else if SampleFormat::Extended.has_channels(&channels) {
        Some(SampleFormat::Extended)
    } else {
        None
    }
}

// ---------------------------------------------------------------------------
// Message header
// ---------------------------------------------------------------------------

/// What the packet and channel message headers of an accepted packet say.
#[derive(Clone, Copy, Debug, PartialEq, Eq, Structural)]
pub struct ChunkMetadata {
    pub sequence: u16,
    pub content_id: u16,
    pub channel_id: u8,
    pub chunk_type: ChunkType,
    pub config_or_last_fragment: bool,
    pub has_config: bool,
    pub is_last_fragment: bool,
    pub timestamp_us_u32: u32,
    pub total_size: usize,
}

/// The chunk type byte of a content id.
pub open spec fn content_type_byte(content_id: u16) -> u8 {
    (content_id & IDNMSK_CONTENTID_CNKTYPE) as u8
}

/// The state of the CONFIG/LSTFRG bit of a content id.
pub open spec fn content_config_bit(content_id: u16) -> bool {
    content_id & IDNFLG_CONTENTID_CONFIG_LSTFRG != 0
}

/// The six-bit channel of a content id.
pub open spec fn content_channel(content_id: u16) -> u8 {
    ((content_id & IDNMSK_CONTENTID_CHANNELID) >> 8u16) as u8
}

/// Whether a packet is accepted as a channel message: long enough for both
/// headers, declaring a size in `8..=0xFF00` that it actually holds, and with
/// the channel-message flag set.
pub open spec fn is_channel_message(s: Seq<u8>) -> bool {
    &&& s.len() >= 12
    &&& 8 <= bytes::be_u16(s, 4) <= 0xFF00
    &&& s.len() >= 4 + bytes::be_u16(s, 4)
    &&& bytes::be_u16(s, 6) & IDNFLG_CONTENTID_CHANNELMSG != 0
}

/// The headers of a channel message.
pub open spec fn metadata_of(s: Seq<u8>) -> ChunkMetadata {
    let content_id = bytes::be_u16(s, 6);
    let chunk_type = ChunkType::of_byte(content_type_byte(content_id));
    let bit = content_config_bit(content_id);
    ChunkMetadata {
        sequence: bytes::be_u16(s, 2),
        content_id,
        channel_id: content_channel(content_id),
        chunk_type,
        config_or_last_fragment: bit,
        has_config: bit && content_type_byte(content_id) < 0xC0,
        is_last_fragment: chunk_type == ChunkType::Frame || (chunk_type == ChunkType::FrameSequel
            && bit),
        timestamp_us_u32: bytes::be_u32(s, 8),
        total_size: bytes::be_u16(s, 4) as usize,
    }
}

/// Read the packet and channel message headers. `None` unless the packet is a
/// channel message that is complete.
pub fn parse_metadata(data: &[u8]) -> (r: Option<ChunkMetadata>)
    ensures
        r == (if is_channel_message(data@) {
            Some(metadata_of(data@))
        } else {
            None
        }),
{
    if data.len() < 12 {
        return None;
    }
    let total_size: usize = read_be_u16(data, 4) as usize;
    if total_size < 8 || total_size > 0xFF00 {
        return None;
    }
    if data.len() < 4 + total_size {
        return None;
    }
    let sequence: u16 = read_be_u16(data, 2);
    let content_id: u16 = read_be_u16(data, 6);
    if content_id & IDNFLG_CONTENTID_CHANNELMSG == 0 {
        return None;
    }
    let timestamp_us_u32: u32 = read_be_u32(data, 8);
    let config_or_last_fragment: bool = content_id & IDNFLG_CONTENTID_CONFIG_LSTFRG != 0;
    let channel_id: u8 = ((content_id & IDNMSK_CONTENTID_CHANNELID) >> 8u16) as u8;
    let chunk_type_byte: u8 = (content_id & IDNMSK_CONTENTID_CNKTYPE) as u8;
    let chunk_type = ChunkType::from_byte(chunk_type_byte);
    let has_config: bool = config_or_last_fragment && chunk_type_byte < 0xC0;
    let is_last_fragment: bool = match chunk_type {
        ChunkType::Frame => true,
        ChunkType::FrameSequel => config_or_last_fragment,
        _ => false,
    };
    Some(
        ChunkMetadata {
            sequence,
            content_id,
            channel_id,
            chunk_type,
            config_or_last_fragment,
            has_config,
            is_last_fragment,
            timestamp_us_u32,
            total_size,
        },
    )
}

// ---------------------------------------------------------------------------
// Channel configuration
// ---------------------------------------------------------------------------

/// A channel configuration header with its descriptors classified.
#[derive(Clone, Copy, Debug, PartialEq, Eq, Structural)]
pub struct ChannelConfig {
    pub flags: u8,
    pub service_mode: u8,
    pub format: Option<SampleFormat>,
}

impl ChannelConfig {
    pub open spec fn routes(self) -> bool {
        self.flags & IDNFLG_CHNCFG_ROUTING != 0
    }

    pub open spec fn closes(self) -> bool {
        self.flags & IDNFLG_CHNCFG_CLOSE != 0
    }

    /// The state a routing configuration opens its channel with, if it names a
    /// known format and a service mode.
    pub open spec fn opened_state(self) -> Option<ChannelState> {
        match self.format {
            Some(format) => if self.service_mode != IDNVAL_SMOD_VOID {
                Some(
                    ChannelState {
                        format,
                        service_data_match: self.flags & IDNMSK_CHNCFG_SDM,
                        service_mode: self.service_mode,
                    },
                )
            } else {
                None
            },
            None => None,
        }
    }

    pub fn has_routing(self) -> (r: bool)
        ensures
            r == self.routes(),
    {
        self.flags & IDNFLG_CHNCFG_ROUTING != 0
    }

    pub fn closes_channel(self) -> (r: bool)
        ensures
            r == self.closes(),
    {
        self.flags & IDNFLG_CHNCFG_CLOSE != 0
    }

    pub fn service_data_match(self) -> (r: u8)
        ensures
            r == self.flags & IDNMSK_CHNCFG_SDM,
    {
        self.flags & IDNMSK_CHNCFG_SDM
    }
}

/// What is remembered of a channel between messages.
#[derive(Clone, Copy, Debug, PartialEq, Eq, Structural)]
pub struct ChannelState {
    pub format: SampleFormat,
    pub service_data_match: u8,
    pub service_mode: u8,
}

/// What a message does to the remembered state of its channel.
#[derive(Clone, Copy, Debug, PartialEq, Eq, Structural)]
pub enum StateUpdate {
    Keep,
    Store(ChannelState),
    Remove,
}

/// The first `n` big-endian words from `start` on.
pub open spec fn words_at(s: Seq<u8>, start: int, n: int) -> Seq<u16> {
    Seq::new(n as nat, |i: int| bytes::be_u16(s, start + 2 * i))
}

/// Where the channel configuration of a message ends. It starts at byte 12 with
/// four header bytes, the first of which counts the 32-bit words that follow.
pub open spec fn config_end(s: Seq<u8>) -> int {
    16 + 4 * s[12]
}

/// The channel configuration of a message, if the message holds it whole.
pub open spec fn config_of(s: Seq<u8>) -> Option<ChannelConfig> {
    if s.len() < 16 || s.len() < config_end(s) {
        None
    } else {
        Some(
            ChannelConfig {
                flags: s[13],
                service_mode: s[15],
                format: if s[13] & IDNFLG_CHNCFG_ROUTING != 0 && s[15] != IDNVAL_SMOD_VOID {
                    format_of(words_at(s, 16, 2 * s[12]))
                } else {
                    None
                },
            },
        )
    }
}

/// Read the channel configuration of a message. `None` if the message ends
/// before the configuration does.
fn parse_channel_config(data: &[u8]) -> (r: Option<ChannelConfig>)
    ensures
        r == config_of(data@),
{
    if data.len() < 16 {
        return None;
    }
    let word_count: usize = data[12] as usize;
    let flags: u8 = data[13];
    let service_mode: u8 = data[15];
    let descriptor_count: usize = word_count * 2;
    if data.len() < 16 + descriptor_count * 2 {
        return None;
    }
    let mut descriptors: Vec<u16> = Vec::new();
    let mut i: usize = 0;
    while i < descriptor_count
        invariant
            i <= descriptor_count,
            descriptor_count <= 510,
            data.len() >= 16 + descriptor_count * 2,
            descriptors@ =~= words_at(data@, 16, i as int),
        decreases descriptor_count - i,
    {
        descriptors.push(read_be_u16(data, 16 + 2 * i));
        i += 1;
    }
    let format: Option<SampleFormat> = if flags & IDNFLG_CHNCFG_ROUTING != 0 && service_mode
        != IDNVAL_SMOD_VOID {
        classify_format(descriptors.as_slice())
    } else {
        None
    };
    Some(ChannelConfig { flags, service_mode, format })
}

/// The update a message with this configuration leaves for its channel, whose
/// state is `state` while the message is handled: a closing configuration drops
/// it, a routing one stores it, any other leaves what was remembered.
pub open spec fn update_for(config: Option<ChannelConfig>, state: Option<ChannelState>) -> StateUpdate {
    match config {
        Some(c) => if c.closes() {
            StateUpdate::Remove
        } else if c.routes() {
            match state {
                Some(st) => StateUpdate::Store(st),
                None => StateUpdate::Remove,
            }
        } else {
            StateUpdate::Keep
        },
        None => StateUpdate::Keep,
    }
}

fn state_update_for_config(config: Option<ChannelConfig>, state: Option<ChannelState>) -> (r: StateUpdate)
    ensures
        r == update_for(config, state),
{
    match config {
        Some(c) => if c.closes_channel() {
            StateUpdate::Remove
        } else if c.has_routing() {
            match state {
                Some(st) => StateUpdate::Store(st),
                None => StateUpdate::Remove,
            }
        } else {
            StateUpdate::Keep
        },
        None => StateUpdate::Keep,
    }
}

/// Continuous services take wave chunks, discrete services take frames.
pub open spec fn mode_accepts(service_mode: u8, chunk_type: ChunkType) -> bool {
    ||| service_mode == IDNVAL_SMOD_LPGRF_CONTINUOUS && chunk_type == ChunkType::Wave
    ||| service_mode == IDNVAL_SMOD_LPGRF_DISCRETE && (chunk_type == ChunkType::Frame || chunk_type
        == ChunkType::FrameFirst || chunk_type == ChunkType::FrameSequel)
}

fn service_mode_accepts_chunk(service_mode: u8, chunk_type: ChunkType) -> (r: bool)
    ensures
        r == mode_accepts(service_mode, chunk_type),
{
    match chunk_type {
        ChunkType::Wave => service_mode == IDNVAL_SMOD_LPGRF_CONTINUOUS,
        ChunkType::Frame => service_mode == IDNVAL_SMOD_LPGRF_DISCRETE,
        ChunkType::FrameFirst => service_mode == IDNVAL_SMOD_LPGRF_DISCRETE,
        ChunkType::FrameSequel => service_mode == IDNVAL_SMOD_LPGRF_DISCRETE,
        _ => false,
    }
}

// ---------------------------------------------------------------------------
// Samples
// ---------------------------------------------------------------------------

/// A coordinate as a 32767th: the most negative value counts as -1.
pub open spec fn normal_coordinate(value: i16) -> i16 {
    if value == i16::MIN {
        -32767i16
    } else {
        value
    }
}

/// The point that the sample of the given format at `i` stands for.
pub open spec fn point_at(s: Seq<u8>, i: int, format: SampleFormat) -> ReceivedPoint {
    let x = normal_coordinate(bytes::be_i16(s, i));
    let y = normal_coordinate(bytes::be_i16(s, i + 2));
    match format {
        SampleFormat::Xy => ReceivedPoint { x, y, r: 0, g: 0, b: 0, full_scale: 1 },
        SampleFormat::Xyrgb => ReceivedPoint {
            x,
            y,
            r: s[i + 4] as u32,
            g: s[i + 5] as u32,
            b: s[i + 6] as u32,
            full_scale: 255,
        },
        SampleFormat::Xyrgbi => ReceivedPoint {
            x,
            y,
            r: (s[i + 4] * s[i + 7]) as u32,
            g: (s[i + 5] * s[i + 7]) as u32,
            b: (s[i + 6] * s[i + 7]) as u32,
            full_scale: 65_025,
        },
        SampleFormat::XyrgbHighRes => ReceivedPoint {
            x,
            y,
            r: bytes::be_u16(s, i + 4) as u32,
            g: bytes::be_u16(s, i + 6) as u32,
            b: bytes::be_u16(s, i + 8) as u32,
            full_scale: 65535,
        },
        SampleFormat::Extended => ReceivedPoint {
            x,
            y,
            r: (bytes::be_u16(s, i + 4) * bytes::be_u16(s, i + 10)) as u32,
            g: (bytes::be_u16(s, i + 6) * bytes::be_u16(s, i + 10)) as u32,
            b: (bytes::be_u16(s, i + 8) * bytes::be_u16(s, i + 10)) as u32,
            full_scale: 4_294_836_225,
        },
    }
}

/// The `n` points stored one after the other from `start` on.
pub open spec fn points_at(s: Seq<u8>, start: int, n: int, format: SampleFormat) -> Seq<ReceivedPoint> {
    Seq::new(n as nat, |k: int| point_at(s, start + k * format.size(), format))
}

fn normalize_coordinate(value: i16) -> (r: i16)
    ensures
        r == normal_coordinate(value),
{
    if value == i16::MIN {
        -COORDINATE_FULL_SCALE
    } else {
        value
    }
}

/// The product of two color values in range.
fn scaled(value: u16, intensity: u16) -> (r: u32)
    ensures
        r == value * intensity,
{
    assert(value * intensity <= 65535 * 65535) by (nonlinear_arith)
        requires
            value <= 65535,
            intensity <= 65535,
    ;
    value as u32 * intensity as u32
}

fn parse_point(data: &[u8], at: usize, format: SampleFormat) -> (r: ReceivedPoint)
    requires
        at + format.size() <= data.len(),
    ensures
        r == point_at(data@, at as int, format),
{
    let x: i16 = normalize_coordinate(read_be_i16(data, at));
    let y: i16 = normalize_coordinate(read_be_i16(data, at + 2));
    match format {
        SampleFormat::Xy => ReceivedPoint { x, y, r: 0, g: 0, b: 0, full_scale: 1 },
        SampleFormat::Xyrgb => ReceivedPoint {
            x,
            y,
            r: data[at + 4] as u32,
            g: data[at + 5] as u32,
            b: data[at + 6] as u32,
            full_scale: 255,
        },
        SampleFormat::Xyrgbi => {
            let intensity: u16 = data[at + 7] as u16;
            ReceivedPoint {
                x,
                y,
                r: scaled(data[at + 4] as u16, intensity),
                g: scaled(data[at + 5] as u16, intensity),
                b: scaled(data[at + 6] as u16, intensity),
                full_scale: 65_025,
            }
        },
        SampleFormat::XyrgbHighRes => ReceivedPoint {
            x,
            y,
            r: read_be_u16(data, at + 4) as u32,
            g: read_be_u16(data, at + 6) as u32,
            b: read_be_u16(data, at + 8) as u32,
            full_scale: 65535,
        },
        SampleFormat::Extended => {
            let intensity: u16 = read_be_u16(data, at + 10);
            ReceivedPoint {
                x,
                y,
                r: scaled(read_be_u16(data, at + 4), intensity),
                g: scaled(read_be_u16(data, at + 6), intensity),
                b: scaled(read_be_u16(data, at + 8), intensity),
                full_scale: 4_294_836_225,
            }
        },
    }
}

fn parse_points(data: &[u8], start: usize, count: usize, format: SampleFormat) -> (r: Vec<
    ReceivedPoint,
>)
    requires
        start + count * format.size() <= data.len(),
    ensures
        r@ == points_at(data@, start as int, count as int, format),
{
    let size: usize = format.sample_size();
    let mut points: Vec<ReceivedPoint> = Vec::new();
    let mut k: usize = 0;
    let mut at: usize = start;
    while k < count
        invariant
            k <= count,
            size == format.size(),
            4 <= size <= 20,
            at == start + k * size,
            start + count * size <= data.len(),
            points@ =~= points_at(data@, start as int, k as int, format),
        decreases count - k,
    {
        assert((k + 1) * size <= count * size && (k + 1) * size == k * size + size)
            by (nonlinear_arith)
            requires
                k < count,
                size >= 0,
        ;
        points.push(parse_point(data, at, format));
        at += size;
        k += 1;
    }
    points
}

// ---------------------------------------------------------------------------
// Messages
// ---------------------------------------------------------------------------

/// A parsed chunk with timing information.
#[derive(Clone, Debug)]
pub struct ParsedChunk {
    /// Packet sequence number from the IDN packet header.
    pub sequence: u16,
    /// Raw channel-message content id.
    pub content_id: u16,
    /// Six-bit channel id parsed from the content id.
    pub channel_id: u8,
    /// Chunk type parsed from the low byte of the content id.
    pub chunk_type: ChunkType,
    /// Raw state of the CONFIG/LSTFRG content-id bit (`0x4000`).
    pub config_or_last_fragment: bool,
    /// Whether this message contains a channel configuration header.
    pub has_config: bool,
    /// Whether this chunk completes a discrete frame.
    pub is_last_fragment: bool,
    /// Timestamp from the channel message header (u32, microseconds, wraps).
    pub timestamp_us_u32: u32,
    /// Duration of this chunk in microseconds (24-bit value from sample chunk header).
    pub duration_us: u32,
    /// Sample format used for this chunk (after descriptor dispatch).
    pub format: SampleFormat,
    /// The parsed points in this chunk.
    pub points: Vec<ReceivedPoint>,
}

/// A [`ParsedChunk`] with its points as a sequence.
#[verifier::ext_equal]
pub struct ChunkView {
    pub sequence: u16,
    pub content_id: u16,
    pub channel_id: u8,
    pub chunk_type: ChunkType,
    pub config_or_last_fragment: bool,
    pub has_config: bool,
    pub is_last_fragment: bool,
    pub timestamp_us_u32: u32,
    pub duration_us: u32,
    pub format: SampleFormat,
    pub points: Seq<ReceivedPoint>,
}

impl View for ParsedChunk {
    type V = ChunkView;

    open spec fn view(&self) -> ChunkView {
        ChunkView {
            sequence: self.sequence,
            content_id: self.content_id,
            channel_id: self.channel_id,
            chunk_type: self.chunk_type,
            config_or_last_fragment: self.config_or_last_fragment,
            has_config: self.has_config,
            is_last_fragment: self.is_last_fragment,
            timestamp_us_u32: self.timestamp_us_u32,
            duration_us: self.duration_us,
            format: self.format,
            points: self.points@,
        }
    }
}

/// The view of an optional chunk.
pub open spec fn chunk_view(chunk: Option<ParsedChunk>) -> Option<ChunkView> {
    match chunk {
        Some(c) => Some(c@),
        None => None,
    }
}

/// What a message yields: perhaps a chunk, and what becomes of the state of its
/// channel.
pub struct ParsedPacket {
    pub chunk: Option<ParsedChunk>,
    pub state_update: StateUpdate,
}

/// A [`ParsedPacket`] with its chunk viewed.
#[verifier::ext_equal]
pub struct PacketView {
    pub chunk: Option<ChunkView>,
    pub state_update: StateUpdate,
}

pub open spec fn packet_view(packet: Option<ParsedPacket>) -> Option<PacketView> {
    match packet {
        Some(p) => Some(PacketView { chunk: chunk_view(p.chunk), state_update: p.state_update }),
        None => None,
    }
}

/// The chunk of a sample message `s`, whose sample chunk header stands at
/// `start`, decoded for the channel state `state`.
pub open spec fn chunk_of(s: Seq<u8>, m: ChunkMetadata, start: int, state: ChannelState) -> ChunkView {
    ChunkView {
        sequence: m.sequence,
        content_id: m.content_id,
        channel_id: m.channel_id,
        chunk_type: m.chunk_type,
        config_or_last_fragment: m.config_or_last_fragment,
        has_config: m.has_config,
        is_last_fragment: m.is_last_fragment,
        timestamp_us_u32: m.timestamp_us_u32,
        duration_us: bytes::be_u32(s, start) & 0x00FF_FFFF,
        format: state.format,
        points: points_at(
            s,
            start + 4,
            (s.len() - start - 4) / state.format.size(),
            state.format,
        ),
    }
}

/// What the sample part of the message `s` from `start` on yields for a channel
/// in the given state. `None` if it is malformed.
pub open spec fn samples_outcome(
    s: Seq<u8>,
    m: ChunkMetadata,
    start: int,
    config: Option<ChannelConfig>,
    state: ChannelState,
) -> Option<PacketView> {
    if !mode_accepts(state.service_mode, m.chunk_type) {
        Some(PacketView { chunk: None, state_update: update_for(config, Some(state)) })
    } else if s.len() < start + 4 {
        None
    } else if (bytes::be_u32(s, start) >> 24u32) as u8 & IDNMSK_CHUNKFLAGS_SCM
        != state.service_data_match {
        Some(PacketView { chunk: None, state_update: StateUpdate::Remove })
    } else if (s.len() - start - 4) % state.format.size() != 0 {
        None
    } else {
        Some(
            PacketView {
                chunk: Some(chunk_of(s, m, start, state)),
                state_update: update_for(config, Some(state)),
            },
        )
    }
}

/// What a channel message yields, given the remembered state of its channel.
/// `None` if it is malformed or if its channel has no state to decode it with.
pub open spec fn packet_outcome(
    data: Seq<u8>,
    m: ChunkMetadata,
    cached: Option<ChannelState>,
) -> Option<PacketView> {
    let s = data.take(4 + m.total_size);
    let config = if m.has_config {
        config_of(s)
    } else {
        None
    };
    let start = if m.has_config {
        config_end(s)
    } else {
        12
    };
    let routing = config is Some && config->0.routes();
    let state = if routing {
        config->0.opened_state()
    } else {
        cached
    };
    if m.has_config && config is None {
        None
    } else if routing && state is None {
        Some(PacketView { chunk: None, state_update: StateUpdate::Remove })
    } else if m.chunk_type == ChunkType::Void {
        Some(PacketView { chunk: None, state_update: update_for(config, state) })
    } else {
        match state {
            None => None,
            Some(st) => samples_outcome(s, m, start, config, st),
        }
    }
}

/// Decode the sample part of a message; `data` ends where the message does.
fn parse_samples(
    data: &[u8],
    metadata: ChunkMetadata,
    start: usize,
    config: Option<ChannelConfig>,
    state: ChannelState,
) -> (r: Option<ParsedPacket>)
    requires
        start <= data@.len(),
        data@.len() <= 0x1_0000,
    ensures
        packet_view(r) == samples_outcome(data@, metadata, start as int, config, state),
{
    if !service_mode_accepts_chunk(state.service_mode, metadata.chunk_type) {
        return Some(
            ParsedPacket {
                chunk: None,
                state_update: state_update_for_config(config, Some(state)),
            },
        );
    }
    // Sample chunk header: upper 8 bits are flags, lower 24 bits the duration.
    if data.len() < start + 4 {
        return None;
    }
    let flags_duration: u32 = read_be_u32(data, start);
    let chunk_flags: u8 = (flags_duration >> 24u32) as u8;
    if chunk_flags & IDNMSK_CHUNKFLAGS_SCM != state.service_data_match {
        return Some(ParsedPacket { chunk: None, state_update: StateUpdate::Remove });
    }
    let duration_us: u32 = flags_duration & 0x00FF_FFFF;
    let remaining: usize = data.len() - start - 4;
    let sample_size: usize = state.format.sample_size();
    if remaining % sample_size != 0 {
        return None;
    }
    let point_count: usize = remaining / sample_size;
    assert(point_count * sample_size <= remaining) by (nonlinear_arith)
        requires
            point_count == remaining / sample_size,
            sample_size > 0,
            remaining >= 0,
    ;
    let points: Vec<ReceivedPoint> = parse_points(data, start + 4, point_count, state.format);
    let chunk = ParsedChunk {
        sequence: metadata.sequence,
        content_id: metadata.content_id,
        channel_id: metadata.channel_id,
        chunk_type: metadata.chunk_type,
        config_or_last_fragment: metadata.config_or_last_fragment,
        has_config: metadata.has_config,
        is_last_fragment: metadata.is_last_fragment,
        timestamp_us_u32: metadata.timestamp_us_u32,
        duration_us,
        format: state.format,
        points,
    };
    Some(
        ParsedPacket {
            chunk: Some(chunk),
            state_update: state_update_for_config(config, Some(state)),
        },
    )
}

/// Handle one channel message, given the remembered state of its channel.
pub fn parse_frame_data_with_metadata(
    data: &[u8],
    metadata: ChunkMetadata,
    cached_state: Option<ChannelState>,
) -> (r: Option<ParsedPacket>)
    requires
        8 <= metadata.total_size <= 0xFF00,
        4 + metadata.total_size <= data@.len(),
    ensures
        packet_view(r) == packet_outcome(data@, metadata, cached_state),
{
    let packet_len: usize = 4 + metadata.total_size;
    let message = slice_subrange(data, 0, packet_len);
    assert(message@ =~= data@.take(packet_len as int));
    let mut start: usize = 12;
    let config: Option<ChannelConfig> = if metadata.has_config {
        match parse_channel_config(message) {
            Some(c) => {
                start = 16 + 4 * message[12] as usize;
                Some(c)
            },
            None => {
                return None;
            },
        }
    } else {
        None
    };
    let state: Option<ChannelState> = match config {
        Some(c) => if c.has_routing() {
            match c.format {
                Some(format) => {
                    if c.service_mode == IDNVAL_SMOD_VOID {
                        return Some(
                            ParsedPacket { chunk: None, state_update: StateUpdate::Remove },
                        );
                    }
                    Some(
                        ChannelState {
                            format,
                            service_data_match: c.service_data_match(),
                            service_mode: c.service_mode,
                        },
                    )
                },
                None => {
                    return Some(ParsedPacket { chunk: None, state_update: StateUpdate::Remove });
                },
            }
        } else {
            cached_state
        },
        None => cached_state,
    };
    if metadata.chunk_type == ChunkType::Void {
        return Some(
            ParsedPacket { chunk: None, state_update: state_update_for_config(config, state) },
        );
    }
    match state {
        None => None,
        Some(st) => parse_samples(message, metadata, start, config, st),
    }
}

/// The chunk that a packet yields by itself, without remembered state.
pub open spec fn lone_chunk(data: Seq<u8>) -> Option<ChunkView> {
    if is_channel_message(data) {
        match packet_outcome(data, metadata_of(data), None) {
            Some(p) => p.chunk,
            None => None,
        }
    } else {
        None
    }
}

/// Parse channel-message frame data from an RT_CNLMSG packet.
///
/// `data` is the raw UDP payload starting at the packet header (command byte).
/// This stateless helper only parses messages that carry channel configuration.
/// Use [`FrameParser`] where no-config messages reuse prior configuration.
///
/// Returns `None` for void/keepalive packets, malformed packets, no-config
/// packets, or packets carrying an unsupported sample format.
pub fn parse_frame_data(data: &[u8]) -> (r: Option<ParsedChunk>)
    ensures
        chunk_view(r) == lone_chunk(data@),
{
    match parse_metadata(data) {
        Some(metadata) => match parse_frame_data_with_metadata(data, metadata, None) {
            Some(p) => p.chunk,
            None => None,
        },
        None => None,
    }
}

// ---------------------------------------------------------------------------
// Stateful parser
// ---------------------------------------------------------------------------

/// A channel of a sender.
#[derive(Clone, Copy, Debug, PartialEq, Eq, Structural)]
pub struct ParserChannelKey {
    pub source_addr: SocketAddr,
    pub channel_id: u8,
}

/// Remembered channel states.
pub type ChannelMap = Map<ParserChannelKey, ChannelState>;

/// The remembered state of a channel.
pub open spec fn cached_state(m: ChannelMap, key: ParserChannelKey) -> Option<ChannelState> {
    if m.dom().contains(key) {
        Some(m[key])
    } else {
        None
    }
}

/// The channel a packet belongs to.
pub open spec fn packet_key(source_addr: SocketAddr, data: Seq<u8>) -> ParserChannelKey {
    ParserChannelKey { source_addr, channel_id: metadata_of(data).channel_id }
}

/// What a packet yields, given the remembered channel states.
pub open spec fn step_outcome(m: ChannelMap, source_addr: SocketAddr, data: Seq<u8>) -> Option<
    PacketView,
> {
    if is_channel_message(data) {
        packet_outcome(data, metadata_of(data), cached_state(m, packet_key(source_addr, data)))
    } else {
        None
    }
}

/// The chunk a packet yields.
pub open spec fn step_chunk(m: ChannelMap, source_addr: SocketAddr, data: Seq<u8>) -> Option<ChunkView> {
    match step_outcome(m, source_addr, data) {
        Some(p) => p.chunk,
        None => None,
    }
}

/// The channel states after a packet.
pub open spec fn step_channels(m: ChannelMap, source_addr: SocketAddr, data: Seq<u8>) -> ChannelMap {
    match step_outcome(m, source_addr, data) {
        Some(p) => match p.state_update {
            StateUpdate::Keep => m,
            StateUpdate::Store(state) => m.insert(packet_key(source_addr, data), state),
            StateUpdate::Remove => m.remove(packet_key(source_addr, data)),
        },
        None => m,
    }
}

/// Whether the list has an entry for the key.
pub closed spec fn has_entry(s: Seq<(ParserChannelKey, ChannelState)>, key: ParserChannelKey) -> bool {
    exists|i: int| 0 <= i < s.len() && (#[trigger] s[i]).0 == key
}

/// The position of an entry for the key.
pub closed spec fn entry_index(s: Seq<(ParserChannelKey, ChannelState)>, key: ParserChannelKey) -> int {
    choose|i: int| 0 <= i < s.len() && (#[trigger] s[i]).0 == key
}

/// The states in a list of entries, by key.
pub closed spec fn entries_map(s: Seq<(ParserChannelKey, ChannelState)>) -> ChannelMap {
    Map::new(|k: ParserChannelKey| has_entry(s, k), |k: ParserChannelKey| s[entry_index(s, k)].1)
}

spec fn distinct_keys(s: Seq<(ParserChannelKey, ChannelState)>) -> bool {
    forall|i: int, j: int| 0 <= i < j < s.len() ==> (#[trigger] s[i]).0 != (#[trigger] s[j]).0
}

/// Stateful IDN channel-message parser.
///
/// IDN channel configuration is per source/channel and may be omitted from
/// later messages. This parser caches the last supported sample format for each
/// source/channel and uses it for no-config messages instead of guessing.
pub struct FrameParser {
    channels: Vec<(ParserChannelKey, ChannelState)>,
}

impl View for FrameParser {
    type V = ChannelMap;

    closed spec fn view(&self) -> ChannelMap {
        entries_map(self.channels@)
    }
}

impl FrameParser {
    /// No channel has two entries.
    #[verifier::type_invariant]
    spec fn one_entry_per_channel(self) -> bool {
        distinct_keys(self.channels@)
    }

    /// Create an empty parser with no cached channel configuration.
    pub fn new() -> (r: FrameParser)
        ensures
            r@ == ChannelMap::empty(),
    {
        let r = FrameParser { channels: Vec::new() };
        assert(r@ =~= ChannelMap::empty());
        r
    }

    /// Clear all cached channel configuration.
    pub fn reset(&mut self)
        ensures
            final(self)@ == ChannelMap::empty(),
    {
        self.channels = Vec::new();
        assert(self@ =~= ChannelMap::empty());
    }

    /// Where the entry of a channel stands.
    fn position(&self, key: ParserChannelKey) -> (r: Option<usize>)
        ensures
            match r {
                Some(i) => i < self.channels.len() && self.channels@[i as int].0 == key && self@.dom().contains(key)
                    && self@[key] == self.channels@[i as int].1,
                None => !self@.dom().contains(key) && forall|i: int| 0 <= i < self.channels.len() ==> self.channels@[i].0 != key,
            },
    {
        proof {
            use_type_invariant(self);
        }
        let mut i: usize = 0;
        while i < self.channels.len()
            invariant
                i <= self.channels.len(),
                distinct_keys(self.channels@),
                forall|j: int| 0 <= j < i ==> self.channels@[j].0 != key,
            decreases self.channels.len() - i,
        {
            if self.channels[i].0 == key {
                proof {
                    assert(has_entry(self.channels@, key));
                    let k = entry_index(self.channels@, key);
                    assert(self.channels@[k].0 == key);
                    assert(k == i);
                }
                return Some(i);
            }
            i += 1;
        }
        assert(!has_entry(self.channels@, key));
        None
    }

    /// Remember the state of a channel.
    fn store(&mut self, key: ParserChannelKey, state: ChannelState)
        ensures
            final(self)@ == old(self)@.insert(key, state),
    {
        proof {
            use_type_invariant(&*self);
        }
        let position = self.position(key);
        let ghost before = self.channels@;
        let mut channels: Vec<(ParserChannelKey, ChannelState)> = Vec::new();
        std::mem::swap(&mut channels, &mut self.channels);
        match position {
            Some(i) => {
                channels.set(i, (key, state));
            },
            None => {
                channels.push((key, state));
            },
        }
        proof {
            lemma_stored(before, channels@, key, state);
        }
        self.channels = channels;
    }

    /// Forget a channel.
    fn forget(&mut self, key: ParserChannelKey)
        ensures
            final(self)@ == old(self)@.remove(key),
    {
        proof {
            use_type_invariant(&*self);
        }
        let position = self.position(key);
        match position {
            Some(i) => {
                let ghost before = self.channels@;
                let mut channels: Vec<(ParserChannelKey, ChannelState)> = Vec::new();
                std::mem::swap(&mut channels, &mut self.channels);
                channels.remove(i);
                proof {
                    lemma_removed(before, i as int);
                }
                self.channels = channels;
            },
            None => {
                assert(self@.remove(key) =~= self@);
            },
        }
    }

    /// Parse channel-message frame data using cached per-source/channel config.
    pub fn parse_frame_data(&mut self, source_addr: SocketAddr, data: &[u8]) -> (r: Option<
        ParsedChunk,
    >)
        ensures
            chunk_view(r) == step_chunk(old(self)@, source_addr, data@),
            final(self)@ == step_channels(old(self)@, source_addr, data@),
    {
        let metadata = match parse_metadata(data) {
            Some(m) => m,
            None => {
                return None;
            },
        };
        let key = ParserChannelKey { source_addr, channel_id: metadata.channel_id };
        let cached: Option<ChannelState> = match self.position(key) {
            Some(i) => Some(self.channels[i].1),
            None => None,
        };
        match parse_frame_data_with_metadata(data, metadata, cached) {
            Some(parsed) => {
                match parsed.state_update {
                    StateUpdate::Keep => {},
                    StateUpdate::Store(state) => {
                        self.store(key, state);
                    },
                    StateUpdate::Remove => {
                        self.forget(key);
                    },
                }
                parsed.chunk
            },
            None => None,
        }
    }
}

proof fn lemma_entry(s: Seq<(ParserChannelKey, ChannelState)>, i: int)
    requires
        distinct_keys(s),
        0 <= i < s.len(),
    ensures
        has_entry(s, s[i].0),
        entry_index(s, s[i].0) == i,
{
    let k = entry_index(s, s[i].0);
    assert(has_entry(s, s[i].0));
    assert(0 <= k < s.len() && s[k].0 == s[i].0);
}

proof fn lemma_stored(
    before: Seq<(ParserChannelKey, ChannelState)>,
    after: Seq<(ParserChannelKey, ChannelState)>,
    key: ParserChannelKey,
    state: ChannelState,
)
    requires
        distinct_keys(before),
        ({
            ||| exists|i: int|
                0 <= i < before.len() && before[i].0 == key && after == #[trigger] before.update(i, (key, state))
            ||| !has_entry(before, key) && after == before.push((key, state))
        }),
    ensures
        distinct_keys(after),
        entries_map(after) == entries_map(before).insert(key, state),
{
    let at: int = if !has_entry(before, key) {
        before.len() as int
    } else {
        choose|i: int|
            0 <= i < before.len() && before[i].0 == key && after == #[trigger] before.update(i, (key, state))
    };
    assert(after[at] == (key, state));
    assert forall|j: int| 0 <= j < after.len() && j != at implies #[trigger] after[j] == before[j] by {}
    assert forall|i: int, j: int| 0 <= i < j < after.len() implies (#[trigger] after[i]).0 != (#[trigger] after[j]).0 by {
        if i == at {
            assert(after[j] == before[j]);
        } else if j == at {
            assert(after[i] == before[i]);
        } else {
            assert(after[j] == before[j] && after[i] == before[i]);
        }
    }
    lemma_entry(after, at);
    let m = entries_map(before).insert(key, state);
    assert forall|k: ParserChannelKey| entries_map(after).dom().contains(k) <==> m.dom().contains(k) by {
        if has_entry(after, k) {
            let i = entry_index(after, k);
            if i != at {
                assert(before[i] == after[i]);
                assert(has_entry(before, k));
            }
        }
        if has_entry(before, k) && k != key {
            let i = entry_index(before, k);
            assert(after[i] == before[i]);
        }
    }
    assert forall|k: ParserChannelKey| #[trigger] entries_map(after).dom().contains(k) implies entries_map(after)[k] == m[k] by {
        let i = entry_index(after, k);
        assert(after[i].0 == k);
        if i != at {
            assert(before[i] == after[i]);
            lemma_entry(before, i);
            lemma_entry(after, i);
        }
    }
    assert(entries_map(after) =~= m);
}

proof fn lemma_removed(before: Seq<(ParserChannelKey, ChannelState)>, at: int)
    requires
        distinct_keys(before),
        0 <= at < before.len(),
    ensures
        distinct_keys(before.remove(at)),
        entries_map(before.remove(at)) == entries_map(before).remove(before[at].0),
{
    let after = before.remove(at);
    let key = before[at].0;
    assert forall|j: int| 0 <= j < after.len() implies #[trigger] after[j] == before[if j < at { j } else { j + 1 }] by {}
    assert(distinct_keys(after));
    let m = entries_map(before).remove(key);
    assert forall|k: ParserChannelKey| entries_map(after).dom().contains(k) <==> m.dom().contains(k) by {
        if has_entry(after, k) {
            let i = entry_index(after, k);
            assert(after[i] == before[if i < at { i } else { i + 1 }]);
            assert(has_entry(before, k));
        }
        if has_entry(before, k) && k != key {
            let i = entry_index(before, k);
            let j = if i < at { i } else { i - 1 };
            assert(after[j] == before[i]);
            assert(has_entry(after, k));
        }
    }
    assert forall|k: ParserChannelKey| #[trigger] entries_map(after).dom().contains(k) implies entries_map(after)[k] == m[k] by {
        let i = entry_index(after, k);
        assert(after[i].0 == k);
        let j = if i < at { i } else { i + 1 };
        assert(before[j] == after[i]);
        lemma_entry(before, j);
    }
    assert(entries_map(after) =~= m);
}

// ---------------------------------------------------------------------------
// Laws
// ---------------------------------------------------------------------------

/// A packet touches the remembered state of its own source and channel only.
pub proof fn packet_leaves_other_channels(
    m: ChannelMap,
    source_addr: SocketAddr,
    data: Seq<u8>,
    other: ParserChannelKey,
)
    requires
        other != packet_key(source_addr, data),
    ensures
        cached_state(step_channels(m, source_addr, data), other) == cached_state(m, other),
{
}

/// A packet that is no complete channel message changes nothing and yields
/// nothing.
pub proof fn foreign_packet_is_ignored(m: ChannelMap, source_addr: SocketAddr, data: Seq<u8>)
    requires
        !is_channel_message(data),
    ensures
        step_channels(m, source_addr, data) == m,
        step_chunk(m, source_addr, data) is None,
{
}

/// A message without configuration never changes the remembered state, except
/// that a mismatch of the service data drops its channel.
pub proof fn no_config_keeps_channels(m: ChannelMap, source_addr: SocketAddr, data: Seq<u8>)
    requires
        is_channel_message(data),
        !metadata_of(data).has_config,
    ensures
        ({
            let after = step_channels(m, source_addr, data);
            after == m || after == m.remove(packet_key(source_addr, data))
        }),
        step_chunk(m, source_addr, data) is Some ==> step_channels(m, source_addr, data) == m,
{
}

/// A message without configuration on a channel that has no remembered state
/// yields no chunk: the format is never guessed.
pub proof fn unconfigured_channel_yields_nothing(m: ChannelMap, source_addr: SocketAddr, data: Seq<u8>)
    requires
        !m.dom().contains(packet_key(source_addr, data)),
        !metadata_of(data).has_config,
    ensures
        step_chunk(m, source_addr, data) is None,
{
}

/// A chunk of a message without configuration has the format that is remembered
/// for its channel.
pub proof fn cached_format_is_reused(m: ChannelMap, source_addr: SocketAddr, data: Seq<u8>)
    requires
        !metadata_of(data).has_config,
        step_chunk(m, source_addr, data) is Some,
    ensures
        m.dom().contains(packet_key(source_addr, data)),
        step_chunk(m, source_addr, data)->0.format == m[packet_key(source_addr, data)].format,
{
}

/// A configuration that closes its channel leaves no state behind, whether or
/// not its message carried samples.
pub proof fn closing_config_drops_channel(m: ChannelMap, source_addr: SocketAddr, data: Seq<u8>)
    requires
        is_channel_message(data),
        metadata_of(data).has_config,
        config_of(data.take(4 + metadata_of(data).total_size)) is Some,
        config_of(data.take(4 + metadata_of(data).total_size))->0.closes(),
        step_outcome(m, source_addr, data) is Some,
    ensures
        !step_channels(m, source_addr, data).dom().contains(packet_key(source_addr, data)),
{
}

/// A chunk has one point for each whole sample after the sample chunk header,
/// and nothing is left over.
pub proof fn chunk_points_fill_message(m: ChannelMap, source_addr: SocketAddr, data: Seq<u8>)
    requires
        step_chunk(m, source_addr, data) is Some,
    ensures
        ({
            let md = metadata_of(data);
            let s = data.take(4 + md.total_size);
            let start = if md.has_config { config_end(s) } else { 12 };
            let chunk = step_chunk(m, source_addr, data)->0;
            chunk.points.len() * chunk.format.size() == s.len() - start - 4
        }),
{
    let md = metadata_of(data);
    let s = data.take(4 + md.total_size);
    let start = if md.has_config { config_end(s) } else { 12 };
    let chunk = step_chunk(m, source_addr, data)->0;
    let rest = s.len() - start - 4;
    let size = chunk.format.size();
    assert((rest / size) * size == rest) by (nonlinear_arith)
        requires
            rest % size == 0,
            size > 0,
            rest >= 0,
    ;
}

/// What stands in channel `k` of the sample at `i`: the octets after those of the channels
/// before, as many as the channel is wide, the most significant first.
pub open spec fn channel_value(s: Seq<u8>, i: int, channels: Seq<Channel>, k: int) -> int {
    let at = i + channel_bytes(channels.take(k));
    if channels[k].bytes == 2 {
        s[at] * 256 + s[at + 1]
    } else {
        s[at] as int
    }
}

/// The largest value of a channel.
pub open spec fn channel_full(channel: Channel) -> int {
    if channel.bytes == 2 {
        65535
    } else {
        255
    }
}

proof fn lemma_channel_offsets(format: SampleFormat, k: int)
    requires
        0 <= k < format.channels().len(),
        k <= 5,
    ensures
        channel_bytes(format.channels().take(k)) == if k <= 2 || format is XyrgbHighRes
            || format is Extended {
            2 * k
        } else {
            k + 2
        },
    decreases k,
{
    let c = format.channels();
    let t = c.take(k);
    if k >= 1 {
        assert(t.drop_last() =~= c.take(k - 1));
        lemma_channel_offsets(format, k - 1);
        assert(t.last() == c[k - 1]);
    } else {
        assert(t.len() == 0);
    }
}

/// A sample is read by its declared channels, whatever the format and wherever it stands.
/// The first two hold the position, then come red, green and blue; they are one color
/// without a channel for the intensity, and each scaled by it with one.
pub proof fn sample_is_read_by_channels(s: Seq<u8>, i: int, format: SampleFormat)
    ensures
        ({
            let p = point_at(s, i, format);
            let c = format.channels();
            let x = channel_value(s, i, c, 0);
            let y = channel_value(s, i, c, 1);
            &&& c[0] == (Channel { id: 0x4200, bytes: 2 })
            &&& c[1] == (Channel { id: 0x4210, bytes: 2 })
            &&& p.x == (if x < 0x8000 {
                x
            } else if x == 0x8000 {
                -32767
            } else {
                x - 0x1_0000
            })
            &&& p.y == (if y < 0x8000 {
                y
            } else if y == 0x8000 {
                -32767
            } else {
                y - 0x1_0000
            })
            &&& c.len() == 2 ==> p.r == 0 && p.g == 0 && p.b == 0 && p.full_scale == 1
            &&& c.len() != 2 ==> {
                &&& c.len() >= 5
                &&& c[2].id == 0x527E && c[3].id == 0x5214 && c[4].id == 0x51CC
                &&& c[2].bytes == c[3].bytes && c[3].bytes == c[4].bytes
            }
            &&& c.len() == 5 ==> {
                &&& p.r == channel_value(s, i, c, 2)
                &&& p.g == channel_value(s, i, c, 3)
                &&& p.b == channel_value(s, i, c, 4)
                &&& p.full_scale == channel_full(c[2])
            }
            &&& c.len() > 5 ==> {
                let intensity = channel_value(s, i, c, 5);
                &&& c[5].id == 0x5C10
                &&& p.r == channel_value(s, i, c, 2) * intensity
                &&& p.g == channel_value(s, i, c, 3) * intensity
                &&& p.b == channel_value(s, i, c, 4) * intensity
                &&& p.full_scale == channel_full(c[2]) * channel_full(c[5])
            }
        }),
{
    let c = format.channels();
    lemma_channel_offsets(format, 0);
    lemma_channel_offsets(format, 1);
    if c.len() > 2 {
        lemma_channel_offsets(format, 2);
        lemma_channel_offsets(format, 3);
        lemma_channel_offsets(format, 4);
        let r = channel_value(s, i, c, 2);
        let g = channel_value(s, i, c, 3);
        let b = channel_value(s, i, c, 4);
        if c.len() > 5 {
            lemma_channel_offsets(format, 5);
            let v = channel_value(s, i, c, 5);
            assert(0 <= r * v <= 65535 * 65535 && 0 <= g * v <= 65535 * 65535 && 0 <= b * v
                <= 65535 * 65535) by (nonlinear_arith)
                requires
                    0 <= r <= 65535,
                    0 <= g <= 65535,
                    0 <= b <= 65535,
                    0 <= v <= 65535,
            ;
        }
    }
}

/// Octets of a color that are written in the order of their channels are read back, in
/// each format that the receiver knows.
pub proof fn written_sample_is_read_back(
    s: Seq<u8>,
    i: int,
    x: i16,
    y: i16,
    r: u16,
    g: u16,
    b: u16,
    intensity: u16,
)
    requires
        0 <= i <= s.len(),
        x > i16::MIN,
        y > i16::MIN,
    ensures
        ({
            let place = bytes::be_i16_bytes(x) + bytes::be_i16_bytes(y);
            let narrow_color = seq![r as u8, g as u8, b as u8];
            let wide_color = bytes::be_u16_bytes(r) + bytes::be_u16_bytes(g) + bytes::be_u16_bytes(
                b,
            );
            &&& place.is_prefix_of(s.skip(i)) ==> point_at(s, i, SampleFormat::Xy) == (
            ReceivedPoint { x, y, r: 0, g: 0, b: 0, full_scale: 1 })
            &&& r < 256 && g < 256 && b < 256 && (place + narrow_color).is_prefix_of(s.skip(i))
                ==> point_at(s, i, SampleFormat::Xyrgb) == (ReceivedPoint {
                x,
                y,
                r: r as u32,
                g: g as u32,
                b: b as u32,
                full_scale: 255,
            })
            &&& r < 256 && g < 256 && b < 256 && intensity < 256 && (place + narrow_color
                + seq![intensity as u8]).is_prefix_of(s.skip(i)) ==> point_at(
                s,
                i,
                SampleFormat::Xyrgbi,
            ) == (ReceivedPoint {
                x,
                y,
                r: (r * intensity) as u32,
                g: (g * intensity) as u32,
                b: (b * intensity) as u32,
                full_scale: 65_025,
            })
            &&& (place + wide_color).is_prefix_of(s.skip(i)) ==> point_at(
                s,
                i,
                SampleFormat::XyrgbHighRes,
            ) == (ReceivedPoint {
                x,
                y,
                r: r as u32,
                g: g as u32,
                b: b as u32,
                full_scale: 65535,
            })
            &&& (place + wide_color + bytes::be_u16_bytes(intensity)).is_prefix_of(s.skip(i))
                ==> point_at(s, i, SampleFormat::Extended) == (ReceivedPoint {
                x,
                y,
                r: (r * intensity) as u32,
                g: (g * intensity) as u32,
                b: (b * intensity) as u32,
                full_scale: 4_294_836_225,
            })
        }),
{
    let t = s.skip(i);
    let place = bytes::be_i16_bytes(x) + bytes::be_i16_bytes(y);
    let narrow_color = seq![r as u8, g as u8, b as u8];
    let wide_color = bytes::be_u16_bytes(r) + bytes::be_u16_bytes(g) + bytes::be_u16_bytes(b);
    if place.is_prefix_of(t) {
        lemma_place(s, i, x, y, place);
    }
    if (place + narrow_color).is_prefix_of(t) {
        lemma_place(s, i, x, y, place + narrow_color);
        let u = place + narrow_color;
        assert(t.take(7)[4] == u[4] && t.take(7)[5] == u[5] && t.take(7)[6] == u[6]);
        assert(s[i + 4] == t[4] && s[i + 5] == t[5] && s[i + 6] == t[6]);
    }
    if (place + narrow_color + seq![intensity as u8]).is_prefix_of(t) {
        let u = place + narrow_color + seq![intensity as u8];
        lemma_place(s, i, x, y, u);
        assert(t.take(8)[4] == u[4] && t.take(8)[5] == u[5] && t.take(8)[6] == u[6] && t.take(
            8,
        )[7] == u[7]);
        assert(s[i + 4] == t[4] && s[i + 5] == t[5] && s[i + 6] == t[6] && s[i + 7] == t[7]);
    }
    if (place + wide_color).is_prefix_of(t) {
        let u = place + wide_color;
        lemma_place(s, i, x, y, u);
        lemma_word_in(s, i, u, 4, r);
        lemma_word_in(s, i, u, 6, g);
        lemma_word_in(s, i, u, 8, b);
    }
    if (place + wide_color + bytes::be_u16_bytes(intensity)).is_prefix_of(t) {
        let u = place + wide_color + bytes::be_u16_bytes(intensity);
        lemma_place(s, i, x, y, u);
        lemma_word_in(s, i, u, 4, r);
        lemma_word_in(s, i, u, 6, g);
        lemma_word_in(s, i, u, 8, b);
        lemma_word_in(s, i, u, 10, intensity);
    }
}

proof fn lemma_place(s: Seq<u8>, i: int, x: i16, y: i16, u: Seq<u8>)
    requires
        0 <= i <= s.len(),
        x > i16::MIN,
        y > i16::MIN,
        u.is_prefix_of(s.skip(i)),
        (bytes::be_i16_bytes(x) + bytes::be_i16_bytes(y)).is_prefix_of(u),
    ensures
        normal_coordinate(bytes::be_i16(s, i)) == x,
        normal_coordinate(bytes::be_i16(s, i + 2)) == y,
{
    let place = bytes::be_i16_bytes(x) + bytes::be_i16_bytes(y);
    assert(u.take(4) =~= place);
    assert(s.skip(i).take(u.len() as int) =~= u);
    assert(s.subrange(i, i + 2) =~= u.take(4).subrange(0, 2));
    assert(place.subrange(0, 2) =~= bytes::be_i16_bytes(x));
    assert(s.subrange(i + 2, i + 4) =~= u.take(4).subrange(2, 4));
    assert(place.subrange(2, 4) =~= bytes::be_i16_bytes(y));
    bytes::be_i16_round_trip(s, i, x);
    bytes::be_i16_round_trip(s, i + 2, y);
}

proof fn lemma_word_in(s: Seq<u8>, i: int, u: Seq<u8>, at: int, n: u16)
    requires
        0 <= i <= s.len(),
        u.is_prefix_of(s.skip(i)),
        0 <= at,
        at + 2 <= u.len(),
        u.subrange(at, at + 2) =~= bytes::be_u16_bytes(n),
    ensures
        bytes::be_u16(s, i + at) == n,
{
    assert(s.skip(i).take(u.len() as int) =~= u);
    assert(s.subrange(i + at, i + at + 2) =~= u.subrange(at, at + 2));
    bytes::be_u16_round_trip(s, i + at, n);
}

/// The samples of a chunk are read one after the other, without gaps.
pub proof fn samples_are_read_in_order(
    s: Seq<u8>,
    start: int,
    n: int,
    format: SampleFormat,
    k: int,
)
    requires
        0 <= k < n,
    ensures
        points_at(s, start, n, format).len() == n,
        points_at(s, start, n, format)[k] == point_at(
            s,
            start + k * channel_bytes(format.channels()),
            format,
        ),
        n > 1 ==> points_at(s, start, n, format).skip(1) =~= points_at(
            s,
            start + channel_bytes(format.channels()),
            n - 1,
            format,
        ),
{
    channels_fill_sample(format);
    let size = format.size();
    let all = points_at(s, start, n, format).skip(1);
    let later = points_at(s, start + size, n - 1, format);
    assert forall|j: int| 0 <= j < n - 1 implies #[trigger] all[j] == later[j] by {
        assert((j + 1) * size == j * size + size) by (nonlinear_arith);
    }
}

/// A chunk repeats the number, the time and the kind that its message has, and how long
/// its points last: the last three octets before them.
pub proof fn chunk_repeats_its_headers(m: ChannelMap, source_addr: SocketAddr, data: Seq<u8>)
    requires
        step_chunk(m, source_addr, data) is Some,
    ensures
        ({
            let chunk = step_chunk(m, source_addr, data)->0;
            let end = 4 + data[4] * 256 + data[5];
            let start = end - chunk.points.len() * channel_bytes(chunk.format.channels());
            &&& chunk.sequence == data[2] * 256 + data[3]
            &&& chunk.content_id == data[6] * 256 + data[7]
            &&& chunk.timestamp_us_u32 == data[8] * 0x100_0000 + data[9] * 0x1_0000 + data[10] * 256
                + data[11]
            &&& 16 <= start <= end <= data.len()
            &&& chunk.duration_us == data[start - 3] * 0x1_0000 + data[start - 2] * 256
                + data[start - 1]
            &&& chunk.points == points_at(
                data.take(end),
                start,
                chunk.points.len() as int,
                chunk.format,
            )
        }),
{
    let chunk = step_chunk(m, source_addr, data)->0;
    let md = metadata_of(data);
    let s = data.take(4 + md.total_size);
    chunk_points_fill_message(m, source_addr, data);
    channels_fill_sample(chunk.format);
    let at = if md.has_config {
        config_end(s)
    } else {
        12
    };
    let word = bytes::be_u32(s, at);
    let low = (s[at + 1] * 0x1_0000 + s[at + 2] * 256 + s[at + 3]) as u32;
    let high = s[at];
    assert(word & 0x00FF_FFFFu32 == low) by (bit_vector)
        requires
            word == high * 0x100_0000 + low,
            low < 0x100_0000,
    ;
}

/// Whether a message is a whole channel message shows in its first octets alone; one that
/// is cut short is none.
pub proof fn whole_messages_are_taken(data: Seq<u8>)
    requires
        data.len() >= 12,
    ensures
        is_channel_message(data) <==> {
            let size = data[4] * 256 + data[5];
            &&& 8 <= size <= 0xFF00
            &&& size + 4 <= data.len()
            &&& data[6] >= 128
        },
{
    let id = bytes::be_u16(data, 6);
    let high = data[6];
    let low = data[7];
    assert((id & 0x8000u16 != 0) == (high >= 128)) by (bit_vector)
        requires
            id == high * 256 + low,
    ;
}

/// The parts of a content id are told apart: six bits of a channel, the kind of the
/// chunk, and the bit for a configuration or the end of a frame.
pub proof fn content_id_parts(channel: u8, kind: u8, marked: bool)
    requires
        channel < 64,
    ensures
        ({
            let id = (0x8000 + (if marked {
                0x4000int
            } else {
                0
            }) + channel * 256 + kind) as u16;
            &&& content_channel(id) == channel
            &&& content_type_byte(id) == kind
            &&& content_config_bit(id) == marked
        }),
{
    let mark: u16 = if marked {
        0x4000
    } else {
        0
    };
    let id = (0x8000 + mark + channel * 256 + kind) as u16;
    assert(((id & 0x3F00u16) >> 8u16) as u8 == channel && (id & 0x00FFu16) as u8 == kind && (id
        & 0x4000u16 != 0) == (mark != 0)) by (bit_vector)
        requires
            id == 0x8000 + mark + channel * 256 + kind,
            channel < 64,
            mark == 0 || mark == 0x4000,
    ;
}

/// A message carries a configuration if its kind is below that of a sequel and it is
/// marked; a frame is complete with a lone message, or with a sequel that is marked.
pub proof fn mark_means_config_or_end(data: Seq<u8>)
    ensures
        ({
            let m = metadata_of(data);
            let kind = content_type_byte(m.content_id);
            &&& m.has_config <==> content_config_bit(m.content_id) && kind < 0xC0
            &&& m.is_last_fragment <==> kind == 0x02 || (kind == 0xC0 && content_config_bit(
                m.content_id,
            ))
            &&& m.chunk_type is Void <==> kind == 0
            &&& m.chunk_type is Wave <==> kind == 1
            &&& m.chunk_type is Frame <==> kind == 2
            &&& m.chunk_type is FrameFirst <==> kind == 3
            &&& m.chunk_type is FrameSequel <==> kind == 0xC0
        }),
{
}

/// Descriptors are read in turn: a channel is as wide as the descriptor after it says;
/// tags, with the words they bring along, and modifiers hold no sample; a break ends the
/// channels of a sample.
pub proof fn descriptors_are_read_in_turn(d: Seq<u16>, i: int)
    requires
        0 <= i < d.len(),
    ensures
        d[i] < 0x1000 ==> {
            let skipped = d[i] % 16;
            channels_from(d, i) == channels_from(
                d,
                if i + 1 + skipped < d.len() {
                    i + 1 + skipped
                } else {
                    d.len() as int
                },
            )
        },
        0x1000 <= d[i] < 0x1100 ==> channels_from(d, i) == Some(Seq::<Channel>::empty()),
        0x1100 <= d[i] < 0x2000 ==> channels_from(d, i) == channels_from(d, i + 1),
        d[i] == 0x4010 ==> channels_from(d, i) is None,
        d[i] >= 0x2000 && d[i] != 0x4010 ==> {
            let is_wide = i + 1 < d.len() && d[i + 1] == 0x4010;
            let rest = channels_from(
                d,
                if is_wide {
                    i + 2
                } else {
                    i + 1
                },
            );
            &&& channels_from(d, i) is Some <==> rest is Some
            &&& rest is Some ==> {
                let c = channels_from(d, i)->0;
                &&& c.len() == rest->0.len() + 1
                &&& c[0].id == d[i]
                &&& c[0].bytes == if is_wide {
                    2u8
                } else {
                    1u8
                }
                &&& c.skip(1) =~= rest->0
            }
        },
        channels_from(d, d.len() as int) == Some(Seq::<Channel>::empty()),
{
    let w = d[i];
    assert((w & 0xF000u16 == 0) == (w < 0x1000) && (w & 0xFF00u16 == 0x1000) == (0x1000 <= w && w
        < 0x1100) && (w & 0xF000u16 == 0x1000) == (0x1000 <= w && w < 0x2000) && w & 0x000Fu16 == w
        % 16) by (bit_vector);
}

/// Only the five known lists of channels are a format: any other is refused.
pub proof fn format_has_its_channels(d: Seq<u16>)
    ensures
        format_of(d) matches Some(f) ==> channels_from(d, 0) == Some(f.channels()),
        format_of(d) is None && channels_from(d, 0) is Some ==> forall|f: SampleFormat|
            channels_from(d, 0)->0 != #[trigger] f.channels(),
{
    if let Some(c) = channels_from(d, 0) {
        assert forall|f: SampleFormat| format_of(d) is None implies c != #[trigger] f.channels() by {
            channels_fill_sample(f);
        }
    }
}

/// Samples of another configuration than the remembered one are not shown, and what was
/// remembered is dropped; so is a chunk of a kind that the channel's service does not
/// take, but that keeps the channel.
pub proof fn mismatched_samples_are_not_shown(m: ChannelMap, source_addr: SocketAddr, data: Seq<u8>)
    requires
        is_channel_message(data),
        !metadata_of(data).has_config,
        metadata_of(data).total_size >= 12,
        m.dom().contains(packet_key(source_addr, data)),
        !(metadata_of(data).chunk_type is Void),
    ensures
        ({
            let key = packet_key(source_addr, data);
            let kind = metadata_of(data).chunk_type;
            let frames = kind is Frame || kind is FrameFirst || kind is FrameSequel;
            let taken = (m[key].service_mode == 1 && kind is Wave) || (m[key].service_mode == 2
                && frames);
            let same = data[12] / 16 % 4 * 16 == m[key].service_data_match;
            &&& !taken ==> step_chunk(m, source_addr, data) is None && step_channels(
                m,
                source_addr,
                data,
            ) == m
            &&& taken && !same ==> step_chunk(m, source_addr, data) is None && step_channels(
                m,
                source_addr,
                data,
            ) == m.remove(key)
            &&& taken && same ==> step_channels(m, source_addr, data) == m
        }),
{
    let s = data.take(4 + metadata_of(data).total_size);
    let word = bytes::be_u32(s, 12);
    let low = (s[13] * 0x1_0000 + s[14] * 256 + s[15]) as u32;
    let high = s[12];
    assert((word >> 24u32) as u8 & 0x30u8 == (high / 16 % 4 * 16)) by (bit_vector)
        requires
            word == high * 0x100_0000 + low,
            low < 0x100_0000,
    ;
}

/// A configuration that routes its channel is remembered with the format that its
/// descriptors declare, in place of what was known; one for no known format, or for no
/// service, leaves nothing.
pub proof fn routing_config_is_remembered(m: ChannelMap, source_addr: SocketAddr, data: Seq<u8>)
    requires
        is_channel_message(data),
        metadata_of(data).has_config,
        step_outcome(m, source_addr, data) is Some,
        data[13] % 4 == 1,
    ensures
        ({
            let key = packet_key(source_addr, data);
            let after = step_channels(m, source_addr, data);
            let words = words_at(data.take(4 + metadata_of(data).total_size), 16, 2 * data[12]);
            let format = format_of(words);
            &&& format is None || data[15] == 0 ==> after == m.remove(key) && step_chunk(
                m,
                source_addr,
                data,
            ) is None
            &&& after.dom().contains(key) ==> {
                &&& format == Some(after[key].format)
                &&& after[key].service_mode == data[15]
                &&& after[key].service_data_match == data[13] / 16 % 4 * 16
            }
            &&& step_chunk(m, source_addr, data) is Some ==> after.dom().contains(key) && format
                == Some(step_chunk(m, source_addr, data)->0.format)
        }),
{
    let flags = data[13];
    let s = data.take(4 + metadata_of(data).total_size);
    assert(flags & 0x01u8 != 0 && flags & 0x02u8 == 0 && flags & 0x30u8 == (flags / 16 % 4 * 16))
        by (bit_vector)
        requires
            flags % 4 == 1,
    ;
    assert(s[12] == data[12] && s[13] == data[13] && s[15] == data[15]);
}

/// What a chunk is seen as is what it holds, part by part.
pub proof fn chunk_is_seen_as_it_is(c: ParsedChunk)
    ensures
        c@.sequence == c.sequence,
        c@.content_id == c.content_id,
        c@.channel_id == c.channel_id,
        c@.chunk_type == c.chunk_type,
        c@.config_or_last_fragment == c.config_or_last_fragment,
        c@.has_config == c.has_config,
        c@.is_last_fragment == c.is_last_fragment,
        c@.timestamp_us_u32 == c.timestamp_us_u32,
        c@.duration_us == c.duration_us,
        c@.format == c.format,
        c@.points == c.points@,
        chunk_view(Some(c)) == Some(c@),
        chunk_view(None) is None,
{
}

/// A parser gives the chunk that a packet makes for what is known of its channel, and
/// remembers what the packet tells of it; without a memory, each packet stands alone.
pub proof fn parser_goes_by_its_channels()
    ensures
        forall|p: &mut FrameParser, source: SocketAddr, data: &[u8], r: Option<ParsedChunk>|
            #[trigger] call_ensures(FrameParser::parse_frame_data, (p, source, data), r) ==> {
                &&& r is None <==> step_chunk(p@, source, data@) is None
                &&& r matches Some(c) ==> step_chunk(p@, source, data@) == Some(c@)
                &&& final(p)@ == step_channels(p@, source, data@)
            },
        forall|p: &mut FrameParser| #[trigger]
            call_ensures(FrameParser::reset, (p,), ()) ==> final(p)@ == ChannelMap::empty(),
        forall|p: FrameParser| #[trigger]
            call_ensures(FrameParser::new, (), p) ==> p@ == ChannelMap::empty(),
        forall|source: SocketAddr, data: &[u8], r: Option<ParsedChunk>|
            #![trigger call_ensures(parse_frame_data, (data,), r), step_chunk(ChannelMap::empty(), source, data@)]
            call_ensures(parse_frame_data, (data,), r) ==> chunk_view(r) == step_chunk(
                ChannelMap::empty(),
                source,
                data@,
            ),
{
}

} // verus!
