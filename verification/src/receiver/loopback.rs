//! What a sender streams is what a receiver gets: laws that relate the packets
//! of [`crate::protocols::idn::dac::stream`] to [`crate::receiver::parser`].

use vstd::prelude::*;

use crate::bytes;
use crate::net::SocketAddr;
use crate::protocols::idn::dac::stream::{self, PointFormat, Stream};
use crate::protocols::idn::protocol::{
    Point, PointExtended, PointXyrgbHighRes, PointXyrgbi, SampleChunkHeader,
};
use crate::receiver::parser::{
    self, Channel, ChannelState, ChunkType, ParserChannelKey, ReceivedPoint, SampleFormat,
    StateUpdate,
};

verus! {

/// A sample type that the receiver decodes.
pub trait Received: Point {
    /// The format that the sender announces it with.
    spec fn sent_as() -> PointFormat;

    /// The format that the receiver finds.
    spec fn received_as() -> SampleFormat;

    /// The point that the receiver makes of it.
    spec fn received(self) -> ReceivedPoint;

    /// The receiver decodes the sample wherever it stands.
    proof fn is_decoded(self, s: Seq<u8>, i: int)
        requires
            0 <= i,
            i + Self::size() <= s.len(),
            s.subrange(i, i + Self::size()) == self.bytes(),
        ensures
            parser::point_at(s, i, Self::received_as()) == self.received(),
            Self::size() == Self::received_as().size(),
            Self::size() == Self::sent_as().size(),
    ;

    /// The descriptors of the sent format declare the received one.
    proof fn is_declared()
        ensures
            parser::format_of(Self::sent_as().descriptor_words()) == Some(Self::received_as()),
            Self::size() == Self::received_as().size(),
            Self::size() == Self::sent_as().size(),
    ;
}

impl Received for PointXyrgbi {
    open spec fn sent_as() -> PointFormat {
        PointFormat::Xyrgbi
    }

    open spec fn received_as() -> SampleFormat {
        SampleFormat::Xyrgbi
    }

    open spec fn received(self) -> ReceivedPoint {
        ReceivedPoint {
            x: parser::normal_coordinate(self.x),
            y: parser::normal_coordinate(self.y),
            r: (self.r * self.i) as u32,
            g: (self.g * self.i) as u32,
            b: (self.b * self.i) as u32,
            full_scale: 65_025,
        }
    }

    proof fn is_decoded(self, s: Seq<u8>, i: int) {
        let t = s.subrange(i, i + 8);
        let u = self.bytes();
        assert(t.subrange(0, 2) =~= bytes::be_i16_bytes(self.x));
        assert(t.subrange(2, 4) =~= bytes::be_i16_bytes(self.y));
        assert(s.subrange(i, i + 2) =~= t.subrange(0, 2));
        assert(s.subrange(i + 2, i + 4) =~= t.subrange(2, 4));
        bytes::be_i16_round_trip(s, i, self.x);
        bytes::be_i16_round_trip(s, i + 2, self.y);
        assert(u[4] == self.r && u[5] == self.g && u[6] == self.b && u[7] == self.i);
        assert(s[i + 4] == t[4] && s[i + 5] == t[5] && s[i + 6] == t[6] && s[i + 7] == t[7]);
    }

    proof fn is_declared() {
        let d = PointFormat::Xyrgbi.descriptor_words();
        lemma_end(d);
        lemma_narrow(d, 7);
        lemma_narrow(d, 6);
        lemma_narrow(d, 5);
        lemma_narrow(d, 4);
        lemma_wide(d, 2);
        lemma_wide(d, 0);
        let c = parser::channels_from(d, 0)->0;
        assert(c.len() == 6);
        assert(c =~= SampleFormat::Xyrgbi.channels());
        parser::channels_fill_sample(SampleFormat::Xyrgbi);
    }
}

impl Received for PointXyrgbHighRes {
    open spec fn sent_as() -> PointFormat {
        PointFormat::XyrgbHighRes
    }

    open spec fn received_as() -> SampleFormat {
        SampleFormat::XyrgbHighRes
    }

    open spec fn received(self) -> ReceivedPoint {
        ReceivedPoint {
            x: parser::normal_coordinate(self.x),
            y: parser::normal_coordinate(self.y),
            r: self.r as u32,
            g: self.g as u32,
            b: self.b as u32,
            full_scale: 65535,
        }
    }

    proof fn is_decoded(self, s: Seq<u8>, i: int) {
        let t = s.subrange(i, i + 10);
        assert(t.subrange(0, 2) =~= bytes::be_i16_bytes(self.x));
        assert(t.subrange(2, 4) =~= bytes::be_i16_bytes(self.y));
        assert(t.subrange(4, 6) =~= bytes::be_u16_bytes(self.r));
        assert(t.subrange(6, 8) =~= bytes::be_u16_bytes(self.g));
        assert(t.subrange(8, 10) =~= bytes::be_u16_bytes(self.b));
        assert(s.subrange(i, i + 2) =~= t.subrange(0, 2));
        assert(s.subrange(i + 2, i + 4) =~= t.subrange(2, 4));
        assert(s.subrange(i + 4, i + 6) =~= t.subrange(4, 6));
        assert(s.subrange(i + 6, i + 8) =~= t.subrange(6, 8));
        assert(s.subrange(i + 8, i + 10) =~= t.subrange(8, 10));
        bytes::be_i16_round_trip(s, i, self.x);
        bytes::be_i16_round_trip(s, i + 2, self.y);
        bytes::be_u16_round_trip(s, i + 4, self.r);
        bytes::be_u16_round_trip(s, i + 6, self.g);
        bytes::be_u16_round_trip(s, i + 8, self.b);
    }

    proof fn is_declared() {
        let d = PointFormat::XyrgbHighRes.descriptor_words();
        lemma_end(d);
        lemma_wide(d, 8);
        lemma_wide(d, 6);
        lemma_wide(d, 4);
        lemma_wide(d, 2);
        lemma_wide(d, 0);
        let c = parser::channels_from(d, 0)->0;
        assert(c.len() == 5);
        assert(c =~= SampleFormat::XyrgbHighRes.channels());
        parser::channels_fill_sample(SampleFormat::XyrgbHighRes);
    }
}

impl Received for PointExtended {
    open spec fn sent_as() -> PointFormat {
        PointFormat::Extended
    }

    open spec fn received_as() -> SampleFormat {
        SampleFormat::Extended
    }

    open spec fn received(self) -> ReceivedPoint {
        ReceivedPoint {
            x: parser::normal_coordinate(self.x),
            y: parser::normal_coordinate(self.y),
            r: (self.r * self.i) as u32,
            g: (self.g * self.i) as u32,
            b: (self.b * self.i) as u32,
            full_scale: 4_294_836_225,
        }
    }

    proof fn is_decoded(self, s: Seq<u8>, i: int) {
        let t = s.subrange(i, i + 20);
        assert(t.subrange(0, 2) =~= bytes::be_i16_bytes(self.x));
        assert(t.subrange(2, 4) =~= bytes::be_i16_bytes(self.y));
        assert(t.subrange(4, 6) =~= bytes::be_u16_bytes(self.r));
        assert(t.subrange(6, 8) =~= bytes::be_u16_bytes(self.g));
        assert(t.subrange(8, 10) =~= bytes::be_u16_bytes(self.b));
        assert(t.subrange(10, 12) =~= bytes::be_u16_bytes(self.i));
        assert(s.subrange(i, i + 2) =~= t.subrange(0, 2));
        assert(s.subrange(i + 2, i + 4) =~= t.subrange(2, 4));
        assert(s.subrange(i + 4, i + 6) =~= t.subrange(4, 6));
        assert(s.subrange(i + 6, i + 8) =~= t.subrange(6, 8));
        assert(s.subrange(i + 8, i + 10) =~= t.subrange(8, 10));
        assert(s.subrange(i + 10, i + 12) =~= t.subrange(10, 12));
        bytes::be_i16_round_trip(s, i, self.x);
        bytes::be_i16_round_trip(s, i + 2, self.y);
        bytes::be_u16_round_trip(s, i + 4, self.r);
        bytes::be_u16_round_trip(s, i + 6, self.g);
        bytes::be_u16_round_trip(s, i + 8, self.b);
        bytes::be_u16_round_trip(s, i + 10, self.i);
    }

    proof fn is_declared() {
        let d = PointFormat::Extended.descriptor_words();
        lemma_end(d);
        lemma_wide(d, 18);
        lemma_wide(d, 16);
        lemma_wide(d, 14);
        lemma_wide(d, 12);
        lemma_wide(d, 10);
        lemma_wide(d, 8);
        lemma_wide(d, 6);
        lemma_wide(d, 4);
        lemma_wide(d, 2);
        lemma_wide(d, 0);
        let c = parser::channels_from(d, 0)->0;
        assert(c.len() == 10);
        assert(c =~= SampleFormat::Extended.channels());
        parser::channels_fill_sample(SampleFormat::Extended);
    }
}

// ---------------------------------------------------------------------------
// Descriptors
// ---------------------------------------------------------------------------

proof fn lemma_sample_channel(w: u16)
    requires
        w >= 0x2000,
    ensures
        !parser::is_void_tag(w),
        !parser::is_break(w),
        !parser::is_modifier(w),
{
    assert(w & 0xF000u16 != 0 && w & 0xFF00u16 != 0x1000 && w & 0xF000u16 != 0x1000)
        by (bit_vector)
        requires
            w >= 0x2000,
    ;
}

proof fn lemma_end(d: Seq<u16>)
    ensures
        parser::channels_from(d, d.len() as int) == Some(Seq::<Channel>::empty()),
{
}

proof fn lemma_wide(d: Seq<u16>, i: int)
    requires
        0 <= i,
        i + 1 < d.len(),
        d[i] >= 0x2000,
        d[i] != 0x4010,
        d[i + 1] == 0x4010,
        parser::channels_from(d, i + 2) is Some,
    ensures
        parser::channels_from(d, i) == Some(
            seq![Channel { id: d[i], bytes: 2 }] + parser::channels_from(d, i + 2)->0,
        ),
{
    lemma_sample_channel(d[i]);
}

proof fn lemma_narrow(d: Seq<u16>, i: int)
    requires
        0 <= i < d.len(),
        d[i] >= 0x2000,
        d[i] != 0x4010,
        i + 1 == d.len() || d[i + 1] != 0x4010,
        parser::channels_from(d, i + 1) is Some,
    ensures
        parser::channels_from(d, i) == Some(
            seq![Channel { id: d[i], bytes: 1 }] + parser::channels_from(d, i + 1)->0,
        ),
{
    lemma_sample_channel(d[i]);
}

// ---------------------------------------------------------------------------
// Layout
// ---------------------------------------------------------------------------

proof fn lemma_word_at(words: Seq<u16>, i: int)
    requires
        0 <= i < words.len(),
    ensures
        stream::word_bytes(words).len() == 2 * words.len(),
        stream::word_bytes(words).subrange(2 * i, 2 * i + 2) == bytes::be_u16_bytes(words[i]),
    decreases words.len(),
{
    let front = words.drop_last();
    if i < words.len() - 1 {
        lemma_word_at(front, i);
        assert(stream::word_bytes(words).subrange(2 * i, 2 * i + 2) =~= stream::word_bytes(
            front,
        ).subrange(2 * i, 2 * i + 2));
    } else {
        if front.len() > 0 {
            lemma_word_at(front, 0);
        }
        assert(stream::word_bytes(front).len() == 2 * front.len());
        assert(stream::word_bytes(words).subrange(2 * i, 2 * i + 2) =~= bytes::be_u16_bytes(
            words[i],
        ));
    }
}

proof fn lemma_sample_at<P: Point>(points: Seq<P>, i: int)
    requires
        0 <= i < points.len(),
    ensures
        0 <= i * P::size(),
        i * P::size() + P::size() <= stream::sample_bytes(points).len(),
        stream::sample_bytes(points).subrange(i * P::size(), i * P::size() + P::size())
            == points[i].bytes(),
    decreases points.len(),
{
    let front = points.drop_last();
    let size = P::size();
    points[i].size_is_fixed();
    points.last().size_is_fixed();
    stream::sample_bytes_len(points);
    stream::sample_bytes_len(front);
    let n = points.len() as int;
    assert(0 <= i * size && i * size + size <= n * size && (n - 1) * size == n * size - size)
        by (nonlinear_arith)
        requires
            0 <= i < n,
            size >= 1,
    ;
    let all = stream::sample_bytes(points);
    if i < n - 1 {
        lemma_sample_at(front, i);
        assert(all.subrange(i * size, i * size + size) =~= stream::sample_bytes(front).subrange(
            i * size,
            i * size + size,
        ));
    } else {
        assert(all.subrange(i * size, i * size + size) =~= points[i].bytes());
    }
}

/// The channel that a stream sends on.
pub open spec fn stream_channel(stream: Stream) -> u8 {
    (if stream.dac.service.service_id == 0 {
        0u8
    } else {
        (stream.dac.service.service_id - 1) as u8
    }) & 0x3F
}

/// The channel key of a stream at a receiver.
pub open spec fn stream_key(source: SocketAddr, stream: Stream) -> ParserChannelKey {
    ParserChannelKey { source_addr: source, channel_id: stream_channel(stream) }
}

/// The state that the configuration of a stream opens its channel with.
pub open spec fn stream_state<P: Received>(stream: Stream) -> ChannelState {
    ChannelState {
        format: P::received_as(),
        service_data_match: stream::sdm_bits(stream.service_data_match),
        service_mode: stream::service_mode_byte(stream.frame_mode),
    }
}

proof fn lemma_content_id(service_id: u8, flag: u16, chunk_type: u8)
    requires
        flag == 0 || flag == 0x4000,
    ensures
        ({
            let id = 0x8000u16 | stream::channel_bits(service_id) | flag | chunk_type as u16;
            let channel = (if service_id == 0 { 0u8 } else { (service_id - 1) as u8 }) & 0x3F;
            &&& id & 0x8000u16 != 0
            &&& (id & 0x4000u16 != 0) == (flag != 0)
            &&& ((id & 0x3F00u16) >> 8u16) as u8 == channel
            &&& (id & 0x00FFu16) as u8 == chunk_type
        }),
{
    let x: u8 = if service_id == 0 {
        0u8
    } else {
        (service_id - 1) as u8
    };
    let x16 = x as u16;
    let c16 = chunk_type as u16;
    let bits = (x16 & 0x3F) << 8u16;
    assert(stream::channel_bits(service_id) == bits);
    let id = 0x8000u16 | bits | flag | c16;
    assert(id & 0x8000u16 != 0 && (id & 0x4000u16 != 0) == (flag != 0) && ((id & 0x3F00u16)
        >> 8u16) as u8 == x & 0x3Fu8 && (id & 0x00FFu16) as u8 == chunk_type) by (bit_vector)
        requires
            id == 0x8000u16 | bits | flag | c16,
            bits == (x16 & 0x3F) << 8u16,
            flag == 0 || flag == 0x4000,
            x16 == x as u16,
            c16 == chunk_type as u16,
    ;
}

proof fn lemma_flags(service_data_match: u8, duration: u32)
    ensures
        ({
            let sdm = stream::sdm_bits(service_data_match);
            let word = SampleChunkHeader::word(sdm, duration);
            &&& (0x01u8 | sdm) & 0x01u8 != 0
            &&& (0x01u8 | sdm) & 0x02u8 == 0
            &&& (0x01u8 | sdm) & 0x30u8 == sdm
            &&& (word >> 24u32) as u8 & 0x30u8 == sdm
            &&& word & 0x00FF_FFFFu32 == duration % 0x100_0000
        }),
{
    let sdm = stream::sdm_bits(service_data_match);
    let word = SampleChunkHeader::word(sdm, duration);
    let low = (duration % 0x100_0000) as u32;
    assert((0x01u8 | sdm) & 0x01u8 != 0 && (0x01u8 | sdm) & 0x02u8 == 0 && (0x01u8 | sdm) & 0x30u8
        == sdm && sdm & 0x30u8 == sdm) by (bit_vector)
        requires
            sdm == ((service_data_match & 1) | 2) << 4u8,
    ;
    assert((word >> 24u32) as u8 == sdm && word & 0x00FF_FFFFu32 == low) by (bit_vector)
        requires
            word == sdm * 0x100_0000 + low,
            low < 0x100_0000,
    ;
}

/// The headers of a packet with samples are read as they were written.
proof fn lemma_headers<P: Point>(
    st: Stream,
    command: u8,
    with_config: bool,
    chunk_type: u8,
    points: Seq<P>,
)
    requires
        1 <= P::size() <= 20,
        points.len() <= stream::packet_capacity(with_config, st.point_format, P::size()),
    ensures
        ({
            let s = st.sample_packet(command, with_config, chunk_type, points);
            let m = parser::metadata_of(s);
            let start = 12 + stream::config_size(with_config, st.point_format);
            let word = SampleChunkHeader::word(
                stream::sdm_bits(st.service_data_match),
                stream::duration_us(points.len() as int, st.scan_speed) as u32,
            );
            &&& parser::is_channel_message(s)
            &&& m.sequence == st.sequence
            &&& m.timestamp_us_u32 == st.wire_timestamp()
            &&& m.channel_id == stream_channel(st)
            &&& m.chunk_type == ChunkType::of_byte(chunk_type)
            &&& m.config_or_last_fragment == with_config
            &&& m.has_config == (with_config && chunk_type < 0xC0)
            &&& m.total_size == s.len() - 4
            &&& s.take(4 + m.total_size) == s
            &&& s.len() == start + 4 + points.len() * P::size()
            &&& bytes::be_u32(s, start) == word
            &&& s.skip(start + 4) == stream::sample_bytes(points)
            &&& with_config ==> s.subrange(12, start) == st.config_bytes()
        }),
{
    let s = st.sample_packet(command, with_config, chunk_type, points);
    let start = 12 + stream::config_size(with_config, st.point_format);
    stream::sample_packet_size(st, command, with_config, chunk_type, points);
    stream::sample_bytes_len(points);
    let words = st.point_format.descriptor_words();
    lemma_word_at(words, 0);
    let flag = if with_config {
        0x4000u16
    } else {
        0u16
    };
    let id = 0x8000u16 | stream::channel_bits(st.dac.service.service_id) | flag | chunk_type as u16;
    lemma_content_id(st.dac.service.service_id, flag, chunk_type);
    let total = (12 + stream::config_size(with_config, st.point_format) + points.len() * P::size())
        as u16;
    let word = SampleChunkHeader::word(
        stream::sdm_bits(st.service_data_match),
        stream::duration_us(points.len() as int, st.scan_speed) as u32,
    );
    assert(s.subrange(2, 4) =~= bytes::be_u16_bytes(st.sequence));
    assert(s.subrange(4, 6) =~= bytes::be_u16_bytes(total));
    assert(s.subrange(6, 8) =~= bytes::be_u16_bytes(id));
    assert(s.subrange(8, 12) =~= bytes::be_u32_bytes(st.wire_timestamp()));
    assert(s.subrange(start, start + 4) =~= bytes::be_u32_bytes(word));
    assert(s.skip(start + 4) =~= stream::sample_bytes(points));
    if with_config {
        assert(s.subrange(12, start) =~= st.config_bytes());
    }
    bytes::be_u16_round_trip(s, 2, st.sequence);
    bytes::be_u16_round_trip(s, 4, total);
    bytes::be_u16_round_trip(s, 6, id);
    bytes::be_u32_round_trip(s, 8, st.wire_timestamp());
    bytes::be_u32_round_trip(s, start, word);
    assert(s.take(4 + total) =~= s);
}

/// The samples of a packet are read as the points that were sent.
proof fn lemma_points<P: Received>(s: Seq<u8>, at: int, points: Seq<P>)
    requires
        0 <= at <= s.len(),
        s.skip(at) == stream::sample_bytes(points),
    ensures
        parser::points_at(s, at, points.len() as int, P::received_as()) == received_points(points),
{
    P::is_declared();
    let size = P::size();
    assert forall|k: int| 0 <= k < points.len() implies parser::point_at(
        s,
        at + k * size,
        P::received_as(),
    ) == points[k].received() by {
        lemma_sample_at(points, k);
        let all = s.skip(at);
        assert(s.subrange(at + k * size, at + k * size + size) =~= all.subrange(
            k * size,
            k * size + size,
        ));
        points[k].is_decoded(s, at + k * size);
    }
    assert(parser::points_at(s, at, points.len() as int, P::received_as()) =~= received_points(
        points,
    ));
}

/// The points that a receiver makes of sent ones.
pub open spec fn received_points<P: Received>(points: Seq<P>) -> Seq<ReceivedPoint> {
    Seq::new(points.len(), |i: int| points[i].received())
}

// ---------------------------------------------------------------------------
// Laws
// ---------------------------------------------------------------------------

/// What a receiver makes of a packet of a stream: the points in their order,
/// with the numbering and timing the sender gave them.
pub open spec fn chunk_matches<P: Received>(
    chunk: parser::ChunkView,
    st: Stream,
    chunk_type: u8,
    points: Seq<P>,
) -> bool {
    &&& chunk.points == received_points(points)
    &&& chunk.format == P::received_as()
    &&& chunk.sequence == st.sequence
    &&& chunk.channel_id == stream_channel(st)
    &&& chunk.chunk_type == ChunkType::of_byte(chunk_type)
    &&& chunk.timestamp_us_u32 == st.wire_timestamp()
    &&& chunk.duration_us == (stream::duration_us(points.len() as int, st.scan_speed) as u32)
        % 0x100_0000
}

/// A packet that announces its format is received whole, whatever the receiver
/// knew before, and opens the channel with the state of the stream.
pub proof fn configured_packet_is_received<P: Received>(
    m: parser::ChannelMap,
    source: SocketAddr,
    st: Stream,
    command: u8,
    chunk_type: u8,
    points: Seq<P>,
)
    requires
        st.point_format == P::sent_as(),
        chunk_type < 0xC0,
        parser::mode_accepts(
            stream::service_mode_byte(st.frame_mode),
            ChunkType::of_byte(chunk_type),
        ),
        points.len() <= stream::packet_capacity(true, st.point_format, P::size()),
    ensures
        ({
            let s = st.sample_packet(command, true, chunk_type, points);
            &&& parser::step_chunk(m, source, s) is Some
            &&& chunk_matches(parser::step_chunk(m, source, s)->0, st, chunk_type, points)
            &&& parser::step_channels(m, source, s) == m.insert(
                stream_key(source, st),
                stream_state::<P>(st),
            )
        }),
{
    P::is_declared();
    let s = st.sample_packet(command, true, chunk_type, points);
    lemma_headers(st, command, true, chunk_type, points);
    let start = 12 + stream::config_size(true, st.point_format);
    lemma_config(s, st);
    lemma_flags(
        st.service_data_match,
        stream::duration_us(points.len() as int, st.scan_speed) as u32,
    );
    lemma_whole_samples::<P>(points.len() as int);
    lemma_points(s, start + 4, points);
    let md = parser::metadata_of(s);
    let config = parser::config_of(s);
    let state = stream_state::<P>(st);
    assert(config->0.routes() && !config->0.closes());
    assert(config->0.opened_state() == Some(state));
    assert(parser::update_for(config, Some(state)) == StateUpdate::Store(state));
    assert(parser::samples_outcome(s, md, start, config, state) == Some(
        parser::PacketView {
            chunk: Some(parser::chunk_of(s, md, start, state)),
            state_update: StateUpdate::Store(state),
        },
    ));
    let cached = parser::cached_state(m, parser::packet_key(source, s));
    assert(parser::packet_outcome(s, md, cached) == parser::samples_outcome(
        s,
        md,
        start,
        config,
        state,
    ));
}

/// The configuration of a packet is read as it was written.
proof fn lemma_config(s: Seq<u8>, st: Stream)
    requires
        s.len() >= 12 + stream::config_size(true, st.point_format),
        s.subrange(12, 12 + stream::config_size(true, st.point_format)) == st.config_bytes(),
    ensures
        parser::config_end(s) == 12 + stream::config_size(true, st.point_format),
        parser::config_of(s) == Some(
            parser::ChannelConfig {
                flags: 0x01u8 | stream::sdm_bits(st.service_data_match),
                service_mode: stream::service_mode_byte(st.frame_mode),
                format: parser::format_of(st.point_format.descriptor_words()),
            },
        ),
{
    let words = st.point_format.descriptor_words();
    let start = 12 + stream::config_size(true, st.point_format);
    let c = st.config_bytes();
    let t = s.subrange(12, start);
    lemma_word_at(words, 0);
    assert(t[0] == s[12] && t[1] == s[13] && t[3] == s[15]);
    assert(c[0] == words.len() / 2);
    assert(c[1] == 0x01u8 | stream::sdm_bits(st.service_data_match));
    assert(c[3] == stream::service_mode_byte(st.frame_mode));
    assert(c.skip(4) =~= stream::word_bytes(words));
    assert forall|i: int| 0 <= i < words.len() implies bytes::be_u16(s, 16 + 2 * i) == words[i] by {
        lemma_word_at(words, i);
        assert(s.subrange(16 + 2 * i, 16 + 2 * i + 2) =~= t.skip(4).subrange(2 * i, 2 * i + 2));
        bytes::be_u16_round_trip(s, 16 + 2 * i, words[i]);
    }
    assert(parser::words_at(s, 16, 2 * s[12]) =~= words);
    lemma_flags(st.service_data_match, 0);
}

proof fn lemma_whole_samples<P: Received>(n: int)
    requires
        n >= 0,
    ensures
        (n * P::size()) % P::received_as().size() == 0,
        (n * P::size()) / P::received_as().size() == n,
{
    P::is_declared();
    let size = P::size();
    assert((n * size) % size == 0 && (n * size) / size == n) by (nonlinear_arith)
        requires
            size > 0,
            n >= 0,
    ;
}

/// A packet without configuration is received whole by a receiver that has the
/// state of the stream, and leaves that state as it is.
pub proof fn bare_packet_is_received<P: Received>(
    m: parser::ChannelMap,
    source: SocketAddr,
    st: Stream,
    command: u8,
    chunk_type: u8,
    points: Seq<P>,
)
    requires
        st.point_format == P::sent_as(),
        parser::cached_state(m, stream_key(source, st)) == Some(stream_state::<P>(st)),
        parser::mode_accepts(
            stream::service_mode_byte(st.frame_mode),
            ChunkType::of_byte(chunk_type),
        ),
        points.len() <= stream::packet_capacity(false, st.point_format, P::size()),
    ensures
        ({
            let s = st.sample_packet(command, false, chunk_type, points);
            &&& parser::step_chunk(m, source, s) is Some
            &&& chunk_matches(parser::step_chunk(m, source, s)->0, st, chunk_type, points)
            &&& parser::step_channels(m, source, s) == m
        }),
{
    P::is_declared();
    let s = st.sample_packet(command, false, chunk_type, points);
    lemma_headers(st, command, false, chunk_type, points);
    lemma_flags(
        st.service_data_match,
        stream::duration_us(points.len() as int, st.scan_speed) as u32,
    );
    lemma_whole_samples::<P>(points.len() as int);
    lemma_points(s, 16, points);
}

/// The points of all chunks that a sequence of packets yields, in order.
#[verifier::opaque]
pub open spec fn points_of(m: parser::ChannelMap, source: SocketAddr, packets: Seq<Seq<u8>>) -> Seq<
    ReceivedPoint,
>
    decreases packets.len(),
{
    if packets.len() == 0 {
        seq![]
    } else {
        (match parser::step_chunk(m, source, packets[0]) {
            Some(chunk) => chunk.points,
            None => seq![],
        }) + points_of(
            parser::step_channels(m, source, packets[0]),
            source,
            packets.skip(1),
        )
    }
}

/// The channel states after a sequence of packets.
#[verifier::opaque]
pub open spec fn channels_after(
    m: parser::ChannelMap,
    source: SocketAddr,
    packets: Seq<Seq<u8>>,
) -> parser::ChannelMap
    decreases packets.len(),
{
    if packets.len() == 0 {
        m
    } else {
        channels_after(parser::step_channels(m, source, packets[0]), source, packets.skip(1))
    }
}

/// A packet yields these points and leaves these channel states.
#[verifier::opaque]
spec fn yields(
    m: parser::ChannelMap,
    source: SocketAddr,
    s: Seq<u8>,
    points: Seq<ReceivedPoint>,
    m2: parser::ChannelMap,
) -> bool {
    &&& parser::step_chunk(m, source, s) is Some
    &&& parser::step_chunk(m, source, s)->0.points == points
    &&& parser::step_channels(m, source, s) == m2
}

proof fn lemma_points_of(
    m: parser::ChannelMap,
    source: SocketAddr,
    s: Seq<u8>,
    rest: Seq<Seq<u8>>,
    points: Seq<ReceivedPoint>,
    m2: parser::ChannelMap,
)
    requires
        yields(m, source, s, points, m2),
    ensures
        points_of(m, source, seq![s] + rest) == points + points_of(m2, source, rest),
        channels_after(m, source, seq![s] + rest) == channels_after(m2, source, rest),
{
    reveal(yields);
    reveal_with_fuel(channels_after, 1);
    reveal_with_fuel(points_of, 1);
    assert((seq![s] + rest).skip(1) =~= rest);
    assert((seq![s] + rest)[0] == s);
}

proof fn lemma_bare_yields<P: Received>(
    m: parser::ChannelMap,
    source: SocketAddr,
    st: Stream,
    command: u8,
    chunk_type: u8,
    points: Seq<P>,
)
    requires
        st.point_format == P::sent_as(),
        parser::cached_state(m, stream_key(source, st)) == Some(stream_state::<P>(st)),
        parser::mode_accepts(
            stream::service_mode_byte(st.frame_mode),
            ChunkType::of_byte(chunk_type),
        ),
        points.len() <= stream::packet_capacity(false, st.point_format, P::size()),
    ensures
        yields(
            m,
            source,
            st.sample_packet(command, false, chunk_type, points),
            received_points(points),
            m,
        ),
{
    reveal(yields);
    bare_packet_is_received(m, source, st, command, chunk_type, points);
}

proof fn lemma_configured_yields<P: Received>(
    m: parser::ChannelMap,
    source: SocketAddr,
    st: Stream,
    command: u8,
    chunk_type: u8,
    points: Seq<P>,
)
    requires
        st.point_format == P::sent_as(),
        chunk_type < 0xC0,
        parser::mode_accepts(
            stream::service_mode_byte(st.frame_mode),
            ChunkType::of_byte(chunk_type),
        ),
        points.len() <= stream::packet_capacity(true, st.point_format, P::size()),
    ensures
        yields(
            m,
            source,
            st.sample_packet(command, true, chunk_type, points),
            received_points(points),
            m.insert(stream_key(source, st), stream_state::<P>(st)),
        ),
{
    reveal(yields);
    configured_packet_is_received(m, source, st, command, chunk_type, points);
}

/// Two stages of a stream that are alike to a receiver.
pub open spec fn same_channel(a: Stream, b: Stream) -> bool {
    &&& a.dac == b.dac
    &&& a.service_data_match == b.service_data_match
    &&& a.frame_mode == b.frame_mode
    &&& a.point_format == b.point_format
    &&& a.previous_format == b.previous_format
    &&& a.frame_count == b.frame_count
}

proof fn lemma_rest_is_received<P: Received>(
    m: parser::ChannelMap,
    source: SocketAddr,
    st: Stream,
    points: Seq<P>,
    now_ns: u64,
)
    requires
        st.point_format == P::sent_as(),
        parser::cached_state(m, stream_key(source, st)) == Some(stream_state::<P>(st)),
    ensures
        points_of(m, source, stream::rest_packets(st, points, now_ns)) == received_points(points),
        channels_after(m, source, stream::rest_packets(st, points, now_ns)) == m,
        same_channel(stream::after_rest(st, points, now_ns), st),
    decreases points.len(),
{
    P::is_declared();
    if points.len() == 0 {
        reveal_with_fuel(points_of, 1);
        reveal_with_fuel(channels_after, 1);
        assert(received_points(points) =~= Seq::<ReceivedPoint>::empty());
    } else {
        stream::share_is_sound::<P>(false, st.point_format, points.len() as int);
        let k = st.rest_share::<P>(points.len() as int);
        let chunk_type = stream::chunk_type_byte(st.frame_mode, false, false);
        lemma_bare_yields(m, source, st, 0x40, chunk_type, points.take(k));
        let next = st.numbered().rest_sent(k, now_ns);
        lemma_rest_is_received(m, source, next, points.skip(k), now_ns);
        lemma_points_of(
            m,
            source,
            st.rest_packet(points),
            stream::rest_packets(next, points.skip(k), now_ns),
            received_points(points.take(k)),
            m,
        );
        assert(received_points(points.take(k)) + received_points(points.skip(k))
            =~= received_points(points));
    }
}

/// A frame that announces its format arrives whole: whatever the receiver knew
/// before, the chunks of the frame's packets hold exactly its points, in order.
/// It leaves the receiver with the state of the stream, and the stream without
/// a need to announce the format again.
pub proof fn announced_frame_is_received<P: Received>(
    m: parser::ChannelMap,
    source: SocketAddr,
    st: Stream,
    command: u8,
    points: Seq<P>,
    now_ns: u64,
)
    requires
        st.point_format == P::sent_as(),
        st.wants_config(),
        points.len() > 0,
    ensures
        points_of(m, source, stream::frame_packets(st, command, points, now_ns))
            == received_points(points),
        ({
            let after = stream::after_frame(st, points, now_ns);
            let channels = channels_after(
                m,
                source,
                stream::frame_packets(st, command, points, now_ns),
            );
            &&& parser::cached_state(channels, stream_key(source, after)) == Some(
                stream_state::<P>(after),
            )
            &&& after.point_format == st.point_format
            &&& st.frame_count < u64::MAX ==> !after.wants_config()
        }),
{
    P::is_declared();
    let n = points.len() as int;
    let capacity = stream::packet_capacity(true, st.point_format, P::size());
    stream::share_is_sound::<P>(true, st.point_format, n);
    let k = st.first_share::<P>(n);
    let chunk_type = stream::chunk_type_byte(
        st.frame_mode,
        true,
        stream::packet_count(n, capacity) == 1,
    );
    lemma_configured_yields(m, source, st, command, chunk_type, points.take(k));
    let next = stream::after_first(st, points, now_ns);
    let m2 = m.insert(stream_key(source, st), stream_state::<P>(st));
    lemma_rest_is_received(m2, source, next, points.skip(k), now_ns);
    lemma_points_of(
        m,
        source,
        st.first_packet(command, points),
        stream::rest_packets(next, points.skip(k), now_ns),
        received_points(points.take(k)),
        m2,
    );
    assert(received_points(points.take(k)) + received_points(points.skip(k)) =~= received_points(
        points,
    ));
}

/// A later frame of the same format arrives whole at a receiver that has the
/// state of the stream.
pub proof fn later_frame_is_received<P: Received>(
    m: parser::ChannelMap,
    source: SocketAddr,
    st: Stream,
    command: u8,
    points: Seq<P>,
    now_ns: u64,
)
    requires
        st.point_format == P::sent_as(),
        !st.wants_config(),
        parser::cached_state(m, stream_key(source, st)) == Some(stream_state::<P>(st)),
        points.len() > 0,
    ensures
        points_of(m, source, stream::frame_packets(st, command, points, now_ns))
            == received_points(points),
        ({
            let after = stream::after_frame(st, points, now_ns);
            let channels = channels_after(
                m,
                source,
                stream::frame_packets(st, command, points, now_ns),
            );
            &&& parser::cached_state(channels, stream_key(source, after)) == Some(
                stream_state::<P>(after),
            )
            &&& after.point_format == st.point_format
            &&& st.frame_count < u64::MAX ==> !after.wants_config()
        }),
{
    P::is_declared();
    let n = points.len() as int;
    let capacity = stream::packet_capacity(false, st.point_format, P::size());
    stream::share_is_sound::<P>(false, st.point_format, n);
    let k = st.first_share::<P>(n);
    let chunk_type = stream::chunk_type_byte(
        st.frame_mode,
        true,
        stream::packet_count(n, capacity) == 1,
    );
    lemma_bare_yields(m, source, st, command, chunk_type, points.take(k));
    let next = stream::after_first(st, points, now_ns);
    lemma_rest_is_received(m, source, next, points.skip(k), now_ns);
    lemma_points_of(
        m,
        source,
        st.first_packet(command, points),
        stream::rest_packets(next, points.skip(k), now_ns),
        received_points(points.take(k)),
        m,
    );
    assert(received_points(points.take(k)) + received_points(points.skip(k)) =~= received_points(
        points,
    ));
}

/// The close packet of a stream makes a receiver forget the channel.
pub proof fn closed_channel_is_forgotten(m: parser::ChannelMap, source: SocketAddr, st: Stream)
    ensures
        parser::step_channels(m, source, st.channel_close_packet()) == m.remove(
            stream_key(source, st),
        ),
        parser::step_chunk(m, source, st.channel_close_packet()) is None,
{
    let s = st.channel_close_packet();
    let id = 0x8000u16 | 0x4000u16 | stream::channel_bits(st.dac.service.service_id) | 0u8 as u16;
    let bits = stream::channel_bits(st.dac.service.service_id);
    lemma_content_id(st.dac.service.service_id, 0x4000, 0);
    assert(0x8000u16 | 0x4000u16 | bits | 0u16 == 0x8000u16 | bits | 0x4000u16 | 0u16)
        by (bit_vector);
    assert(s.len() == 16);
    assert(s.subrange(4, 6) =~= bytes::be_u16_bytes(12));
    assert(s.subrange(6, 8) =~= bytes::be_u16_bytes(id));
    bytes::be_u16_round_trip(s, 4, 12);
    bytes::be_u16_round_trip(s, 6, id);
    assert(s.take(16) =~= s);
    assert(s[12] == 0 && s[13] == 0x02);
    assert(0x02u8 & 0x02u8 != 0 && 0x02u8 & 0x01u8 == 0) by (bit_vector);
}

// ---------------------------------------------------------------------------
// Numbering and timing
// ---------------------------------------------------------------------------

/// How many points there are in all.
pub open spec fn total_of(counts: Seq<int>) -> int
    decreases counts.len(),
{
    if counts.len() == 0 {
        0
    } else {
        counts[0] + total_of(counts.skip(1))
    }
}

/// How long groups of so many points last one after the other, in whole microseconds
/// each.
pub open spec fn micros_of(counts: Seq<int>, scan_speed: u32) -> int
    decreases counts.len(),
{
    if counts.len() == 0 {
        0
    } else {
        counts[0] * 1_000_000 / (scan_speed as int) + micros_of(counts.skip(1), scan_speed)
    }
}

/// A packet with these points at its end: its number stands at its third byte, its time
/// at its ninth, and just before the points how long they last.
#[verifier::opaque]
pub open spec fn carries<P: Point>(
    s: Seq<u8>,
    number: int,
    micros: int,
    points: Seq<P>,
    scan_speed: u32,
) -> bool {
    let start = s.len() - points.len() * P::size();
    let lasts = points.len() as int * 1_000_000 / (scan_speed as int);
    &&& start >= 16
    &&& bytes::be_u16(s, 2) == number % 0x1_0000
    &&& bytes::be_u32(s, 8) == micros % 0x1_0000_0000
    &&& bytes::be_u32(s, start - 4) % 0x100_0000 == lasts % 0x100_0000
    &&& s.skip(start) == stream::sample_bytes(points)
}

/// Packets that carry all points in turn, cut as `counts` says: numbered one after the
/// other, and each beginning when the one before has been played.
pub open spec fn carried_in_turn<P: Point>(
    packets: Seq<Seq<u8>>,
    counts: Seq<int>,
    number: int,
    micros: int,
    points: Seq<P>,
    scan_speed: u32,
) -> bool {
    &&& counts.len() == packets.len()
    &&& total_of(counts) == points.len()
    &&& forall|i: int|
        0 <= i < packets.len() ==> #[trigger] carried_at(
            packets[i],
            counts,
            number,
            micros,
            points,
            scan_speed,
            i,
        )
}

/// A packet that carries the points that are its turn.
pub open spec fn carried_at<P: Point>(
    s: Seq<u8>,
    counts: Seq<int>,
    number: int,
    micros: int,
    points: Seq<P>,
    scan_speed: u32,
    i: int,
) -> bool {
    let from = total_of(counts.take(i));
    &&& counts[i] >= 1
    &&& 0 <= from
    &&& from + counts[i] <= points.len()
    &&& carries(
        s,
        number + i,
        micros + micros_of(counts.take(i), scan_speed),
        points.subrange(from, from + counts[i]),
        scan_speed,
    )
}

proof fn lemma_carries<P: Point>(
    s: Seq<u8>,
    sequence: u16,
    timestamp: u64,
    points: Seq<P>,
    scan_speed: u32,
    flags: u8,
    start: int,
)
    requires
        1 <= P::size(),
        scan_speed != 0,
        points.len() * P::size() <= 1438,
        s.len() == start + 4 + points.len() * P::size(),
        start >= 12,
        bytes::be_u16(s, 2) == sequence,
        bytes::be_u32(s, 8) == timestamp % 0x1_0000_0000,
        bytes::be_u32(s, start) == SampleChunkHeader::word(
            flags,
            stream::duration_us(points.len() as int, scan_speed) as u32,
        ),
        s.skip(start + 4) == stream::sample_bytes(points),
    ensures
        carries(s, sequence as int, timestamp as int, points, scan_speed),
{
    reveal(carries);
    let n = points.len() as int;
    let d = scan_speed as int;
    let lasts = n * 1_000_000 / d;
    assert(n <= 1438) by (nonlinear_arith)
        requires
            n * P::size() <= 1438,
            P::size() >= 1,
            n >= 0,
    ;
    assert(0 <= lasts <= n * 1_000_000) by (nonlinear_arith)
        requires
            lasts == n * 1_000_000 / d,
            d >= 1,
            n >= 0,
    ;
    assert(SampleChunkHeader::word(flags, lasts as u32) % 0x100_0000 == lasts % 0x100_0000);
}

proof fn lemma_packet_carries<P: Point>(
    st: Stream,
    command: u8,
    with_config: bool,
    chunk_type: u8,
    points: Seq<P>,
)
    requires
        1 <= P::size() <= 20,
        points.len() <= stream::packet_capacity(with_config, st.point_format, P::size()),
        st.scan_speed != 0,
    ensures
        ({
            let s = st.sample_packet(command, with_config, chunk_type, points);
            &&& carries(s, st.sequence as int, st.timestamp as int, points, st.scan_speed)
            &&& is_type(s, ChunkType::of_byte(chunk_type))
            &&& s[0] == command
        }),
{
    reveal(is_type);
    lemma_headers(st, command, with_config, chunk_type, points);
    stream::sample_packet_size(st, command, with_config, chunk_type, points);
    lemma_carries(
        st.sample_packet(command, with_config, chunk_type, points),
        st.sequence,
        st.timestamp,
        points,
        st.scan_speed,
        stream::sdm_bits(st.service_data_match),
        12 + stream::config_size(with_config, st.point_format),
    );
}

proof fn lemma_turns_follow<P: Point>(
    first: Seq<u8>,
    k: int,
    rest: Seq<Seq<u8>>,
    counts: Seq<int>,
    number: int,
    micros: int,
    points: Seq<P>,
    scan_speed: u32,
)
    requires
        1 <= k <= points.len(),
        carries(first, number, micros, points.take(k), scan_speed),
        carried_in_turn(
            rest,
            counts,
            number + 1,
            micros + k * 1_000_000 / (scan_speed as int),
            points.skip(k),
            scan_speed,
        ),
    ensures
        carried_in_turn(
            seq![first] + rest,
            seq![k] + counts,
            number,
            micros,
            points,
            scan_speed,
        ),
        micros_of(seq![k] + counts, scan_speed) == k * 1_000_000 / (scan_speed as int)
            + micros_of(counts, scan_speed),
{
    let all = seq![first] + rest;
    let cut = seq![k] + counts;
    let later = micros + k * 1_000_000 / (scan_speed as int);
    assert(cut.skip(1) =~= counts);
    assert forall|i: int| 0 <= i < all.len() implies #[trigger] carried_at(
        all[i],
        cut,
        number,
        micros,
        points,
        scan_speed,
        i,
    ) by {
        if i == 0 {
            assert(points.subrange(0, k) =~= points.take(k));
            assert(cut.take(0).len() == 0);
        } else {
            assert(all[i] == rest[i - 1]);
            assert(carried_at(
                rest[i - 1],
                counts,
                number + 1,
                later,
                points.skip(k),
                scan_speed,
                i - 1,
            ));
            assert(cut.take(i).skip(1) =~= counts.take(i - 1));
            assert(cut.take(i)[0] == k);
            let from = total_of(counts.take(i - 1));
            assert(points.subrange(k + from, k + from + counts[i - 1]) =~= points.skip(k).subrange(
                from,
                from + counts[i - 1],
            ));
        }
    }
}

/// Packets numbered from a number on may be counted from any that is the same on the
/// wire.
proof fn lemma_turns_wrap<P: Point>(
    packets: Seq<Seq<u8>>,
    counts: Seq<int>,
    number: int,
    other: int,
    micros: int,
    points: Seq<P>,
    scan_speed: u32,
)
    requires
        carried_in_turn(packets, counts, number, micros, points, scan_speed),
        number % 0x1_0000 == other % 0x1_0000,
    ensures
        carried_in_turn(packets, counts, other, micros, points, scan_speed),
{
    assert forall|i: int| 0 <= i < packets.len() implies #[trigger] carried_at(
        packets[i],
        counts,
        other,
        micros,
        points,
        scan_speed,
        i,
    ) by {
        assert(carried_at(packets[i], counts, number, micros, points, scan_speed, i));
        reveal(carries);
    }
}

/// The kind of a packet that goes on with a frame.
spec fn sequel_type(st: Stream) -> ChunkType {
    if st.frame_mode is Wave {
        ChunkType::Wave
    } else {
        ChunkType::FrameSequel
    }
}

#[verifier::opaque]
spec fn is_type(s: Seq<u8>, chunk_type: ChunkType) -> bool {
    parser::metadata_of(s).chunk_type == chunk_type
}

spec fn all_of_type(packets: Seq<Seq<u8>>, chunk_type: ChunkType) -> bool {
    forall|i: int| 0 <= i < packets.len() ==> is_type(#[trigger] packets[i], chunk_type)
}

proof fn lemma_rest_carries<P: Point>(st: Stream, points: Seq<P>)
    requires
        1 <= P::size() <= 20,
        st.scan_speed != 0,
        points.len() > 0,
    ensures
        carries(
            st.rest_packet(points),
            st.sequence as int,
            st.timestamp as int,
            points.take(st.rest_share::<P>(points.len() as int)),
            st.scan_speed,
        ),
        is_type(st.rest_packet(points), sequel_type(st)),
{
    let n = points.len() as int;
    stream::share_is_sound::<P>(false, st.point_format, n);
    let k = st.rest_share::<P>(n);
    let chunk_type = stream::chunk_type_byte(st.frame_mode, false, false);
    lemma_packet_carries(st, 0x40, false, chunk_type, points.take(k));
}

#[verifier::rlimit(60)]
proof fn lemma_rest_in_turn<P: Point>(st: Stream, points: Seq<P>, now_ns: u64) -> (counts: Seq<int>)
    requires
        1 <= P::size() <= 20,
        st.scan_speed != 0,
        st.timestamp + points.len() * 1_000_000 <= u64::MAX,
    ensures
        carried_in_turn(
            stream::rest_packets(st, points, now_ns),
            counts,
            st.sequence as int,
            st.timestamp as int,
            points,
            st.scan_speed,
        ),
        stream::after_rest(st, points, now_ns).timestamp == st.timestamp + micros_of(
            counts,
            st.scan_speed,
        ),
        stream::after_rest(st, points, now_ns).sequence == (st.sequence + counts.len()) % 0x1_0000,
        stream::after_rest(st, points, now_ns).frame_count == st.frame_count,
        all_of_type(stream::rest_packets(st, points, now_ns), sequel_type(st)),
    decreases points.len(),
{
    if points.len() == 0 {
        Seq::<int>::empty()
    } else {
        let n = points.len() as int;
        stream::share_is_sound::<P>(false, st.point_format, n);
        let k = st.rest_share::<P>(n);
        let next = st.numbered().rest_sent(k, now_ns);
        let first = st.rest_packet(points);
        lemma_rest_carries(st, points);
        let d = st.scan_speed as int;
        assert(0 <= k * 1_000_000 / d <= k * 1_000_000) by (nonlinear_arith)
            requires
                d >= 1,
                k >= 0,
        ;
        let counts = lemma_rest_in_turn(next, points.skip(k), now_ns);
        let rest = stream::rest_packets(next, points.skip(k), now_ns);
        lemma_turns_wrap(
            rest,
            counts,
            next.sequence as int,
            st.sequence + 1,
            next.timestamp as int,
            points.skip(k),
            st.scan_speed,
        );
        lemma_turns_follow(
            first,
            k,
            rest,
            counts,
            st.sequence as int,
            st.timestamp as int,
            points,
            st.scan_speed,
        );
        lemma_one_type(first, rest, sequel_type(st));
        seq![k] + counts
    }
}

proof fn lemma_one_type(first: Seq<u8>, rest: Seq<Seq<u8>>, chunk_type: ChunkType)
    requires
        is_type(first, chunk_type),
        all_of_type(rest, chunk_type),
    ensures
        all_of_type(seq![first] + rest, chunk_type),
{
    let all = seq![first] + rest;
    assert forall|i: int| 0 <= i < all.len() implies is_type(#[trigger] all[i], chunk_type) by {
        if i > 0 {
            assert(all[i] == rest[i - 1]);
        }
    }
}

/// The packets of a frame are contiguous: they carry the frame's points in order, each
/// at least one; their numbers follow one another; and each begins when the points of the
/// one before have been played. The stream goes on where the frame ends.
#[verifier::rlimit(60)]
pub proof fn frame_is_contiguous<P: Received>(
    st: Stream,
    command: u8,
    points: Seq<P>,
    now_ns: u64,
) -> (counts: Seq<int>)
    requires
        st.scan_speed != 0,
        points.len() > 0,
        st.timestamp + points.len() * 1_000_000 <= u64::MAX,
        st.frame_count < u64::MAX,
    ensures
        ({
            let packets = stream::frame_packets(st, command, points, now_ns);
            let after = stream::after_frame(st, points, now_ns);
            &&& packets.len() >= 1
            &&& carried_in_turn(
                packets,
                counts,
                st.sequence as int,
                st.timestamp as int,
                points,
                st.scan_speed,
            )
            &&& after.timestamp == st.timestamp + micros_of(counts, st.scan_speed)
            &&& after.sequence == (st.sequence + packets.len()) % 0x1_0000
            &&& after.frame_count == st.frame_count + 1
            &&& packets[0][0] == command
        }),
{
    P::is_declared();
    let n = points.len() as int;
    let k = st.first_share::<P>(n);
    lemma_first_carries(st, command, points);
    let d = st.scan_speed as int;
    assert(0 <= k * 1_000_000 / d <= k * 1_000_000) by (nonlinear_arith)
        requires
            d >= 1,
            k >= 0,
    ;
    let first = st.first_packet(command, points);
    let next = stream::after_first(st, points, now_ns);
    let counts = lemma_rest_in_turn(next, points.skip(k), now_ns);
    let rest = stream::rest_packets(next, points.skip(k), now_ns);
    lemma_turns_wrap(
        rest,
        counts,
        next.sequence as int,
        st.sequence + 1,
        next.timestamp as int,
        points.skip(k),
        st.scan_speed,
    );
    lemma_turns_follow(
        first,
        k,
        rest,
        counts,
        st.sequence as int,
        st.timestamp as int,
        points,
        st.scan_speed,
    );
    seq![k] + counts
}

/// In frame mode the first packet of a frame and those that follow it are told apart, and
/// so is a packet that is alone. In wave mode all are alike.
pub proof fn frame_parts_are_told_apart<P: Received>(
    st: Stream,
    command: u8,
    points: Seq<P>,
    now_ns: u64,
    i: int,
)
    requires
        st.scan_speed != 0,
        points.len() > 0,
        st.timestamp + points.len() * 1_000_000 <= u64::MAX,
        0 <= i < stream::frame_packets(st, command, points, now_ns).len(),
    ensures
        ({
            let packets = stream::frame_packets(st, command, points, now_ns);
            parser::metadata_of(packets[i]).chunk_type == if st.frame_mode is Wave {
                ChunkType::Wave
            } else if packets.len() == 1 {
                ChunkType::Frame
            } else if i == 0 {
                ChunkType::FrameFirst
            } else {
                ChunkType::FrameSequel
            }
        }),
{
    P::is_declared();
    let n = points.len() as int;
    let k = st.first_share::<P>(n);
    lemma_first_carries(st, command, points);
    let d = st.scan_speed as int;
    assert(0 <= k * 1_000_000 / d <= k * 1_000_000) by (nonlinear_arith)
        requires
            d >= 1,
            k >= 0,
    ;
    let first = st.first_packet(command, points);
    let next = stream::after_first(st, points, now_ns);
    let counts = lemma_rest_in_turn(next, points.skip(k), now_ns);
    let rest = stream::rest_packets(next, points.skip(k), now_ns);
    if k < n {
        stream::share_is_sound::<P>(false, next.point_format, n - k);
        assert(rest.len() > 0);
    } else {
        assert(rest.len() == 0);
    }
    assert(stream::frame_packets(st, command, points, now_ns) == seq![first] + rest);
    reveal(is_type);
    if i > 0 {
        assert((seq![first] + rest)[i] == rest[i - 1]);
        assert(is_type(rest[i - 1], sequel_type(next)));
    }
}

proof fn lemma_first_carries<P: Point>(st: Stream, command: u8, points: Seq<P>)
    requires
        1 <= P::size() <= 20,
        st.scan_speed != 0,
        points.len() > 0,
    ensures
        ({
            let n = points.len() as int;
            let k = st.first_share::<P>(n);
            let s = st.first_packet(command, points);
            &&& 1 <= k <= n
            &&& carries(
                s,
                st.sequence as int,
                st.timestamp as int,
                points.take(k),
                st.scan_speed,
            )
            &&& is_type(s, if st.frame_mode is Wave {
                ChunkType::Wave
            } else if k == n {
                ChunkType::Frame
            } else {
                ChunkType::FrameFirst
            })
            &&& s[0] == command
        }),
{
    let n = points.len() as int;
    let capacity = stream::packet_capacity(st.wants_config(), st.point_format, P::size());
    stream::share_is_sound::<P>(st.wants_config(), st.point_format, n);
    let k = st.first_share::<P>(n);
    let count = stream::packet_count(n, capacity);
    lemma_capacity(st.wants_config(), st.point_format, P::size());
    stream::packet_share_fits(n, capacity);
    if count > 1 {
        assert(n / count < n) by (nonlinear_arith)
            requires
                count > 1,
                n >= 1,
        ;
    }
    let chunk_type = stream::chunk_type_byte(st.frame_mode, true, count == 1);
    lemma_packet_carries(st, command, st.wants_config(), chunk_type, points.take(k));
}

proof fn lemma_capacity(with_config: bool, format: PointFormat, size: int)
    requires
        1 <= size <= 20,
    ensures
        1 <= stream::packet_capacity(with_config, format, size),
{
    let room = 1454 - (16 + stream::config_size(with_config, format));
    assert(1 <= room / size) by (nonlinear_arith)
        requires
            1 <= size <= 20,
            1394 <= room,
    ;
}

/// A frame follows the one before in time, however long that is ago. Only the first frame
/// is timed by the clock: from when the connection was made.
pub proof fn next_frame_follows(st: Stream, now_ns: u64)
    ensures
        st.frame_count > 0 ==> st.frame_begun(now_ns).timestamp == st.timestamp,
        st.frame_count == 0 && now_ns >= st.connect_ns ==> {
            let micros = st.frame_begun(now_ns).timestamp;
            micros * 1000 <= now_ns - st.connect_ns < (micros + 1) * 1000
        },
        st.frame_begun(now_ns).sequence == st.sequence,
        st.frame_begun(now_ns).frame_count == st.frame_count,
{
}

/// A frame in another format than the one before is told apart from it, and announces its
/// format; one in the same format does neither.
pub proof fn new_format_is_announced(st: Stream, now_ns: u64)
    ensures
        ({
            let begun = st.frame_begun(now_ns);
            let known = st.previous_format == Some(st.point_format);
            &&& st.frame_count == 0 || !known <==> begun.wants_config()
            &&& stream::sdm_bits(begun.service_data_match) == stream::sdm_bits(
                st.service_data_match,
            ) <==> known
            &&& begun.first_built().previous_format == Some(st.point_format)
        }),
{
    let a = st.service_data_match;
    let b = st.frame_begun(now_ns).service_data_match;
    if b != a {
        assert(((a & 1) | 2) << 4u8 != ((b & 1) | 2) << 4u8) by (bit_vector)
            requires
                b == if a == 255 { 0 } else { (a + 1) as u8 },
        ;
    }
}

/// A frame is brought to twenty points at least by holding its last point; nothing else
/// is changed.
pub proof fn short_frame_is_held<P: Point>(points: Seq<P>, i: int)
    requires
        points.len() > 0,
    ensures
        stream::padded(points).len() >= 20,
        stream::padded(points).len() == 20 || stream::padded(points).len() == points.len(),
        0 <= i < points.len() ==> stream::padded(points)[i] == points[i],
        points.len() <= i < stream::padded(points).len() ==> stream::padded(points)[i]
            == points.last(),
{
}

} // verus!
