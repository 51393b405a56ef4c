use laser_dac::net::{IpAddr, SocketAddr};
use laser_dac::receiver::parser::{
    classify_format, parse_frame_data, ChunkType, FrameParser, ParsedChunk, SampleFormat,
    COORDINATE_FULL_SCALE, DESC_BLUE_460, DESC_GREEN_532, DESC_INTENSITY, DESC_NIL,
    DESC_PRECISION_16BIT, DESC_RED_638, DESC_USER_1, DESC_USER_2, DESC_USER_3, DESC_X,
    DESC_X_PRIME, DESC_Y, IDNFLG_CHNCFG_CLOSE, IDNFLG_CHNCFG_ROUTING,
    IDNVAL_CNKTYPE_LPGRF_FRAME_SEQUEL,
};

/// A received point in normalized floating point numbers.
struct Seen {
    x: f32,
    y: f32,
    r: f32,
    g: f32,
    b: f32,
}

fn seen(chunk: &ParsedChunk, i: usize) -> Seen {
    let p = chunk.points[i];
    let full = p.full_scale as f32;
    Seen {
        x: p.x as f32 / COORDINATE_FULL_SCALE as f32,
        y: p.y as f32 / COORDINATE_FULL_SCALE as f32,
        r: p.r as f32 / full,
        g: p.g as f32 / full,
        b: p.b as f32 / full,
    }
}


/// IDN packet header (command + flags + sequence) — 4 bytes.
fn header(seq: u16) -> Vec<u8> {
    let mut v = Vec::with_capacity(4);
    v.push(0x40); // IDNCMD_RT_CNLMSG
    v.push(0x00);
    v.extend_from_slice(&seq.to_be_bytes());
    v
}

/// Build a full RT_CNLMSG packet with config + sample chunk for the
/// supplied descriptors and packed point bytes.
fn build_packet(descriptors: &[u16], chunk_type: u8, sample_bytes: &[u8]) -> Vec<u8> {
    build_packet_on_channel(descriptors, 0, chunk_type, sample_bytes)
}

fn build_packet_on_channel(
    descriptors: &[u16],
    channel_id: u8,
    chunk_type: u8,
    sample_bytes: &[u8],
) -> Vec<u8> {
    build_packet_on_channel_with_flags(
        descriptors,
        channel_id,
        chunk_type,
        sample_bytes,
        IDNFLG_CHNCFG_ROUTING,
        0,
    )
}

fn build_packet_on_channel_with_flags(
    descriptors: &[u16],
    channel_id: u8,
    chunk_type: u8,
    sample_bytes: &[u8],
    config_flags: u8,
    sample_flags: u8,
) -> Vec<u8> {
    let mut pkt = header(1);

    // Compute total_size = ChannelMessage (8) + ChannelConfig (4) +
    // descriptor bytes + SampleChunkHeader (4) + sample bytes
    let descriptor_bytes = descriptors.len() * 2;
    let total_size = 8 + 4 + descriptor_bytes + 4 + sample_bytes.len();

    // Channel message header (8 bytes)
    pkt.extend_from_slice(&(total_size as u16).to_be_bytes());
    // content_id: CHANNELMSG | CONFIG_LSTFRG | chunk_type
    let content_id: u16 =
        0x8000 | 0x4000 | (((channel_id as u16) & 0x3F) << 8) | chunk_type as u16;
    pkt.extend_from_slice(&content_id.to_be_bytes());
    pkt.extend_from_slice(&0x12345678u32.to_be_bytes()); // timestamp

    // Channel config header (4 bytes)
    assert!(
        descriptors.len() % 2 == 0,
        "descriptor count must be even"
    );
    let word_count = (descriptors.len() / 2) as u8;
    pkt.push(word_count);
    pkt.push(config_flags);
    pkt.push(channel_id + 1); // service_id
    pkt.push(0x02); // service_mode (discrete frame)

    // Descriptor words
    for &d in descriptors {
        pkt.extend_from_slice(&d.to_be_bytes());
    }

    // Sample chunk header (upper byte flags, lower 24 bits duration_us)
    pkt.extend_from_slice(&(((sample_flags as u32) << 24) | 1000).to_be_bytes());

    // Sample bytes
    pkt.extend_from_slice(sample_bytes);

    pkt
}

fn build_void_config_packet(descriptors: &[u16], channel_id: u8, config_flags: u8) -> Vec<u8> {
    let mut pkt = header(1);
    let descriptor_bytes = descriptors.len() * 2;
    let total_size = 8 + 4 + descriptor_bytes;

    pkt.extend_from_slice(&(total_size as u16).to_be_bytes());
    let content_id: u16 = 0x8000 | 0x4000 | (((channel_id as u16) & 0x3F) << 8);
    pkt.extend_from_slice(&content_id.to_be_bytes());
    pkt.extend_from_slice(&0x12345678u32.to_be_bytes());

    assert!(descriptors.len() % 2 == 0);
    pkt.push((descriptors.len() / 2) as u8);
    pkt.push(config_flags);
    pkt.push(channel_id + 1);
    pkt.push(0x02);
    for &d in descriptors {
        pkt.extend_from_slice(&d.to_be_bytes());
    }

    pkt
}

fn build_sequel_packet(
    seq: u16,
    channel_id: u8,
    last_fragment: bool,
    sample_bytes: &[u8],
) -> Vec<u8> {
    let mut pkt = header(seq);
    let total_size = 8 + 4 + sample_bytes.len();
    let content_id = 0x8000
        | if last_fragment { 0x4000 } else { 0x0000 }
        | (((channel_id as u16) & 0x3F) << 8)
        | IDNVAL_CNKTYPE_LPGRF_FRAME_SEQUEL as u16;

    pkt.extend_from_slice(&(total_size as u16).to_be_bytes());
    pkt.extend_from_slice(&content_id.to_be_bytes());
    pkt.extend_from_slice(&0x87654321u32.to_be_bytes());
    pkt.extend_from_slice(&1000u32.to_be_bytes());
    pkt.extend_from_slice(sample_bytes);
    pkt
}

fn build_no_config_packet(
    seq: u16,
    channel_id: u8,
    chunk_type: u8,
    sample_bytes: &[u8],
) -> Vec<u8> {
    let mut pkt = header(seq);
    let total_size = 8 + 4 + sample_bytes.len();
    let content_id = 0x8000 | (((channel_id as u16) & 0x3F) << 8) | chunk_type as u16;

    pkt.extend_from_slice(&(total_size as u16).to_be_bytes());
    pkt.extend_from_slice(&content_id.to_be_bytes());
    pkt.extend_from_slice(&0x11111111u32.to_be_bytes());
    pkt.extend_from_slice(&1000u32.to_be_bytes());
    pkt.extend_from_slice(sample_bytes);
    pkt
}

fn source_addr() -> SocketAddr {
    SocketAddr { ip: IpAddr::V4(0x7f00_0001), port: 12345, flowinfo: 0, scope_id: 0 }
}

fn descriptors_xy() -> Vec<u16> {
    vec![DESC_X, DESC_PRECISION_16BIT, DESC_Y, DESC_PRECISION_16BIT]
}

fn descriptors_xyrgb() -> Vec<u16> {
    vec![
        DESC_X,
        DESC_PRECISION_16BIT,
        DESC_Y,
        DESC_PRECISION_16BIT,
        DESC_RED_638,
        DESC_GREEN_532,
        DESC_BLUE_460,
        DESC_NIL,
    ]
}

fn descriptors_xyrgbi() -> Vec<u16> {
    vec![
        DESC_X,
        DESC_PRECISION_16BIT,
        DESC_Y,
        DESC_PRECISION_16BIT,
        DESC_RED_638,
        DESC_GREEN_532,
        DESC_BLUE_460,
        DESC_INTENSITY,
    ]
}

fn descriptors_xyrgb_highres() -> Vec<u16> {
    vec![
        DESC_X,
        DESC_PRECISION_16BIT,
        DESC_Y,
        DESC_PRECISION_16BIT,
        DESC_RED_638,
        DESC_PRECISION_16BIT,
        DESC_GREEN_532,
        DESC_PRECISION_16BIT,
        DESC_BLUE_460,
        DESC_PRECISION_16BIT,
    ]
}

fn descriptors_extended() -> Vec<u16> {
    vec![
        DESC_X,
        DESC_PRECISION_16BIT,
        DESC_Y,
        DESC_PRECISION_16BIT,
        DESC_RED_638,
        DESC_PRECISION_16BIT,
        DESC_GREEN_532,
        DESC_PRECISION_16BIT,
        DESC_BLUE_460,
        DESC_PRECISION_16BIT,
        DESC_INTENSITY,
        DESC_PRECISION_16BIT,
        DESC_USER_1,
        DESC_PRECISION_16BIT,
        DESC_USER_2,
        DESC_PRECISION_16BIT,
        DESC_USER_3,
        DESC_PRECISION_16BIT,
        DESC_X_PRIME,
        DESC_PRECISION_16BIT,
    ]
}

#[test]
fn classify_xy() {
    assert_eq!(classify_format(&descriptors_xy()), Some(SampleFormat::Xy));
}

#[test]
fn classify_xyrgb_with_padding() {
    assert_eq!(
        classify_format(&descriptors_xyrgb()),
        Some(SampleFormat::Xyrgb)
    );
}

#[test]
fn classify_xyrgbi() {
    assert_eq!(
        classify_format(&descriptors_xyrgbi()),
        Some(SampleFormat::Xyrgbi)
    );
}

#[test]
fn classify_xyrgb_highres() {
    assert_eq!(
        classify_format(&descriptors_xyrgb_highres()),
        Some(SampleFormat::XyrgbHighRes)
    );
}

#[test]
fn classify_extended() {
    assert_eq!(
        classify_format(&descriptors_extended()),
        Some(SampleFormat::Extended)
    );
}

#[test]
fn classify_unknown_descriptors_returns_none() {
    // Made-up channel id
    let bogus = vec![0x1234, 0x4010];
    assert!(classify_format(&bogus).is_none());
}

#[test]
fn classify_compares_channel_widths() {
    // The size of XYRGB, but X and Y of one octet, R and G of two
    let widths = vec![0x4200, 0x4210, 0x527E, 0x4010, 0x5214, 0x4010, 0x51CC, 0x0000];
    assert_eq!(classify_format(&widths), None);
    // The size of XYRGBI, with an intensity of two octets and a Y of one
    let mut moved = vec![DESC_X, DESC_PRECISION_16BIT, DESC_Y];
    moved.extend([DESC_RED_638, DESC_GREEN_532, DESC_BLUE_460]);
    moved.extend([DESC_INTENSITY, DESC_PRECISION_16BIT]);
    assert_eq!(classify_format(&moved), None);
}

#[test]
fn classify_ignores_non_sample_modifiers() {
    let mut descriptors = vec![0x1100]; // space modifier, no associated sample octet
    descriptors.extend(descriptors_xyrgb());

    assert_eq!(classify_format(&descriptors), Some(SampleFormat::Xyrgb));
}

#[test]
fn classify_skips_void_tag_suffix_words() {
    let mut descriptors = vec![0x0001, 0xBEEF]; // void tag with one suffix word
    descriptors.extend(descriptors_xy());

    assert_eq!(classify_format(&descriptors), Some(SampleFormat::Xy));
}

#[test]
fn parse_xyrgbi_packet() {
    // One point: x = 16383 (half right), y = -16384 (half down),
    // r=255, g=128, b=0, intensity=128 -> pre-multiplied
    let mut samples = Vec::new();
    samples.extend_from_slice(&16383i16.to_be_bytes());
    samples.extend_from_slice(&(-16384i16).to_be_bytes());
    samples.extend_from_slice(&[255, 128, 0, 128]);

    let pkt = build_packet(&descriptors_xyrgbi(), 0x02, &samples);
    let parsed = parse_frame_data(&pkt).expect("should parse");

    assert_eq!(parsed.format, SampleFormat::Xyrgbi);
    assert_eq!(parsed.points.len(), 1);
    let p = seen(&parsed, 0);

    assert!((p.x - (16383.0 / 32767.0)).abs() < 1e-4);
    assert!((p.y - (-16384.0 / 32767.0)).abs() < 1e-4);

    // Intensity pre-multiplied: 0.5 * each color channel
    let i = 128.0 / 255.0;
    assert!((p.r - (255.0 / 255.0) * i).abs() < 1e-4);
    assert!((p.g - (128.0 / 255.0) * i).abs() < 1e-4);
    assert!((p.b - 0.0).abs() < 1e-4);

    assert_eq!(parsed.sequence, 1);
    assert_eq!(parsed.channel_id, 0);
    assert_eq!(parsed.chunk_type, ChunkType::Frame);
    assert!(parsed.config_or_last_fragment);
    assert!(parsed.has_config);
    assert!(parsed.is_last_fragment);
    assert_eq!(parsed.timestamp_us_u32, 0x12345678);
    assert_eq!(parsed.duration_us, 1000);
}

#[test]
fn parse_frame_sequel_last_fragment_without_config() {
    let mut samples = Vec::new();
    samples.extend_from_slice(&0i16.to_be_bytes());
    samples.extend_from_slice(&0i16.to_be_bytes());
    samples.extend_from_slice(&[255, 0, 0, 255]);

    let pkt = build_sequel_packet(7, 5, true, &samples);
    assert!(parse_frame_data(&pkt).is_none());

    let mut parser = FrameParser::new();
    let config_pkt = build_packet_on_channel(&descriptors_xyrgbi(), 5, 0x03, &samples);
    parser
        .parse_frame_data(source_addr(), &config_pkt)
        .expect("should cache config");
    let parsed = parser
        .parse_frame_data(source_addr(), &pkt)
        .expect("should parse sequel with cached config");

    assert_eq!(parsed.sequence, 7);
    assert_eq!(parsed.channel_id, 5);
    assert_eq!(parsed.chunk_type, ChunkType::FrameSequel);
    assert!(parsed.config_or_last_fragment);
    assert!(!parsed.has_config);
    assert!(parsed.is_last_fragment);
    assert_eq!(parsed.format, SampleFormat::Xyrgbi);
    assert_eq!(parsed.points.len(), 1);
    assert_eq!(parsed.timestamp_us_u32, 0x87654321);
}

#[test]
fn parse_frame_sequel_not_last_fragment() {
    let mut samples = Vec::new();
    samples.extend_from_slice(&0i16.to_be_bytes());
    samples.extend_from_slice(&0i16.to_be_bytes());
    samples.extend_from_slice(&[0, 255, 0, 255]);

    let pkt = build_sequel_packet(8, 2, false, &samples);
    let mut parser = FrameParser::new();
    let config_pkt = build_packet_on_channel(&descriptors_xyrgbi(), 2, 0x03, &samples);
    parser
        .parse_frame_data(source_addr(), &config_pkt)
        .expect("should cache config");
    let parsed = parser
        .parse_frame_data(source_addr(), &pkt)
        .expect("should parse sequel with cached config");

    assert_eq!(parsed.chunk_type, ChunkType::FrameSequel);
    assert!(!parsed.config_or_last_fragment);
    assert!(!parsed.has_config);
    assert!(!parsed.is_last_fragment);
}

#[test]
fn frame_parser_reuses_cached_xyrgb_format() {
    let mut samples = Vec::new();
    samples.extend_from_slice(&0i16.to_be_bytes());
    samples.extend_from_slice(&0i16.to_be_bytes());
    samples.extend_from_slice(&[255, 0, 0]);

    let mut parser = FrameParser::new();
    let config_pkt = build_packet(&descriptors_xyrgb(), 0x02, &samples);
    parser
        .parse_frame_data(source_addr(), &config_pkt)
        .expect("should cache XYRGB config");

    let no_config_pkt = build_no_config_packet(9, 0, 0x02, &samples);
    let parsed = parser
        .parse_frame_data(source_addr(), &no_config_pkt)
        .expect("should parse with cached XYRGB config");

    assert_eq!(parsed.format, SampleFormat::Xyrgb);
    assert_eq!(parsed.points.len(), 1);
    assert!(!parsed.has_config);
}

#[test]
fn void_routing_config_opens_idle_channel_for_later_data() {
    let mut samples = Vec::new();
    samples.extend_from_slice(&0i16.to_be_bytes());
    samples.extend_from_slice(&0i16.to_be_bytes());
    samples.extend_from_slice(&[255, 0, 0, 255]);

    let mut parser = FrameParser::new();
    let config_pkt = build_void_config_packet(&descriptors_xyrgbi(), 4, IDNFLG_CHNCFG_ROUTING);
    assert!(parser
        .parse_frame_data(source_addr(), &config_pkt)
        .is_none());

    let data_pkt = build_no_config_packet(11, 4, 0x02, &samples);
    let parsed = parser
        .parse_frame_data(source_addr(), &data_pkt)
        .expect("void config should establish channel state");

    assert_eq!(parsed.format, SampleFormat::Xyrgbi);
    assert_eq!(parsed.points.len(), 1);
    assert!(!parsed.has_config);
}

#[test]
fn channel_close_config_clears_cached_state_after_data() {
    let mut samples = Vec::new();
    samples.extend_from_slice(&0i16.to_be_bytes());
    samples.extend_from_slice(&0i16.to_be_bytes());
    samples.extend_from_slice(&[255, 0, 0, 255]);

    let mut parser = FrameParser::new();
    let close_pkt = build_packet_on_channel_with_flags(
        &descriptors_xyrgbi(),
        6,
        0x02,
        &samples,
        IDNFLG_CHNCFG_ROUTING | IDNFLG_CHNCFG_CLOSE,
        0,
    );
    assert!(parser.parse_frame_data(source_addr(), &close_pkt).is_some());

    let data_pkt = build_no_config_packet(12, 6, 0x02, &samples);
    assert!(parser.parse_frame_data(source_addr(), &data_pkt).is_none());
}

#[test]
fn routingless_config_header_does_not_replace_cached_decoder() {
    let mut samples = Vec::new();
    samples.extend_from_slice(&0i16.to_be_bytes());
    samples.extend_from_slice(&0i16.to_be_bytes());
    samples.extend_from_slice(&[255, 0, 0, 255]);

    let mut parser = FrameParser::new();
    let initial = build_packet_on_channel(&descriptors_xyrgbi(), 7, 0x02, &samples);
    parser
        .parse_frame_data(source_addr(), &initial)
        .expect("should cache initial config");

    let bogus_descriptors = vec![0x1234u16, 0x5678u16];
    let no_routing =
        build_packet_on_channel_with_flags(&bogus_descriptors, 7, 0x02, &samples, 0, 0);
    let parsed = parser
        .parse_frame_data(source_addr(), &no_routing)
        .expect("routingless config data should use cached decoder");

    assert_eq!(parsed.format, SampleFormat::Xyrgbi);
    assert!(parsed.has_config);
}

#[test]
fn service_data_match_mismatch_discards_channel_state() {
    let mut samples = Vec::new();
    samples.extend_from_slice(&0i16.to_be_bytes());
    samples.extend_from_slice(&0i16.to_be_bytes());
    samples.extend_from_slice(&[255, 0, 0, 255]);

    let mut parser = FrameParser::new();
    let config = build_packet_on_channel_with_flags(
        &descriptors_xyrgbi(),
        8,
        0x02,
        &samples,
        IDNFLG_CHNCFG_ROUTING | 0x10,
        0,
    );
    assert!(parser.parse_frame_data(source_addr(), &config).is_none());

    let matching_config = build_packet_on_channel_with_flags(
        &descriptors_xyrgbi(),
        8,
        0x02,
        &samples,
        IDNFLG_CHNCFG_ROUTING | 0x10,
        0x10,
    );
    assert!(parser
        .parse_frame_data(source_addr(), &matching_config)
        .is_some());
}

#[test]
fn frame_parser_keeps_channel_configs_separate() {
    let mut xy_samples = Vec::new();
    xy_samples.extend_from_slice(&0i16.to_be_bytes());
    xy_samples.extend_from_slice(&0i16.to_be_bytes());

    let mut rgb_samples = xy_samples.clone();
    rgb_samples.extend_from_slice(&[0, 255, 0]);

    let mut parser = FrameParser::new();
    let xy_config = build_packet(&descriptors_xy(), 0x02, &xy_samples);
    parser
        .parse_frame_data(source_addr(), &xy_config)
        .expect("should cache channel 0 XY config");

    let channel_1_no_config = build_no_config_packet(10, 1, 0x02, &rgb_samples);
    assert!(parser
        .parse_frame_data(source_addr(), &channel_1_no_config)
        .is_none());
}

#[test]
fn parse_xyrgb_highres_packet() {
    let mut samples = Vec::new();
    samples.extend_from_slice(&0i16.to_be_bytes());
    samples.extend_from_slice(&0i16.to_be_bytes());
    samples.extend_from_slice(&65535u16.to_be_bytes());
    samples.extend_from_slice(&32768u16.to_be_bytes());
    samples.extend_from_slice(&0u16.to_be_bytes());

    let pkt = build_packet(&descriptors_xyrgb_highres(), 0x02, &samples);
    let parsed = parse_frame_data(&pkt).expect("should parse high-res packet");

    assert_eq!(parsed.format, SampleFormat::XyrgbHighRes);
    assert_eq!(parsed.points.len(), 1);
    assert!((seen(&parsed, 0).r - 1.0).abs() < 1e-4);
    assert!((seen(&parsed, 0).g - (32768.0 / 65535.0)).abs() < 1e-4);
    assert!(seen(&parsed, 0).b.abs() < 1e-4);
}

#[test]
fn parse_extended_packet_premultiplies_intensity_and_skips_user_channels() {
    let mut samples = Vec::new();
    samples.extend_from_slice(&0i16.to_be_bytes());
    samples.extend_from_slice(&0i16.to_be_bytes());
    samples.extend_from_slice(&65535u16.to_be_bytes());
    samples.extend_from_slice(&0u16.to_be_bytes());
    samples.extend_from_slice(&0u16.to_be_bytes());
    samples.extend_from_slice(&32768u16.to_be_bytes());
    for value in [1u16, 2, 3, 4] {
        samples.extend_from_slice(&value.to_be_bytes());
    }

    let pkt = build_packet(&descriptors_extended(), 0x02, &samples);
    let parsed = parse_frame_data(&pkt).expect("should parse extended packet");

    assert_eq!(parsed.format, SampleFormat::Extended);
    assert_eq!(parsed.points.len(), 1);
    assert!((seen(&parsed, 0).r - (32768.0 / 65535.0)).abs() < 1e-4);
    assert!(seen(&parsed, 0).g.abs() < 1e-4);
    assert!(seen(&parsed, 0).b.abs() < 1e-4);
}

#[test]
fn parse_xyrgb_packet() {
    // Two points; XYRGB has no intensity, so colors come through as-is.
    let mut samples = Vec::new();
    // point 0: x=0, y=0, rgb=(255,0,0)
    samples.extend_from_slice(&0i16.to_be_bytes());
    samples.extend_from_slice(&0i16.to_be_bytes());
    samples.extend_from_slice(&[255, 0, 0]);
    // point 1: x=32767, y=-32767, rgb=(0,255,0)
    samples.extend_from_slice(&32767i16.to_be_bytes());
    samples.extend_from_slice(&(-32767i16).to_be_bytes());
    samples.extend_from_slice(&[0, 255, 0]);

    let pkt = build_packet(&descriptors_xyrgb(), 0x02, &samples);
    let parsed = parse_frame_data(&pkt).expect("should parse");

    assert_eq!(parsed.format, SampleFormat::Xyrgb);
    assert_eq!(parsed.points.len(), 2);

    let p0 = seen(&parsed, 0);
    assert!((p0.r - 1.0).abs() < 1e-4);
    assert!(p0.g.abs() < 1e-4);
    assert!(p0.b.abs() < 1e-4);

    let p1 = seen(&parsed, 1);
    assert!((p1.x - 1.0).abs() < 1e-3);
    assert!((p1.y - -1.0).abs() < 1e-3);
    assert!((p1.g - 1.0).abs() < 1e-4);
}

#[test]
fn parse_xy_packet_has_no_color() {
    let mut samples = Vec::new();
    samples.extend_from_slice(&8191i16.to_be_bytes());
    samples.extend_from_slice(&8191i16.to_be_bytes());

    let pkt = build_packet(&descriptors_xy(), 0x02, &samples);
    let parsed = parse_frame_data(&pkt).expect("should parse");

    assert_eq!(parsed.format, SampleFormat::Xy);
    assert_eq!(parsed.points.len(), 1);
    assert_eq!(seen(&parsed, 0).r, 0.0);
    assert_eq!(seen(&parsed, 0).g, 0.0);
    assert_eq!(seen(&parsed, 0).b, 0.0);
}

#[test]
fn parse_unsupported_format_returns_none() {
    // Made-up 6-byte format with two bogus channels — descriptor count
    // is even (word_count = 1) but doesn't match any known signature.
    let descriptors = vec![0x1234u16, 0x5678u16];
    let mut samples = Vec::new();
    samples.extend_from_slice(&0u16.to_be_bytes());
    samples.extend_from_slice(&0u16.to_be_bytes());
    samples.extend_from_slice(&0u16.to_be_bytes());

    let pkt = build_packet(&descriptors, 0x02, &samples);
    assert!(parse_frame_data(&pkt).is_none());
}

#[test]
fn parse_void_packet_returns_none() {
    // 4-byte packet header + 8-byte channel message header (chunk type 0)
    let mut pkt = header(0);
    pkt.extend_from_slice(&8u16.to_be_bytes()); // total_size
    pkt.extend_from_slice(&0x8000u16.to_be_bytes()); // content_id with VOID chunk
    pkt.extend_from_slice(&0u32.to_be_bytes()); // timestamp

    assert!(parse_frame_data(&pkt).is_none());
}
