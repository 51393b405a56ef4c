use laser_dac::net::{IpAddr, SocketAddr};
use laser_dac::receiver::behavior::{ReceivedChunk, ServerBehavior, SimpleBehavior};
use laser_dac::receiver::config::Service;
use laser_dac::receiver::constants::{
    IDNCMD_PING_RESPONSE, IDNCMD_RT_ACK, IDNCMD_SCAN_RESPONSE, IDNCMD_SERVICEMAP_RESPONSE,
    IDNFLG_STATUS_REALTIME, IDNVAL_STYPE_LAPRO,
};
use laser_dac::receiver::packet_builder::{
    build_ack_response, build_ping_response, build_scan_response, build_servicemap_response,
    floor_char_boundary,
};
use laser_dac::receiver::parser::{ChunkType, ParsedChunk, ReceivedPoint, SampleFormat};

/// A behavior that only implements the required methods, so the trait's
/// default method bodies are exercised as-authored.
struct MinimalBehavior {
    forwarded_points: usize,
}

impl ServerBehavior for MinimalBehavior {
    fn should_respond(&self, _command: u8) -> bool {
        true
    }
    fn get_status_byte(&self) -> u8 {
        0
    }
    fn get_ack_result_code(&self) -> u8 {
        0
    }
    // Override only the leaf callback so we can observe that the default
    // `on_chunk_received` forwards to it.
    fn on_points_received(&mut self, points: &[ReceivedPoint]) {
        self.forwarded_points += points.len();
    }
}

fn sample_chunk() -> ParsedChunk {
    ParsedChunk {
        sequence: 9,
        content_id: 0xC003,
        channel_id: 2,
        chunk_type: ChunkType::Frame,
        config_or_last_fragment: true,
        has_config: true,
        is_last_fragment: true,
        timestamp_us_u32: 1234,
        duration_us: 1000,
        format: SampleFormat::Xyrgbi,
        points: vec![
            ReceivedPoint { x: 0, y: 0, r: 255, g: 0, b: 0, full_scale: 255 },
            ReceivedPoint { x: 16384, y: -16384, r: 0, g: 255, b: 0, full_scale: 255 },
        ],
    }
}

fn addr(port: u16) -> SocketAddr {
    SocketAddr { ip: IpAddr::V4(0x7f00_0001), port, flowinfo: 0, scope_id: 0 }
}

#[test]
fn simple_behavior_defaults() {
    let mut b = SimpleBehavior;
    assert!(b.should_respond(0x10));
    assert_eq!(b.get_status_byte(), IDNFLG_STATUS_REALTIME);
    assert_eq!(b.get_ack_result_code(), 0x00);
    assert_eq!(b.get_simulated_latency(), 0);
    assert!(!b.should_force_disconnect());
    assert!(!b.is_occupied());
    assert!(!b.is_excluded());
}

#[test]
fn default_on_chunk_received_forwards_to_on_points_received() {
    let chunk = sample_chunk();
    let received = ReceivedChunk::new(addr(5000), &chunk);

    let mut b = MinimalBehavior { forwarded_points: 0 };
    b.on_chunk_received(received);
    assert_eq!(
        b.forwarded_points, 2,
        "default on_chunk_received should forward the chunk's points to on_points_received"
    );
}

#[test]
fn received_chunk_mirrors_parsed_chunk_metadata() {
    let chunk = sample_chunk();
    let received = ReceivedChunk::new(addr(5001), &chunk);

    assert_eq!(received.source_addr, addr(5001));
    assert_eq!(received.sequence, chunk.sequence);
    assert_eq!(received.content_id, chunk.content_id);
    assert_eq!(received.channel_id, chunk.channel_id);
    assert_eq!(received.chunk_type, chunk.chunk_type);
    assert_eq!(received.config_or_last_fragment, chunk.config_or_last_fragment);
    assert_eq!(received.has_config, chunk.has_config);
    assert_eq!(received.is_last_fragment, chunk.is_last_fragment);
    assert_eq!(received.timestamp_us_u32, chunk.timestamp_us_u32);
    assert_eq!(received.duration_us, chunk.duration_us);
    assert_eq!(received.format, chunk.format);
    assert_eq!(received.points.len(), chunk.points.len());
}

#[test]
fn test_build_scan_response() {
    let unit_id = [1, 2, 3, 4, 5, 6, 7, 8, 9, 10, 11, 12, 13, 14, 15, 16];
    let response = build_scan_response(0x00, 0x1234, &unit_id, "TestHost", 0x10, 0x01);

    assert_eq!(response.len(), 44);
    assert_eq!(response[0], IDNCMD_SCAN_RESPONSE);
    assert_eq!(response[1], 0x00);
    assert_eq!(response[2..4], [0x12, 0x34]);
    assert_eq!(response[4], 40);
    assert_eq!(response[5], 0x10);
    assert_eq!(response[6], 0x01);
    assert_eq!(response[8..24], unit_id);
    assert_eq!(&response[24..32], b"TestHost");
}

#[test]
fn test_build_servicemap_response() {
    let services = vec![Service::laser_projector(1, "Laser1")];
    let response = build_servicemap_response(0x00, 0x5678, &services, &[]);

    assert_eq!(response.len(), 32);
    assert_eq!(response[0], IDNCMD_SERVICEMAP_RESPONSE);
    assert_eq!(response[6], 0); // relay_count
    assert_eq!(response[7], 1); // service_count
    assert_eq!(response[8], 1); // service_id
    assert_eq!(response[9], IDNVAL_STYPE_LAPRO);
}

#[test]
fn test_build_ping_response() {
    let payload = [0x11, 0x22, 0x33, 0x44];
    let response = build_ping_response(0x01, 0xABCD, &payload);

    assert_eq!(response.len(), 8);
    assert_eq!(response[0], IDNCMD_PING_RESPONSE);
    assert_eq!(response[1], 0x01);
    assert_eq!(response[2..4], [0xAB, 0xCD]);
    assert_eq!(&response[4..8], &payload);
}

#[test]
fn build_scan_response_truncates_multibyte_hostname_safely() {
    // Each 'ä' is 2 bytes UTF-8, so 19 chars = 38 bytes.
    // The 20-byte field can hold at most 10 chars (20 bytes); the helper must
    // not split a codepoint and the field must remain valid UTF-8.
    let hostname = "\u{e4}".repeat(19);
    let unit_id = [0u8; 16];
    let response = build_scan_response(0, 0, &unit_id, &hostname, 0x10, 0);
    // hostname field is at offset 24..44
    let field = &response[24..44];
    // Up to the first NUL byte must be valid UTF-8.
    let trimmed_end = field.iter().position(|&b| b == 0).unwrap_or(field.len());
    let s = std::str::from_utf8(&field[..trimmed_end]).expect("must be valid UTF-8");
    // 'ä' is 2 bytes, so we expect 10 of them (20 bytes), not 9 with a split byte.
    assert_eq!(s.chars().count(), 10);
}

#[test]
fn names_are_cut_before_a_split_character() {
    assert_eq!(floor_char_boundary("a\u{e4}\u{20ac}", 2), 1);
    assert_eq!(floor_char_boundary("a\u{e4}\u{20ac}", 3), 3);
    assert_eq!(floor_char_boundary("a\u{e4}\u{20ac}", 5), 3);
    assert_eq!(floor_char_boundary("a\u{e4}\u{20ac}", 20), 6);
}

#[test]
fn test_build_ack_response() {
    let response = build_ack_response(0x00, 0x1111, 0x00);

    assert_eq!(response.len(), 16);
    assert_eq!(response[0], IDNCMD_RT_ACK);
    assert_eq!(response[4], 12);
    assert_eq!(response[5], 0x00);
    assert_eq!(response[11], 0xFF);
}
