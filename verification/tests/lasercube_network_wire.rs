use laser_dac::error::{IoError, IoErrorKind};
use laser_dac::net::IpAddr;
use laser_dac::protocols::lasercube_network::ack::{
    parse_command_ack, parse_data_ack, AckSource, BufferAck,
};
use laser_dac::protocols::lasercube_network::command::{
    clear_ringbuffer, enable_buffer_size_response, get_full_info, set_dac_buffer_threshold,
    set_output, set_rate, threshold_supported,
};
use laser_dac::protocols::lasercube_network::error::CommunicationError;
use laser_dac::protocols::lasercube_network::pacing::{packet_interval, send_budget, PacerInputs};
use laser_dac::protocols::lasercube_network::packetizer::encode_sample_packet;
use laser_dac::protocols::lasercube_network::profiles::{
    ConnectionProfile, ConnectionType, ProfileSource,
};
use laser_dac::protocols::lasercube_network::protocol::{
    Point, DEFAULT_BUFFER_CAPACITY, DEFAULT_POINT_RATE, MAX_UDP_SAMPLES_PER_PACKET,
};
use laser_dac::protocols::lasercube_network::status::LaserCubeNetworkStatus;
use laser_dac::protocols::lasercube_network::{
    capabilities_for_profile, capabilities_for_status, clamp_point_rate, default_capabilities,
    resolved_point_rate_max,
};

const LOCALHOST: IpAddr = IpAddr::V4(0x7f00_0001);

// --- ack ---

#[test]
fn parses_command_and_data_ack_semantics() {
    assert_eq!(
        parse_command_ack(&[0x8A, 0x00, 0x34, 0x12]).unwrap(),
        BufferAck { source: AckSource::Command, packet_sequence: None, free_space: 0x1234 }
    );
    assert_eq!(
        parse_data_ack(&[0x8A, 0x7F, 0x78, 0x56]).unwrap(),
        BufferAck { source: AckSource::Data, packet_sequence: Some(0x7F), free_space: 0x5678 }
    );
}

#[test]
fn rejects_nonzero_command_status() {
    assert!(parse_command_ack(&[0x8A, 0x01, 0x00, 0x00]).is_err());
}

#[test]
fn ack_errors_say_what_is_wrong() {
    let short = parse_data_ack(&[0x8A, 0x01, 0x00]).unwrap_err();
    assert_eq!(short.kind, IoErrorKind::InvalidData);
    assert_eq!(short.message, "LaserCube buffer ACK too short");
    let wrong = parse_data_ack(&[0x0B, 0x01, 0x00, 0x00]).unwrap_err();
    assert_eq!(wrong.message, "unexpected ACK command byte: 0x0B");
    let status = parse_command_ack(&[0x8A, 0x2A, 0x00, 0x00]).unwrap_err();
    assert_eq!(status.message, "command ACK status was nonzero: 42");
}

// --- command ---

#[test]
fn encodes_commands_little_endian() {
    assert_eq!(get_full_info(), [0x77]);
    assert_eq!(enable_buffer_size_response(true), [0x78, 0x01]);
    assert_eq!(set_output(false), [0x80, 0x00]);
    assert_eq!(set_rate(30_000), [0x82, 0x30, 0x75, 0x00, 0x00]);
    assert_eq!(clear_ringbuffer(), [0x8D]);
    assert_eq!(set_dac_buffer_threshold(1800), [0xA0, 0x08, 0x07, 0x00, 0x00]);
}

#[test]
fn threshold_guard_is_field_wise() {
    let mut status = LaserCubeNetworkStatus::minimal(LOCALHOST);
    assert!(!threshold_supported(&status));
    status.model_number = 10;
    assert!(threshold_supported(&status));
    status.model_number = 0;
    status.firmware_major = 2;
    assert!(threshold_supported(&status));
    status.firmware_major = 0;
    status.firmware_minor = 24;
    assert!(threshold_supported(&status));
}

// --- error ---

#[test]
fn display_matches_variant() {
    assert_eq!(CommunicationError::WorkerStopped.message(), "worker stopped");
    assert_eq!(CommunicationError::QueueFull.message(), "host queue full");
    assert_eq!(
        CommunicationError::Protocol("boom".to_string()).message(),
        "protocol error: boom"
    );
    let io_err = CommunicationError::from(IoError::new(IoErrorKind::Other, "nope"));
    assert!(io_err.message().starts_with("I/O error:"));
}

#[test]
fn from_io_error_wraps_io_variant() {
    let err = CommunicationError::from(IoError::new(IoErrorKind::BrokenPipe, "pipe"));
    assert!(matches!(err, CommunicationError::Io(_)));
    assert!(format!("{err:?}").contains("Io"));
}

// --- capabilities ---

#[test]
fn capabilities_use_advertised_point_rate_max() {
    let mut status = LaserCubeNetworkStatus::minimal(LOCALHOST);
    let profile = ConnectionProfile::unknown_conservative(DEFAULT_BUFFER_CAPACITY as usize);

    status.point_rate_max = 60_000;
    assert_eq!(capabilities_for_status(profile, &status).pps_max, 60_000);

    status.point_rate_max = 40_000;
    assert_eq!(capabilities_for_status(profile, &status).pps_max, 40_000);
}

#[test]
fn point_rate_max_falls_back_to_default_when_unknown() {
    let mut status = LaserCubeNetworkStatus::minimal(LOCALHOST);
    let profile = ConnectionProfile::unknown_conservative(DEFAULT_BUFFER_CAPACITY as usize);

    status.point_rate_max = 0;
    assert_eq!(resolved_point_rate_max(&status), DEFAULT_POINT_RATE);
    assert_eq!(capabilities_for_status(profile, &status).pps_max, DEFAULT_POINT_RATE);
}

#[test]
fn clamps_requested_point_rate_to_device_max() {
    let mut status = LaserCubeNetworkStatus::minimal(LOCALHOST);
    status.point_rate_max = 40_000;

    assert_eq!(clamp_point_rate(&status, 60_000), 40_000);
    assert_eq!(clamp_point_rate(&status, 25_000), 25_000);
    assert_eq!(clamp_point_rate(&status, 0), 1);
}

#[test]
fn default_capabilities_are_those_of_the_cautious_profile() {
    let caps = default_capabilities();
    assert_eq!(caps.pps_min, 1);
    assert_eq!(caps.pps_max, 30_000);
    assert_eq!(caps.max_points_per_chunk, 80);
    assert_eq!(caps, capabilities_for_profile(ConnectionProfile::unknown_conservative(6000)));
}

// --- pacing ---

#[test]
fn blocks_send_at_or_above_remote_cutoff_even_when_buffer_has_space() {
    let budget = send_budget(PacerInputs {
        queue_len: 140,
        free_estimate: 4000,
        buffer_total: 6000,
        remote_buffer_cutoff: 1800,
        per_tick_packet_budget: 140,
    });
    assert_eq!(budget, 0);
}

#[test]
fn limits_send_to_one_packet_budget() {
    let budget = send_budget(PacerInputs {
        queue_len: 1000,
        free_estimate: 6000,
        buffer_total: 6000,
        remote_buffer_cutoff: 1800,
        per_tick_packet_budget: 80,
    });
    assert_eq!(budget, 80);
}

#[test]
fn one_packet_cadence_sustains_30k_for_80_and_140_profiles() {
    let packet_80 = packet_interval(80, 30_000);
    let packet_140 = packet_interval(140, 30_000);
    assert!(packet_80 <= 2_667_000);
    assert!(packet_140 <= 4_667_000);
    assert!((packet_interval(80, 30_000) as f64 / 1e9 - 80.0 / 30_000.0).abs() < 1e-9);
    assert!((packet_interval(140, 30_000) as f64 / 1e9 - 140.0 / 30_000.0).abs() < 1e-9);
}

#[test]
fn packet_interval_is_rounded_to_the_nearest_nanosecond() {
    assert_eq!(packet_interval(80, 30_000), 2_666_667);
    assert_eq!(packet_interval(1, 30_000), 33_333);
    assert_eq!(packet_interval(0, 30_000), 0);
    assert_eq!(packet_interval(80, 0), 0);
}

// --- packetizer ---

#[test]
fn encodes_golden_sample_packet() {
    let points = [Point { x: 0x0102, y: 0x0304, r: 0x0506, g: 0x0708, b: 0x090A }];
    let mut out = Vec::new();
    encode_sample_packet(0x11, 0x22, &points, &mut out).unwrap();
    assert_eq!(
        out,
        vec![
            0xA9, 0x00, 0x11, 0x22, 0x02, 0x01, 0x04, 0x03, 0x06, 0x05, 0x08, 0x07, 0x0A, 0x09,
        ]
    );
}

#[test]
fn rejects_packets_above_wire_limit() {
    let points = vec![Point::blank(); MAX_UDP_SAMPLES_PER_PACKET + 1];
    let mut out = Vec::new();
    assert!(encode_sample_packet(0, 0, &points, &mut out).is_err());
}

#[test]
fn rejected_packet_leaves_the_buffer_alone() {
    let points = vec![Point::blank(); 141];
    let mut out = vec![1, 2, 3];
    let err = encode_sample_packet(0, 0, &points, &mut out).unwrap_err();
    assert_eq!(err.kind, IoErrorKind::InvalidInput);
    assert_eq!(err.message, "too many LaserCube samples for one UDP packet");
    assert_eq!(out, vec![1, 2, 3]);
}

// --- profiles ---

#[test]
fn selects_desktop_network_profiles() {
    assert_eq!(
        ConnectionProfile::for_connection(ConnectionType::EthernetServer, 6000)
            .max_udp_samples_per_packet,
        80
    );
    assert_eq!(
        ConnectionProfile::for_connection(ConnectionType::WifiServer, 6000)
            .max_udp_samples_per_packet,
        140
    );
    assert_eq!(
        ConnectionProfile::for_connection(ConnectionType::WifiClient, 6000)
            .max_udp_samples_per_packet,
        80
    );
}

#[test]
fn unknown_uses_conservative_80_sample_packets() {
    let profile = ConnectionProfile::for_connection(ConnectionType::Unknown(99), 6000);
    assert_eq!(profile.source, ProfileSource::UnknownConservative);
    assert_eq!(profile.max_udp_samples_per_packet, 80);
}

#[test]
fn full_info_connection_type_is_zero_based() {
    assert_eq!(ConnectionType::from_status_byte(0), ConnectionType::EthernetServer);
    assert_eq!(ConnectionType::from_status_byte(1), ConnectionType::WifiServer);
    assert_eq!(ConnectionType::from_status_byte(2), ConnectionType::EthernetClient);
    assert_eq!(ConnectionType::from_status_byte(3), ConnectionType::WifiClient);
    assert_eq!(ConnectionType::from_status_byte(4), ConnectionType::Unknown(4));
}

#[test]
fn cutoff_stays_within_a_small_buffer() {
    let wifi = ConnectionProfile::for_connection(ConnectionType::WifiServer, 1000);
    assert_eq!(wifi.remote_buffer_cutoff, 1000);
    assert_eq!(wifi.wait_buffer_sleep, 4_000_000);
    assert_eq!(wifi.post_send_sleep, 10_000_000);
    assert_eq!(wifi.source_chunk_samples, 600);
}

// --- status ---

fn full_info() -> [u8; 64] {
    let mut data = [0u8; 64];
    data[0] = 0x77;
    data[2] = 0;
    data[3] = 1;
    data[4] = 24;
    data[5] = 0b0011_1111;
    data[10..14].copy_from_slice(&30_000u32.to_le_bytes());
    data[14..18].copy_from_slice(&45_000u32.to_le_bytes());
    data[19..21].copy_from_slice(&5000u16.to_le_bytes());
    data[21..23].copy_from_slice(&6000u16.to_le_bytes());
    data[23] = 85;
    data[24] = 31;
    data[25] = 1;
    data[26..32].copy_from_slice(&[1, 2, 3, 4, 5, 6]);
    data[32..36].copy_from_slice(&[10, 0, 0, 9]);
    data[37] = 10;
    data[38..47].copy_from_slice(b"Ultra Mk2");
    data
}

#[test]
fn parses_full_info_and_uses_source_ip() {
    let source_ip = IpAddr::V4(0xC0A8_0705);
    let status = LaserCubeNetworkStatus::parse(&full_info(), source_ip).unwrap();
    assert_eq!(status.ip, source_ip);
    assert_eq!(status.reported_ip, Some([10, 0, 0, 9]));
    assert_eq!(status.firmware_major, 1);
    assert_eq!(status.firmware_minor, 24);
    assert_eq!(status.packet_errors, 3);
    assert_eq!(status.point_rate, 30_000);
    assert_eq!(status.point_rate_max, 45_000);
    assert_eq!(status.buffer_free, 5000);
    assert_eq!(status.buffer_max, 6000);
    assert_eq!(status.battery_percent, 85);
    assert_eq!(status.battery_level() as f32 / 100.0, 0.85);
    assert!(!status.is_plugged_in());
    assert_eq!(status.connection_type, ConnectionType::WifiServer);
    assert_eq!(status.serial_number, "010203040506");
    assert_eq!(status.model_number, 10);
    assert_eq!(status.model_name, "Ultra Mk2");
}

#[test]
fn rejects_bad_full_info_status_and_length() {
    let mut data = full_info();
    data[1] = 1;
    assert!(LaserCubeNetworkStatus::parse(&data, LOCALHOST).is_err());
    assert!(LaserCubeNetworkStatus::parse(&data[..63], LOCALHOST).is_err());
}

#[test]
fn accepts_payloads_longer_than_64_bytes() {
    let mut data = full_info().to_vec();
    data.extend_from_slice(&[0xAA, 0xBB, 0xCC, 0xDD]);
    let status = LaserCubeNetworkStatus::parse(&data, LOCALHOST).unwrap();
    assert_eq!(status.serial_number, "010203040506");
    assert_eq!(status.model_name, "Ultra Mk2");
}

#[test]
fn handles_battery_plugged_in_sentinel() {
    let mut data = full_info();
    data[23] = 255;
    let status = LaserCubeNetworkStatus::parse(&data, LOCALHOST).unwrap();
    assert!(status.is_plugged_in());
    assert_eq!(status.battery_level() as f32 / 100.0, 1.0);
}

#[test]
fn old_firmware_uses_legacy_status_bits() {
    let mut data = full_info();
    data[3] = 0;
    data[4] = 12;
    data[5] = 0b0011_1001;
    let status = LaserCubeNetworkStatus::parse(&data, LOCALHOST).unwrap();
    assert!(status.output_enabled);
    assert!(status.interlock_enabled);
    assert!(status.temperature_warning);
    assert!(status.over_temperature);
    assert_eq!(status.packet_errors, 0);
}

#[test]
fn full_info_errors_say_what_is_wrong() {
    let fault = |data: &[u8]| LaserCubeNetworkStatus::parse(data, LOCALHOST).unwrap_err().message;
    assert_eq!(fault(&full_info()[..63]), "unexpected full-info response length: 63");
    let mut command = full_info();
    command[0] = 0x7F;
    assert_eq!(fault(&command), "unexpected full-info command: 0x7F");
    let mut status = full_info();
    status[1] = 9;
    assert_eq!(fault(&status), "full-info command status was nonzero: 9");
    let mut version = full_info();
    version[2] = 200;
    assert_eq!(fault(&version), "unsupported full-info payload version: 200");
}

#[test]
fn status_reads_signed_temperature_and_broken_names() {
    let mut data = full_info();
    data[24] = 0xF6;
    data[26..32].copy_from_slice(&[0xAB, 0xCD, 0xEF, 0x01, 0x23, 0x45]);
    data[38..64].copy_from_slice(&[0x41; 26]);
    data[39] = 0xFF;
    let status = LaserCubeNetworkStatus::parse(&data, LOCALHOST).unwrap();
    assert_eq!(status.temperature_c, -10);
    assert_eq!(status.serial_number, "ABCDEF012345");
    assert_eq!(status.model_name, format!("A\u{FFFD}{}", "A".repeat(24)));
}
