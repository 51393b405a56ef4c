use std::collections::VecDeque;

use laser_dac::backend::WriteOutcome;
use laser_dac::error::{Error, IoError, IoErrorKind};
use laser_dac::net::{IpAddr, SocketAddr};
use laser_dac::protocols::idn::backend::{
    blank_chunk, check_connected, handle_worker_command, max_points_per_chunk_for, ChunkPoints,
    ConnectProbe, ConnectStep, IdleStep, IdnBackend, OfferOutcome, QueuedChunk, Worker, WorkerCommand, WorkerStep, MAX_CONSECUTIVE_ACK_MISSES,
};
use laser_dac::protocols::idn::dac::stream::{
    connect, connect_with_group, recv_acknowledge, recv_failure, recv_group, recv_parameter,
    recv_ping, PointFormat, Stream, MIN_SAMPLES_PER_FRAME,
};
use laser_dac::protocols::idn::dac::{ServerInfo, ServiceInfo, ServiceType};
use laser_dac::protocols::idn::discovery::{format_stable_id, servers_to_devices, IdnDiscoverer};
use laser_dac::protocols::idn::error::{CommunicationError, ProtocolError, ResponseError};
use laser_dac::protocols::idn::protocol::{
    ChannelConfigHeader, ChannelMessageHeader, PacketHeader, PointExtended, PointXyrgbHighRes,
    PointXyrgbi, SampleChunkHeader, IDNCMD_RT_CNLMSG, IDNFLG_CONTENTID_CHANNELMSG,
    IDNFLG_SCAN_STATUS_EXCLUDED, MAX_UDP_PAYLOAD, XYRGBI_SAMPLE_SIZE,
};
use laser_dac::protocols::idn::scan::{
    parse_scan_response, recv_service_map, service_map_error, service_map_wait, Scan, ScanRound, ServerScanner,
    ServiceMapQuery,
};
use laser_dac::receiver::config::{Relay, Service};
use laser_dac::receiver::packet_builder::{
    build_ack_response, build_parameter_response, build_ping_response, build_scan_response,
    build_servicemap_response,
};
use laser_dac::receiver::parser::{FrameParser, ReceivedPoint, SampleFormat};

fn socket(last: u32, port: u16) -> SocketAddr {
    SocketAddr { ip: IpAddr::V4(0x0A00_0000 + last), port, flowinfo: 0, scope_id: 0 }
}

fn service(service_id: u8, service_type: ServiceType, name: &str) -> ServiceInfo {
    ServiceInfo { service_id, service_type, name: name.to_string(), flags: 0, relay_number: 0 }
}

fn laser_server() -> ServerInfo {
    let mut server = ServerInfo::new([0x11; 16], "dual".to_string(), (1, 0), 0);
    server.addresses.push(socket(5, 7255));
    server.services.push(service(1, ServiceType::LaserProjector, "Left"));
    server.services.push(service(2, ServiceType::LaserProjector, "Right"));
    // A non-laser service is ignored.
    server.services.push(service(3, ServiceType::Dmx512, "DMX"));
    server
}

fn laser_stream() -> Stream {
    connect(&laser_server(), 2, 0).unwrap()
}

// -----------------------------------------------------------------------------------------
//  Worker
// -----------------------------------------------------------------------------------------

fn test_chunk(pps: u32, point_count: usize) -> QueuedChunk {
    QueuedChunk {
        pps,
        points: ChunkPoints::Xyrgbi(vec![PointXyrgbi::new(0, 0, 0, 0, 0, 0); point_count]),
    }
}

#[test]
fn handle_worker_command_stop_replaces_backlog_with_blank() {
    let mut queue = VecDeque::new();

    assert!(handle_worker_command(
        WorkerCommand::Chunk(test_chunk(30_000, 179)),
        &mut queue,
        30_000,
        PointFormat::Xyrgbi,
    ));
    assert!(handle_worker_command(
        WorkerCommand::Chunk(test_chunk(30_000, 179)),
        &mut queue,
        30_000,
        PointFormat::Xyrgbi,
    ));

    assert!(handle_worker_command(
        WorkerCommand::Stop,
        &mut queue,
        30_000,
        PointFormat::Xyrgbi,
    ));
    assert_eq!(queue.len(), 1);
    assert_eq!(queue.front().unwrap().points.len(), 10);
}

/// Run a worker on scripted commands, on a clock that stands still; probes succeed as
/// told. Returns the number of writes, and whether the worker ended with a shutdown.
fn worker_loop(commands: Vec<WorkerCommand>, ack_ok: bool) -> (usize, bool) {
    let mut worker = Worker::new(30_000, PointFormat::Xyrgbi);
    let mut commands = VecDeque::from(commands);
    let mut writes = 0;
    loop {
        while let Some(cmd) = commands.pop_front() {
            if !worker.command(cmd) {
                return (writes, true);
            }
        }
        match worker.next_step(1_000) {
            WorkerStep::Send { with_ack, .. } => {
                writes += 1;
                if !worker.send_result(with_ack, !with_ack || ack_ok) {
                    return (writes, false);
                }
            }
            WorkerStep::Wait => {
                if !worker.command(WorkerCommand::Shutdown) {
                    return (writes, true);
                }
            }
        }
    }
}

#[test]
fn worker_loop_bursts_backlog_without_realtime_delay() {
    let backlog = vec![
        WorkerCommand::Chunk(test_chunk(1_000, 179)),
        WorkerCommand::Chunk(test_chunk(1_000, 179)),
    ];
    let (count, ended) = worker_loop(backlog, true);
    assert_eq!(count, 2, "worker should drain backlog immediately to build timestamp lead");
    assert!(ended, "worker should end with the shutdown command");
}

#[test]
fn worker_disconnects_after_consecutive_ack_misses() {
    // Feed more chunks than the miss threshold to a dead device: the first send is
    // always an ACK request, and once misses start every subsequent send is probed,
    // so the worker gives up quickly.
    let backlog = (0..10).map(|_| WorkerCommand::Chunk(test_chunk(30_000, 20))).collect();
    let (writes, shut_down) = worker_loop(backlog, false);
    assert!(!shut_down, "worker should give up after consecutive ACK misses");
    assert!(
        writes >= MAX_CONSECUTIVE_ACK_MISSES as usize,
        "worker should have attempted the frames before giving up"
    );
}

#[test]
fn idle_workers_keep_the_link_first() {
    let mut worker = Worker::new(30_000, PointFormat::Xyrgbi);
    assert_eq!(worker.timed_out(true, 0), IdleStep::Keepalive);
    assert_eq!(worker.keepalive_result(false, 0), IdleStep::End);
    assert_eq!(worker.keepalive_result(true, 0), IdleStep::Probe);
    assert!(worker.probe_result(true));
    assert_eq!(worker.timed_out(false, 499_999_999), IdleStep::Rest);
    assert_eq!(worker.timed_out(false, 500_000_000), IdleStep::Probe);
}

#[test]
fn idle_workers_probe_twice_a_second() {
    let mut worker = Worker::new(30_000, PointFormat::Xyrgbi);
    assert!(worker.idle_probe_due(0));
    assert!(worker.probe_result(true));
    assert!(!worker.idle_probe_due(499_999_999));
    assert!(worker.idle_probe_due(500_000_000));
    assert!(worker.probe_result(false));
    assert!(worker.idle_probe_due(500_000_001));
}

#[test]
fn blank_chunks_and_chunk_sizes_follow_the_format() {
    assert!(matches!(
        blank_chunk(20_000, PointFormat::Extended).points,
        ChunkPoints::Extended(v) if v.len() == 10
    ));
    assert_eq!(max_points_per_chunk_for(PointFormat::Xyrgbi), 179);
    assert_eq!(max_points_per_chunk_for(PointFormat::XyrgbHighRes), 143);
    assert_eq!(max_points_per_chunk_for(PointFormat::Extended), 71);
    let server = laser_server();
    let left = service(1, ServiceType::LaserProjector, "Left");
    let mut backend = IdnBackend::new(server, left);
    assert_eq!(backend.caps.max_points_per_chunk, 179);
    backend.set_point_format(PointFormat::Extended);
    assert_eq!(backend.caps.max_points_per_chunk, 71);
    assert_eq!(backend.point_format(), PointFormat::Extended);
    assert_eq!(backend.wire_format(), PointFormat::Extended);

    // A live connection keeps its format and its chunk size.
    let chunk = backend.caps.max_points_per_chunk;
    backend.connected(7);
    assert_eq!(backend.caps.max_points_per_chunk, chunk);
    backend.set_point_format(PointFormat::Xyrgbi);
    assert_eq!(backend.point_format(), PointFormat::Xyrgbi);
    assert_eq!(backend.wire_format(), PointFormat::Extended);
    assert_eq!(backend.caps.max_points_per_chunk, chunk);
    backend.disconnected(8);
    assert_eq!(backend.wire_format(), PointFormat::Xyrgbi);
    assert_eq!(backend.caps.max_points_per_chunk, 179);
    assert_eq!(backend.estimator.last, 8);
    assert!(check_connected(true, true).is_ok());
    assert!(matches!(check_connected(false, true), Err(Error::Disconnected(m)) if m == "Not connected"));
    assert!(matches!(
        check_connected(true, false),
        Err(Error::Disconnected(m)) if m == "IDN sender thread disconnected"
    ));
}

#[test]
fn offered_chunks_are_counted_once_queued() {
    let left = service(1, ServiceType::LaserProjector, "Left");
    let mut backend = IdnBackend::new(laser_server(), left);
    let points = || ChunkPoints::Xyrgbi(vec![PointXyrgbi::new(0, 0, 0, 0, 0, 0); 60]);
    assert!(backend.try_write_points(false, true, 30_000, points()).is_err());
    assert!(matches!(
        backend.try_write_points(true, true, 30_000, points()),
        Ok(WorkerCommand::Chunk(QueuedChunk { pps: 30_000, .. }))
    ));
    assert_eq!(
        backend.write_finished(OfferOutcome::Full, 60, 30_000, 0).unwrap(),
        WriteOutcome::WouldBlock
    );
    assert_eq!(backend.estimator.estimated_fullness(0), 0);
    assert_eq!(
        backend.write_finished(OfferOutcome::Queued, 60, 30_000, 0).unwrap(),
        WriteOutcome::Written
    );
    assert_eq!(backend.estimator.estimated_fullness(1_000_000), 30);
    assert!(backend.write_finished(OfferOutcome::Closed, 1, 30_000, 0).is_err());
    backend.forget_output(5);
    assert_eq!(backend.estimator.estimated_fullness(5), 0);
}

#[test]
fn connections_are_given_up_after_three_pings() {
    let mut probe = ConnectProbe::start();
    assert!(matches!(probe.pinged(false), ConnectStep::Again));
    assert!(matches!(probe.pinged(false), ConnectStep::Again));
    assert!(matches!(
        probe.pinged(false),
        ConnectStep::Failed(Error::Disconnected(m))
            if m == "IDN server did not respond to ping at connect"
    ));
    assert!(matches!(probe.pinged(true), ConnectStep::Reachable));
}

// -----------------------------------------------------------------------------------------
//  Servers and devices
// -----------------------------------------------------------------------------------------

fn make_server(status: u8) -> ServerInfo {
    ServerInfo::new([0u8; 16], "test".to_string(), (1, 0), status)
}

#[test]
fn test_is_excluded() {
    // EXCLUDED flag set
    let server = make_server(IDNFLG_SCAN_STATUS_EXCLUDED);
    assert!(server.is_excluded());

    // No flags
    let server = make_server(0);
    assert!(!server.is_excluded());

    // All flags set (0xFF includes EXCLUDED)
    let server = make_server(0xFF);
    assert!(server.is_excluded());
}

#[test]
fn format_stable_id_uses_unit_id_hex_and_service() {
    let unit_id: [u8; 16] = [
        0x01, 0x02, 0x03, 0x04, 0x05, 0x06, 0x07, 0x08, 0x09, 0x0a, 0x0b, 0x0c, 0x0d, 0x0e, 0x0f,
        0x10,
    ];
    assert_eq!(format_stable_id(&unit_id, 1), "idn:0102030405060708090a0b0c0d0e0f10:1");
    // Same unit, different service: distinct id.
    assert_eq!(format_stable_id(&unit_id, 2), "idn:0102030405060708090a0b0c0d0e0f10:2");
}

#[test]
fn stable_id_distinguishes_identical_hostnames() {
    // Two servers with the same factory-default hostname but different
    // unit IDs must not collide.
    let a = format_stable_id(&[0xaa; 16], 1);
    let b = format_stable_id(&[0xbb; 16], 1);
    assert_ne!(a, b);
}

#[test]
fn servers_to_devices_emits_one_per_laser_service() {
    let devices = servers_to_devices(&vec![laser_server()]);
    assert_eq!(devices.len(), 2, "one device per laser-projector service");
    let ids: Vec<String> = devices.iter().map(|d| d.info.stable_id().to_string()).collect();
    assert!(ids.contains(&"idn:11111111111111111111111111111111:1".to_string()));
    assert!(ids.contains(&"idn:11111111111111111111111111111111:2".to_string()));
    assert_eq!(IdnDiscoverer::new().prefix(), "idn");
}

#[test]
fn scans_collect_servers_by_unit() {
    let mut scan = Scan::start(300);
    assert_eq!(scan.round(0), ScanRound::Poll);
    assert_eq!(scan.round(100), ScanRound::Resend);
    assert_eq!(scan.round(150), ScanRound::Poll);
    assert_eq!(scan.round(200), ScanRound::Resend);
    assert_eq!(scan.round(299), ScanRound::Poll);
    let reply = build_scan_response(0, 7, &[9; 16], "cube", 0x10, 0x01);
    assert!(scan.receive(&reply, socket(1, 7255)));
    assert!(scan.receive(&reply, socket(1, 7255)));
    assert!(scan.receive(&reply, socket(2, 7256)));
    assert!(!scan.receive(&reply[..43], socket(3, 7255)));
    assert_eq!(scan.found.servers.len(), 1);
    let server = &scan.found.servers[0];
    assert_eq!(server.hostname, "cube");
    assert_eq!(server.protocol_version, (1, 0));
    assert_eq!(server.addresses, vec![socket(1, 7255), socket(2, 7256)]);
    assert_eq!(scan.round(300), ScanRound::Over);
}

#[test]
fn scan_requests_are_numbered() {
    let mut scanner = ServerScanner::new(0x23);
    assert_eq!(scanner.scan_request(), vec![0x10, 0x03, 0, 0]);
    let (packet, seq) = scanner.service_map_request();
    assert_eq!((packet, seq), (vec![0x12, 0x03, 0, 1], 1));
    let err = parse_scan_response(&[0x10; 44]).unwrap_err();
    assert_eq!(err.kind, IoErrorKind::InvalidData);
    assert_eq!(err.message, "unexpected command: 0x10");
}

#[test]
fn service_maps_are_read_back() {
    let relays = [Relay { relay_number: 4, name: "east".to_string() }];
    let services = [Service::laser_projector(7, "main")];
    let reply = build_servicemap_response(0, 99, &services, &relays);
    assert!(recv_service_map(&reply, 98).is_none());
    let map = recv_service_map(&reply, 99).unwrap();
    assert_eq!(map.relays.len(), 1);
    assert_eq!((map.relays[0].relay_number, map.relays[0].name.as_str()), (4, "east"));
    assert_eq!(map.services[0].service_id, 7);
    assert_eq!(map.services[0].name, "main");
    assert!(matches!(map.services[0].service_type, ServiceType::LaserProjector));
}

#[test]
fn service_maps_are_asked_for_three_times() {
    let mut query = ServiceMapQuery::start();
    let silent = || service_map_wait(9, 9).unwrap_err();
    assert_eq!(service_map_wait(4, 9).unwrap(), 5);
    let blocked = service_map_error(IoError::new(IoErrorKind::WouldBlock, "blocked"));
    assert_eq!(blocked.kind, IoErrorKind::TimedOut);
    assert_eq!(blocked.message, "service map response timeout");
    let other = service_map_error(IoError::new(IoErrorKind::InvalidData, "odd"));
    assert_eq!((other.kind, other.message.as_str()), (IoErrorKind::InvalidData, "odd"));
    assert!(query.failed(silent()).is_none());
    assert!(query.failed(silent()).is_none());
    let err = query.failed(silent()).unwrap();
    assert_eq!((err.kind, err.message.as_str()), (IoErrorKind::TimedOut, "service map response timeout"));
}

// -----------------------------------------------------------------------------------------
//  PointFormat tests
// -----------------------------------------------------------------------------------------

#[test]
fn point_format_size_bytes() {
    assert_eq!(PointFormat::Xyrgbi.size_bytes(), 8);
    assert_eq!(PointFormat::XyrgbHighRes.size_bytes(), 10);
    assert_eq!(PointFormat::Extended.size_bytes(), 20);
}

#[test]
fn point_format_word_count() {
    // word_count is the number of 32-bit words (descriptor pairs)
    assert_eq!(PointFormat::Xyrgbi.word_count(), 4);
    assert_eq!(PointFormat::XyrgbHighRes.word_count(), 5);
    assert_eq!(PointFormat::Extended.word_count(), 10);
}

#[test]
fn point_format_descriptors_length() {
    assert_eq!(PointFormat::Xyrgbi.descriptors().len(), 8);
    assert_eq!(PointFormat::XyrgbHighRes.descriptors().len(), 10);
    assert_eq!(PointFormat::Extended.descriptors().len(), 20);
}

#[test]
fn point_format_descriptors_not_empty() {
    // All descriptor arrays should have non-zero values
    for format in [PointFormat::Xyrgbi, PointFormat::XyrgbHighRes, PointFormat::Extended] {
        for desc in format.descriptors() {
            assert_ne!(desc, 0);
        }
    }
}

// -----------------------------------------------------------------------------------------
//  Duration calculation tests
// -----------------------------------------------------------------------------------------

/// The timestamp after a frame of dark points, in microseconds since the one before.
fn frame_duration(points: usize, scan_speed: u32) -> u64 {
    let mut stream = laser_stream();
    stream.set_scan_speed(scan_speed);
    stream.timestamp = 1;
    stream.frame_count = 1;
    let dark = vec![PointXyrgbi::new(0, 0, 0, 0, 0, 0); points];
    stream.first_packet_sent(dark.len(), 0);
    stream.timestamp - 1
}

#[test]
fn duration_calculation() {
    // Duration formula: (points * 1_000_000) / scan_speed
    // At 30000 pps, 1000 points = 33333 microseconds
    assert_eq!(frame_duration(1000, 30000), 33333);
    let points = 1000u64;
    let scan_speed = 30000u64;
    assert_eq!((points * 1_000_000) / scan_speed, 33333);

    // At 30000 pps, 30000 points = 1 second = 1_000_000 microseconds
    assert_eq!((30000u64 * 1_000_000) / scan_speed, 1_000_000);
    assert_eq!(frame_duration(1000, 1000), 1_000_000);
}

// -----------------------------------------------------------------------------------------
//  Max points per packet calculation tests
// -----------------------------------------------------------------------------------------

fn header_with_config() -> usize {
    PacketHeader::SIZE_BYTES
        + ChannelMessageHeader::SIZE_BYTES
        + ChannelConfigHeader::SIZE_BYTES
        + PointFormat::Xyrgbi.descriptors().len() * 2
        + SampleChunkHeader::SIZE_BYTES
}

fn header_without_config() -> usize {
    PacketHeader::SIZE_BYTES + ChannelMessageHeader::SIZE_BYTES + SampleChunkHeader::SIZE_BYTES
}

#[test]
fn max_points_per_packet_with_config() {
    // Header size with config for Xyrgbi:
    // PacketHeader(4) + ChannelMessageHeader(8) + ChannelConfigHeader(4) +
    // descriptors(8 * 2 = 16) + SampleChunkHeader(4) = 36 bytes
    assert_eq!(header_with_config(), 36);

    // MAX_UDP_PAYLOAD = 1454
    // Available for samples = 1454 - 36 = 1418 bytes
    // At 8 bytes per sample = 177 points max
    let max_points = (MAX_UDP_PAYLOAD - header_with_config()) / 8;
    assert_eq!(max_points, 177);
}

#[test]
fn max_points_per_packet_without_config() {
    // Header size without config:
    // PacketHeader(4) + ChannelMessageHeader(8) + SampleChunkHeader(4) = 16 bytes
    let header_size = header_without_config();
    assert_eq!(header_size, 16);

    // At 8 bytes per sample = 179 points max
    assert_eq!((MAX_UDP_PAYLOAD - header_size) / 8, 179);
    // At 10 bytes per sample = 143 points max
    assert_eq!((MAX_UDP_PAYLOAD - header_size) / 10, 143);
    // At 20 bytes per sample = 71 points max
    assert_eq!((MAX_UDP_PAYLOAD - header_size) / 20, 71);
}

// -----------------------------------------------------------------------------------------
//  Content ID construction tests
// -----------------------------------------------------------------------------------------

#[test]
fn content_id_construction() {
    // Service ID 1 -> channel_id should be 0 (1-1 = 0, shifted by 8)
    let mut stream = laser_stream();
    stream.dac.service.service_id = 1;
    assert_eq!(stream.channel_id(), 0x0000);

    // Service ID 2 -> channel_id should be 0x0100
    stream.dac.service.service_id = 2;
    assert_eq!(stream.channel_id(), 0x0100);

    // Combined content_id with flags
    let content_id = IDNFLG_CONTENTID_CHANNELMSG | stream.channel_id();
    assert_eq!(content_id, 0x8100);
}

#[test]
fn sequence_number_wrapping() {
    let mut stream = laser_stream();
    stream.sequence = u16::MAX - 1;
    assert_eq!(stream.next_sequence(), u16::MAX - 1);
    assert_eq!(stream.next_sequence(), u16::MAX);
    assert_eq!(stream.next_sequence(), 0);
    assert_eq!(stream.next_sequence(), 1);
}

#[test]
fn service_data_match_wrapping() {
    let mut sdm: u8 = 254;

    sdm = sdm.wrapping_add(1);
    assert_eq!(sdm, 255);

    sdm = sdm.wrapping_add(1);
    assert_eq!(sdm, 0);

    // A new configuration moves the counter of a stream on, also past 255.
    let mut stream = laser_stream();
    stream.service_data_match = 255;
    stream.prepare_points(&[PointXyrgbi::new(0, 0, 0, 0, 0, 0)], 0).unwrap();
    assert_eq!(stream.service_data_match, 0);
}

#[test]
fn config_needed_on_first_frame() {
    assert!(Stream::needs_config(0, None, PointFormat::Xyrgbi));
}

#[test]
fn config_needed_on_format_change() {
    assert!(Stream::needs_config(
        42,
        Some(PointFormat::Xyrgbi),
        PointFormat::XyrgbHighRes
    ));
}

#[test]
fn config_not_needed_for_periodic_refresh_only() {
    assert!(!Stream::needs_config(42, Some(PointFormat::Xyrgbi), PointFormat::Xyrgbi));
}

#[test]
fn timestamp_truncation_to_u32() {
    // Timestamps are u64 internally but truncated to u32 for protocol
    let timestamp: u64 = 0x1_0000_ABCD; // Exceeds u32
    assert_eq!((timestamp & 0xFFFF_FFFF) as u32, 0x0000_ABCD);

    // Max u32 value should stay intact
    assert_eq!((0xFFFF_FFFFu64 & 0xFFFF_FFFF) as u32, 0xFFFF_FFFF);

    let mut stream = laser_stream();
    stream.timestamp = timestamp;
    let keepalive = stream.send_keepalive();
    assert_eq!(keepalive[8..12], [0x00, 0x00, 0xAB, 0xCD]);
}

// -----------------------------------------------------------------------------------------
//  pad_points tests
// -----------------------------------------------------------------------------------------

#[test]
fn test_pad_points_pads_to_minimum() {
    // 5 points should be padded to MIN_SAMPLES_PER_FRAME (20)
    let points: Vec<PointXyrgbi> =
        (0..5).map(|i| PointXyrgbi::new(i as i16, i as i16, 255, 0, 0, 255)).collect();
    let padded = Stream::pad_points(&points);
    assert_eq!(padded.len(), MIN_SAMPLES_PER_FRAME);
    // Original points preserved
    for i in 0..5 {
        assert_eq!(padded[i], points[i]);
    }
    // Remaining points should be copies of the last original point
    let last = points[4];
    for p in &padded[5..] {
        assert_eq!(*p, last);
    }
}

#[test]
fn test_pad_points_single_point() {
    let points = vec![PointXyrgbi::new(100, -200, 128, 64, 32, 255)];
    let padded = Stream::pad_points(&points);
    assert_eq!(padded.len(), MIN_SAMPLES_PER_FRAME);
    // All 20 should be identical copies
    for p in &padded {
        assert_eq!(*p, points[0]);
    }
}

#[test]
fn test_pad_points_nineteen() {
    // 19 points become 20, only one duplicate
    let points: Vec<PointXyrgbi> =
        (0..19).map(|i| PointXyrgbi::new(i as i16, 0, 0, 0, 0, 0)).collect();
    let padded = Stream::pad_points(&points);
    assert_eq!(padded.len(), MIN_SAMPLES_PER_FRAME);
    // First 19 preserved
    for i in 0..19 {
        assert_eq!(padded[i], points[i]);
    }
    // 20th is copy of last
    assert_eq!(padded[19], points[18]);
}

// -----------------------------------------------------------------------------------------
//  Even sample distribution tests
// -----------------------------------------------------------------------------------------

/// How many samples the first packet of a frame carries.
fn first_share(points: usize, with_config: bool) -> usize {
    let mut stream = laser_stream();
    let dark = vec![PointXyrgbi::new(0, 0, 0, 0, 0, 0); points];
    let header = if with_config {
        header_with_config()
    } else {
        stream.frame_count = 1;
        stream.previous_format = Some(PointFormat::Xyrgbi);
        header_without_config()
    };
    let packet = stream.build_first_packet(&dark, IDNCMD_RT_CNLMSG);
    (packet.bytes.len() - header) / XYRGBI_SAMPLE_SIZE
}

#[test]
fn test_even_distribution_300_points() {
    // With config headers (Xyrgbi): max_points_per_packet = 177
    // 300 points: ceil(300 / 177) = 2
    // points_to_send = 300 / 2 = 150
    let max_points_per_packet = (MAX_UDP_PAYLOAD - header_with_config()) / XYRGBI_SAMPLE_SIZE;
    assert_eq!(max_points_per_packet, 177);

    let total = 300usize;
    let num_packets = total.div_ceil(max_points_per_packet);
    let points_to_send = total / num_packets;

    assert_eq!(num_packets, 2);
    assert_eq!(points_to_send, 150);
    assert_eq!(first_share(300, true), 150);
}

#[test]
fn test_even_distribution_500_points() {
    let max_points_per_packet = (MAX_UDP_PAYLOAD - header_with_config()) / XYRGBI_SAMPLE_SIZE;

    let total = 500usize;
    let num_packets = total.div_ceil(max_points_per_packet);
    let points_to_send = total / num_packets;

    // ceil(500/177) = 3, points_to_send = 500/3 = 166
    assert_eq!(num_packets, 3);
    assert_eq!(points_to_send, 166);
    assert_eq!(first_share(500, true), 166);
}

#[test]
fn test_even_distribution_small_frame() {
    let max_points_per_packet = (MAX_UDP_PAYLOAD - header_with_config()) / XYRGBI_SAMPLE_SIZE;

    let total = 50usize;
    let num_packets = total.div_ceil(max_points_per_packet);
    let points_to_send = total / num_packets;

    // Fits in 1 packet, all 50 sent
    assert_eq!(num_packets, 1);
    assert_eq!(points_to_send, 50);
    assert_eq!(first_share(50, true), 50);
}

#[test]
fn test_even_distribution_exact_max() {
    // When points == max_points_per_packet, should fit in exactly 1 packet
    let max_points_per_packet = (MAX_UDP_PAYLOAD - header_without_config()) / XYRGBI_SAMPLE_SIZE;
    assert_eq!(max_points_per_packet, 179);

    let total = 179usize;
    let num_packets = total.div_ceil(max_points_per_packet);
    let points_to_send = total / num_packets;

    assert_eq!(num_packets, 1);
    assert_eq!(points_to_send, 179);
    assert_eq!(first_share(179, false), 179);
}

// -----------------------------------------------------------------------------------------
//  Streams
// -----------------------------------------------------------------------------------------

#[test]
fn connections_need_an_address_and_a_service() {
    let err = connect(&make_server(0), 1, 0).err().unwrap();
    assert_eq!(err.kind, IoErrorKind::NotFound);
    assert!(connect(&laser_server(), 9, 0).is_err());
    let stream = connect_with_group(&laser_server(), 1, 0x1F, 77).unwrap();
    assert_eq!(stream.client_group, 0x0F);
    assert_eq!(stream.dac().address, socket(5, 7255));
    assert_eq!(stream.connect_ns, 77);
}

/// Send a frame and receive it again.
fn loop_back<P: laser_dac::protocols::idn::protocol::Point>(
    format: PointFormat,
    points: &[P],
) -> (Vec<SampleFormat>, Vec<ReceivedPoint>) {
    let mut stream = laser_stream();
    stream.set_point_format(format);
    let packets = stream.write_frame(points, IDNCMD_RT_CNLMSG, 1_000_000).unwrap();
    let mut parser = FrameParser::new();
    let mut formats = Vec::new();
    let mut received = Vec::new();
    for packet in packets {
        assert!(packet.len() <= MAX_UDP_PAYLOAD);
        let chunk = parser.parse_frame_data(socket(1, 1), &packet).unwrap();
        formats.push(chunk.format);
        received.extend(chunk.points);
    }
    (formats, received)
}

#[test]
fn frames_are_received_as_they_were_sent() {
    let points: Vec<PointXyrgbi> =
        (0..400).map(|i| PointXyrgbi::new(i as i16, -(i as i16), 255, 128, 0, 255)).collect();
    let (formats, received) = loop_back(PointFormat::Xyrgbi, &points);
    assert_eq!(formats.len(), 3);
    assert_eq!(received.len(), 400);
    for (i, p) in received.iter().enumerate() {
        assert_eq!((p.x, p.y), (i as i16, -(i as i16)));
        assert_eq!((p.r, p.g, p.full_scale), (255 * 255, 128 * 255, 255 * 255));
    }

    let high: Vec<PointXyrgbHighRes> =
        (0..30).map(|i| PointXyrgbHighRes { x: i, y: 0, r: 65535, g: 1, b: 2 }).collect();
    let (formats, received) = loop_back(PointFormat::XyrgbHighRes, &high);
    assert_eq!(formats, vec![SampleFormat::XyrgbHighRes]);
    assert_eq!((received[29].x, received[29].r, received[29].full_scale), (29, 65535, 65535));

    let extended = [PointExtended { x: 1, y: 2, r: 3, g: 4, b: 5, i: 65535, u1: 6, u2: 7, u3: 8, u4: 9 }];
    let (formats, received) = loop_back(PointFormat::Extended, &extended);
    assert_eq!(formats, vec![SampleFormat::Extended]);
    // A frame has twenty points at least.
    assert_eq!(received.len(), 20);
}

#[test]
fn closed_channels_are_forgotten() {
    let mut stream = laser_stream();
    let mut parser = FrameParser::new();
    let point = [PointXyrgbi::new(1, 2, 3, 4, 5, 6)];
    let first = stream.write_frame(&point, IDNCMD_RT_CNLMSG, 0).unwrap();
    assert!(parser.parse_frame_data(socket(1, 1), &first[0]).is_some());
    let second = stream.write_frame(&point, IDNCMD_RT_CNLMSG, 0).unwrap();
    assert!(parser.parse_frame_data(socket(1, 1), &second[0]).is_some());
    parser.parse_frame_data(socket(1, 1), &stream.send_channel_close());
    let third = stream.write_frame(&point, IDNCMD_RT_CNLMSG, 0).unwrap();
    assert!(parser.parse_frame_data(socket(1, 1), &third[0]).is_none());
}

#[test]
fn acknowledged_frames_start_with_a_request() {
    let mut stream = laser_stream();
    let none: [PointXyrgbi; 0] = [];
    assert!(matches!(
        stream.write_frame_with_ack(&none, 0),
        Err(CommunicationError::Protocol(ProtocolError::BufferTooSmall))
    ));
    let points = vec![PointXyrgbi::new(1, 2, 3, 4, 5, 6); 300];
    let (packet, frame) = stream.write_frame_with_ack(&points, 0).unwrap();
    assert_eq!(packet.bytes[0], 0x41);
    assert_eq!((packet.points, frame.len(), packet.sequence), (150, 300, 0));
    stream.set_scan_speed(0);
    assert!(matches!(
        stream.write_frame_with_ack(&points, 0),
        Err(CommunicationError::Protocol(ProtocolError::InvalidPointFormat))
    ));
}

#[test]
fn keepalives_are_due_after_half_a_second() {
    let mut stream = laser_stream();
    assert!(!stream.needs_keepalive(0));
    assert_eq!(stream.time_since_last_send(9), None);
    stream.packet_sent(10);
    assert!(!stream.needs_keepalive(500_000_010));
    assert!(stream.needs_keepalive(500_000_011));
    assert_eq!(stream.time_since_last_send(15), Some(5));
}

#[test]
fn responses_are_checked() {
    let mut stream = laser_stream();
    let request = stream.ping();
    let answer = build_ping_response(0, request.sequence, &[]);
    assert!(recv_ping(&answer, request.sequence).is_ok());
    assert!(matches!(
        recv_ping(&answer, request.sequence + 1),
        Err(CommunicationError::Protocol(ProtocolError::SequenceMismatch { expected: 1, actual: 0 }))
    ));
    assert!(matches!(recv_ping(&answer[..3], 0), Err(CommunicationError::Protocol(_))));
    assert!(recv_acknowledge(&build_ack_response(0, 5, 0), 5).is_ok());
    assert!(matches!(
        recv_acknowledge(&build_ack_response(0, 5, 0xEC), 5),
        Err(CommunicationError::Response(ResponseError::Occupied))
    ));
    let group = [0x0D, 0, 0, 9, 4, 1, 0x12, 0x34];
    assert!(recv_group(&group, 9).is_ok());
    assert!(recv_group(&group[..7], 9).is_err());
}

#[test]
fn parameters_are_asked_of_units_and_services() {
    let mut stream = laser_stream();
    let unit = stream.get_parameter(0, 0x0102);
    assert_eq!(unit.bytes[0], 0x22);
    assert_eq!(unit.bytes[4..], [0, 0, 1, 2]);
    let service = stream.set_parameter(3, 1, 0x0A0B_0C0D);
    assert_eq!(service.bytes[0], 0x20);
    assert_eq!(service.bytes[4..], [3, 0, 0, 1, 0x0A, 0x0B, 0x0C, 0x0D]);
    let answer = build_parameter_response(0, service.sequence, 0x21, 0, 3, 1, 0x0A0B_0C0D);
    assert_eq!(recv_parameter(&answer, 3, service.sequence).unwrap().value, 0x0A0B_0C0D);
}

#[test]
fn silence_is_a_timeout() {
    let silent = recv_failure(IoError::new(IoErrorKind::WouldBlock, "nothing"));
    assert!(matches!(silent, CommunicationError::Response(ResponseError::Timeout)));
    let broken = recv_failure(IoError::new(IoErrorKind::BrokenPipe, "broken"));
    assert!(matches!(broken, CommunicationError::Io(_)));
}
