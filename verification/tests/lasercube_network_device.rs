use std::collections::VecDeque;

use laser_dac::backend::WriteOutcome;
use laser_dac::device::{DacType, OutputModel};
use laser_dac::error::{Error, IoErrorKind};
use laser_dac::net::{IpAddr, SocketAddr};
use laser_dac::protocols::lasercube_network::backend::{write_outcome, LaserCubeNetworkBackend};
use laser_dac::protocols::lasercube_network::command;
use laser_dac::protocols::lasercube_network::discovery::{
    describe_device, device_name, discovery_probes, format_stable_id_ip, is_alive_response,
    is_local_ip, on_receive_error, scan_goes_on, stable_id_for, DiscoverDacs, DiscoveryStep,
    LaserCubeNetworkDiscoverer, NetworkInterface, ProbeKind, ProbeSocket, ReceiveErrorStep,
    SCAN_ATTEMPTS,
};
use laser_dac::protocols::lasercube_network::error::CommunicationError;
use laser_dac::protocols::lasercube_network::profiles::{ConnectionProfile, ConnectionType};
use laser_dac::protocols::lasercube_network::protocol::{
    Point, ALIVE_PORT, CMD_ALIVE, CMD_GET_FULL_INFO, CMD_PORT,
};
use laser_dac::protocols::lasercube_network::status::LaserCubeNetworkStatus;
use laser_dac::protocols::lasercube_network::transport::handle::TransportHandle;
use laser_dac::protocols::lasercube_network::transport::worker::{PriorityEvent, TransportWorker};
use laser_dac::protocols::lasercube_network::transport::{AddressedDevice, PriorityCommand};

const LOCALHOST: IpAddr = IpAddr::V4(0x7f00_0001);
const NOW: u64 = 1_000_000_000_000;

fn socket(ip: IpAddr, port: u16) -> SocketAddr {
    SocketAddr { ip, port, flowinfo: 0, scope_id: 0 }
}

fn addressed_for(ip: IpAddr) -> AddressedDevice {
    let mut status = LaserCubeNetworkStatus::minimal(ip);
    status.buffer_free = 6000;
    status.buffer_max = 6000;
    status.point_rate_max = 30_000;
    let profile = ConnectionProfile::for_connection(ConnectionType::EthernetServer, 6000);
    AddressedDevice { source_addr: socket(ip, CMD_PORT), status, profile }
}

fn connected_backend() -> LaserCubeNetworkBackend {
    let addressed = addressed_for(LOCALHOST);
    let handle = TransportHandle::connect(&addressed, NOW);
    let mut backend = LaserCubeNetworkBackend::new(addressed, NOW);
    backend.connect(handle);
    backend
}

/// The datagrams that the thread sends for commands.
fn datagrams(commands: Vec<Option<PriorityCommand>>) -> Vec<[u8; 2]> {
    let addressed = addressed_for(LOCALHOST);
    let mut state = TransportHandle::connect(&addressed, NOW).state;
    let mut worker = TransportWorker::new(addressed, NOW);
    commands
        .into_iter()
        .flatten()
        .map(|cmd| {
            let event = PriorityEvent::Command(cmd);
            command::set_output(worker.process_priority_command(&mut state, event, NOW))
        })
        .collect()
}

#[test]
fn default_backend_reports_type_and_caps_and_is_disconnected() {
    let backend = LaserCubeNetworkBackend::default();
    assert!(matches!(backend.dac_type(), DacType::LaserCubeNetwork));
    assert_eq!(backend.caps().output_model, OutputModel::NetworkFifo);
    assert!(!backend.is_connected(NOW));
    assert!(backend.diagnostics(NOW).is_none());
}

#[test]
fn connect_disconnect_lifecycle_is_idempotent() {
    let addressed = addressed_for(LOCALHOST);
    let mut backend = LaserCubeNetworkBackend::new(addressed_for(LOCALHOST), NOW);

    assert!(!backend.is_connected(NOW));
    assert!(backend.diagnostics(NOW).is_none());

    backend.connect(TransportHandle::connect(&addressed, NOW));
    assert!(backend.is_connected(NOW));
    assert!(backend.diagnostics(NOW).is_some());

    // Second connect is a no-op and keeps the connection.
    backend.connect(TransportHandle::connect(&addressed, NOW));
    assert!(backend.is_connected(NOW));

    backend.disconnect();
    assert!(!backend.is_connected(NOW));
    assert!(backend.diagnostics(NOW).is_none());

    // Disconnect is idempotent.
    assert!(backend.disconnect().is_none());
    assert!(!backend.is_connected(NOW));
}

#[test]
fn try_write_points_requires_connection() {
    let mut backend = LaserCubeNetworkBackend::default();
    let err = backend.try_write_points(30_000, vec![Point::default()], NOW).unwrap_err();
    assert!(err.is_disconnected());
}

#[test]
fn try_write_points_written_then_backpressure() {
    let mut backend = connected_backend();

    let points = vec![Point::default(); 100];
    let cmd = backend.try_write_points(30_000, points, NOW).unwrap();
    assert_eq!(cmd.unwrap().points.len(), 100);
    assert_eq!(write_outcome(Ok(())).unwrap(), WriteOutcome::Written);

    // A single write larger than the host-queue capacity (2 * buffer_max)
    // is rejected as backpressure, deterministically and regardless of the
    // worker's drain progress.
    let flood = vec![Point::default(); 20_000];
    assert!(backend.try_write_points(30_000, flood, NOW).unwrap().is_none());
    assert_eq!(
        write_outcome(Err(CommunicationError::QueueFull)).unwrap(),
        WriteOutcome::WouldBlock
    );
}

#[test]
fn estimator_is_wired_in_both_connection_states() {
    let mut backend = LaserCubeNetworkBackend::new(addressed_for(LOCALHOST), NOW);
    assert_eq!(backend.estimated_fullness(NOW), 0);

    backend.connect(TransportHandle::connect(&addressed_for(LOCALHOST), NOW));
    backend.try_write_points(30_000, vec![Point::default(); 40], NOW).unwrap();
    assert_eq!(backend.estimated_fullness(NOW), 40);

    backend.disconnect();
    assert_eq!(backend.estimated_fullness(NOW), 0);
}

#[test]
fn set_shutter_and_stop_are_noops_when_disconnected() {
    let mut backend = LaserCubeNetworkBackend::default();
    assert!(backend.set_shutter(true).is_none());
    assert!(backend.set_shutter(false).is_none());
    assert!(backend.stop().is_none());
}

#[test]
fn set_shutter_open_emits_output_enable_command() {
    let mut backend = connected_backend();
    assert!(datagrams(vec![backend.set_shutter(true)]).contains(&[0x80, 0x01]));
}

#[test]
fn stop_emits_additional_output_disable_command() {
    let mut backend = connected_backend();
    assert_eq!(datagrams(vec![backend.stop()]), vec![[0x80, 0x00]]);
    assert_eq!(backend.transport.unwrap().generation, 1);
}

#[test]
fn write_points_reach_the_device_as_sample_packets() {
    let mut backend = connected_backend();
    let mut worker = TransportWorker::new(addressed_for(LOCALHOST), NOW);
    let mut sent: VecDeque<Vec<u8>> = VecDeque::new();
    for _ in 0..5 {
        let cmd = backend.try_write_points(30_000, vec![Point::default(); 200], NOW).unwrap();
        let handle = backend.transport.as_mut().unwrap();
        worker.process_command(&mut handle.state, cmd.unwrap(), handle.generation);
        while worker.packet_due(NOW) {
            let Some(datagram) = worker.begin_packet(&mut handle.state, NOW) else { break };
            sent.push_back(datagram);
            if !worker.packet_sent(&mut handle.state, NOW) {
                break;
            }
        }
    }
    assert!(sent.iter().any(|p| p.first() == Some(&0xA9)));
}

#[test]
fn silence_is_a_disconnect() {
    let mut backend = connected_backend();
    let later = NOW + 4_000_000_001;
    let err = backend.try_write_points(30_000, vec![Point::default()], later).unwrap_err();
    match err {
        Error::Disconnected(m) => assert_eq!(m, "LaserCube network communication timed out"),
        other => panic!("{other:?}"),
    }
    let stopped = write_outcome(Err(CommunicationError::WorkerStopped)).unwrap_err();
    assert!(matches!(stopped, Error::Backend(m) if m == "worker stopped"));
}

// --- discovery ---

/// Build a valid 64-byte full-info response advertising `model` and the
/// given raw connection-type byte.
fn full_info_packet(model: &str, connection_type: u8) -> Vec<u8> {
    let mut d = vec![0u8; 64];
    d[0] = CMD_GET_FULL_INFO; // 0x77
    d[3] = 1; // firmware major
    d[4] = 24; // firmware minor
    d[10..14].copy_from_slice(&30_000u32.to_le_bytes()); // point_rate
    d[14..18].copy_from_slice(&30_000u32.to_le_bytes()); // point_rate_max
    d[19..21].copy_from_slice(&3000u16.to_le_bytes()); // buffer_free
    d[21..23].copy_from_slice(&6000u16.to_le_bytes()); // buffer_max
    d[25] = connection_type;
    d[37] = 10; // model number
    d[38..38 + model.len()].copy_from_slice(model.as_bytes());
    d
}

#[test]
fn stable_id_uses_serial_when_available() {
    let mut status = LaserCubeNetworkStatus::minimal(IpAddr::V4(0xC0A8_0132));
    status.serial_number = "010203040506".to_string();
    assert_eq!(stable_id_for(&status), "lasercube-network:010203040506");
}

#[test]
fn stable_id_falls_back_to_ip_without_serial() {
    let mut status = LaserCubeNetworkStatus::minimal(IpAddr::V4(0xC0A8_0132));
    status.serial_number = String::new();
    assert_eq!(stable_id_for(&status), "lasercube-network:192.168.1.50");
    // An all-zero serial is not a usable identity; fall back to IP.
    status.serial_number = "000000000000".to_string();
    assert_eq!(stable_id_for(&status), "lasercube-network:192.168.1.50");
}

#[test]
fn stable_id_trims_the_serial() {
    let mut status = LaserCubeNetworkStatus::minimal(IpAddr::V4(0xC0A8_0132));
    status.serial_number = " \t12 34\u{2003}\n".to_string();
    assert_eq!(stable_id_for(&status), "lasercube-network:12 34");
    status.serial_number = "  \u{3000} ".to_string();
    assert_eq!(stable_id_for(&status), "lasercube-network:192.168.1.50");
}

#[test]
fn stable_id_ip_form_keeps_existing_prefix() {
    let ip = IpAddr::V4(0xC0A8_0132);
    assert_eq!(format_stable_id_ip(ip), "lasercube-network:192.168.1.50");
}

#[test]
fn detects_exact_alive_response() {
    assert!(is_alive_response(&[0x27, 0x00]));
    assert!(!is_alive_response(&[0x27]));
    assert!(!is_alive_response(&[0x27, 0x01]));
}

#[test]
fn device_name_prefers_model_and_disambiguates_by_ip() {
    let ip = IpAddr::V4(0x0A00_0005);
    let mut status = LaserCubeNetworkStatus::minimal(ip);
    status.model_name = "Ultra Mk2".to_string();
    assert_eq!(device_name(&status, ip), "Ultra Mk2 10.0.0.5");
    status.model_name.clear();
    assert_eq!(device_name(&status, ip), "LaserCube 10.0.0.5");
}

/// Hand datagrams from one sender to a discovery until it finds a device or runs out.
fn next_device(discovery: &mut DiscoverDacs, packets: &mut VecDeque<Vec<u8>>) -> Option<AddressedDevice> {
    while let Some(packet) = packets.pop_front() {
        if let DiscoveryStep::Found(found) = discovery.receive(socket(LOCALHOST, 5000), &packet) {
            return Some(found);
        }
    }
    None
}

#[test]
fn next_device_parses_valid_full_info_response() {
    let mut packets = VecDeque::from(vec![full_info_packet("Ultra Mk2", 1)]);
    let mut discovery = DiscoverDacs::new();
    let addressed = next_device(&mut discovery, &mut packets).unwrap();

    assert_eq!(addressed.ip(), LOCALHOST);
    assert_eq!(addressed.status.model_name, "Ultra Mk2");
    assert_eq!(addressed.status.connection_type, ConnectionType::WifiServer);
    assert_eq!(addressed.status.buffer_max, 6000);
    // Profile is derived from the advertised connection type + buffer.
    assert_eq!(addressed.profile.connection_type, ConnectionType::WifiServer);
}

#[test]
fn next_device_dedups_by_source_ip() {
    let mut packets =
        VecDeque::from(vec![full_info_packet("A", 0), full_info_packet("A", 0)]);
    let mut discovery = DiscoverDacs::new();
    assert!(next_device(&mut discovery, &mut packets).is_some());
    // Second announcement from the same IP is suppressed, so the driver
    // drains until the read timeout fires.
    assert!(next_device(&mut discovery, &mut packets).is_none());
    assert_eq!(on_receive_error(IoErrorKind::TimedOut), ReceiveErrorStep::LookAgain);
}

#[test]
fn next_device_discards_truncated_and_wrong_magic_packets() {
    // Truncated full-info (wrong length), then correct length but wrong leading
    // command byte.
    let mut wrong_magic = full_info_packet("X", 0);
    wrong_magic[0] = 0x99;
    let mut packets = VecDeque::from(vec![vec![0x77, 0x00, 0x00], wrong_magic]);
    let mut discovery = DiscoverDacs::new();
    assert!(next_device(&mut discovery, &mut packets).is_none());
    assert!(packets.is_empty());
}

#[test]
fn next_device_handles_alive_response_without_yielding_device() {
    let mut discovery = DiscoverDacs::new();
    // An alive response triggers a unicast full-info request and continues.
    let step = discovery.receive(socket(LOCALHOST, 45456), &[CMD_ALIVE, 0x00]);
    assert!(matches!(step, DiscoveryStep::RequestFullInfo));
    discovery.receive(socket(LOCALHOST, 45457), &full_info_packet("A", 0));
    let step = discovery.receive(socket(LOCALHOST, 45456), &[CMD_ALIVE, 0x00]);
    assert!(matches!(step, DiscoveryStep::Ignore));
}

#[test]
fn scan_runs_and_returns_without_devices() {
    let discoverer = LaserCubeNetworkDiscoverer::new();
    assert_eq!(discoverer.timeout, 100_000_000);
    let mut discovery = DiscoverDacs::new();
    let mut devices = Vec::new();
    for _ in 0..SCAN_ATTEMPTS {
        match next_device(&mut discovery, &mut VecDeque::new()) {
            Some(device) => devices.push(device),
            None if !scan_goes_on(IoErrorKind::TimedOut) => break,
            None => {}
        }
    }
    assert!(devices.is_empty());
}

#[test]
fn receive_errors_are_told_apart() {
    assert_eq!(on_receive_error(IoErrorKind::WouldBlock), ReceiveErrorStep::LookAgain);
    assert_eq!(on_receive_error(IoErrorKind::ConnectionReset), ReceiveErrorStep::Retry);
    assert_eq!(on_receive_error(IoErrorKind::Other), ReceiveErrorStep::Report);
    assert!(scan_goes_on(IoErrorKind::Other));
    assert!(is_local_ip(&[IpAddr::V4(1), LOCALHOST], LOCALHOST));
    assert!(!is_local_ip(&[IpAddr::V4(1)], LOCALHOST));
}

#[test]
fn probes_reach_every_subnet_twice() {
    let interfaces = [NetworkInterface { ip: 0xC0A8_0107, netmask: 0xFFFF_FF00 }];
    let probes = discovery_probes(&interfaces, 1);
    assert_eq!(probes.len(), 12);
    assert_eq!(probes[0].ip, 0xC0A8_01FF);
    assert_eq!((probes[0].socket, probes[0].port), (ProbeSocket::Main, CMD_PORT));
    assert_eq!(probes[0].datagram(), [0x77]);
    assert_eq!((probes[1].socket, probes[1].port), (ProbeSocket::Passive, ALIVE_PORT));
    assert_eq!(probes[1].datagram(), [0x27]);
    assert_eq!(probes[1].kind, ProbeKind::Alive);
    assert!(probes[4..].iter().all(|p| p.ip == 0xFFFF_FFFF));
    assert!(probes[8..].iter().all(|p| p.socket == ProbeSocket::Interface(0)));
}

#[test]
fn discovered_device_carries_its_hints() {
    let mut discovery = DiscoverDacs::new();
    let mut packets = VecDeque::from(vec![full_info_packet("Cube", 0)]);
    let addressed = next_device(&mut discovery, &mut packets).unwrap();
    let (info, caps) = describe_device(&addressed);
    assert_eq!(info.stable_id(), "lasercube-network:127.0.0.1");
    assert_eq!(info.name(), "Cube 127.0.0.1");
    assert_eq!(info.ip, Some(LOCALHOST));
    assert_eq!(info.hardware_name, Some("000000000000".to_string()));
    assert_eq!(caps.pps_max, 30_000);
    assert_eq!(LaserCubeNetworkDiscoverer::default().prefix(), "lasercube-network");
}
