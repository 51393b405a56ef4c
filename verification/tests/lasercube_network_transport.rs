use std::collections::VecDeque;

use laser_dac::error::{IoError, IoErrorKind};
use laser_dac::net::{IpAddr, SocketAddr};
use laser_dac::protocols::lasercube_network::ack::{AckSource, BufferAck};
use laser_dac::protocols::lasercube_network::command;
use laser_dac::protocols::lasercube_network::error::CommunicationError;
use laser_dac::protocols::lasercube_network::profiles::{ConnectionProfile, ConnectionType};
use laser_dac::protocols::lasercube_network::protocol::{Point, CMD_GET_FULL_INFO, CMD_PORT, DEFAULT_POINT_RATE};
use laser_dac::protocols::lasercube_network::status::LaserCubeNetworkStatus;
use laser_dac::protocols::lasercube_network::transport::handle::{
    Handshake, HandshakeStep, TransportHandle,
};
use laser_dac::protocols::lasercube_network::transport::state::SharedTransportState;
use laser_dac::protocols::lasercube_network::transport::worker::{
    full_info_poll_period, seq_newer, sleep_step, EnqueueStep, PriorityEvent, SleepStep,
    TransportWorker,
};
use laser_dac::protocols::lasercube_network::transport::{
    startup_commands, AddressedDevice, PriorityCommand, TransportCommand, COMMAND_REPEAT_COUNT,
    COMMS_STALE_TIMEOUT, FULL_INFO_POLL_ACTIVE, FULL_INFO_POLL_INACTIVE, MAX_ACK_DRAIN_PER_LOOP,
    MAX_CONTROL_DRAIN_PER_LOOP,
};

const LOCALHOST: IpAddr = IpAddr::V4(0x7f00_0001);
const NOW: u64 = 1_000_000_000_000;
const MS: u64 = 1_000_000;

/// A worker with its sockets replaced by queues.
struct Rig {
    worker: TransportWorker,
    state: SharedTransportState,
    generation: u64,
    cmd_sent: Vec<Vec<u8>>,
    data_sent: Vec<Vec<u8>>,
    cmd_recv: VecDeque<Vec<u8>>,
    data_recv: VecDeque<Vec<u8>>,
}

impl Rig {
    fn send_repeated(&mut self, datagram: &[u8]) {
        for _ in 0..COMMAND_REPEAT_COUNT {
            self.cmd_sent.push(datagram.to_vec());
        }
    }

    fn drain_acks(&mut self, now: u64) {
        for _ in 0..MAX_ACK_DRAIN_PER_LOOP {
            let Some(packet) = self.cmd_recv.pop_front() else { break };
            if let Some(wanted) =
                self.worker.receive_command_datagram(&mut self.state, now, &packet)
            {
                self.send_repeated(&command::set_output(wanted));
            }
        }
        for _ in 0..MAX_ACK_DRAIN_PER_LOOP {
            let Some(packet) = self.data_recv.pop_front() else { break };
            self.worker.receive_data_datagram(&mut self.state, now, &packet);
        }
    }

    fn try_send_due_packet(&mut self, now: u64) {
        if !self.worker.may_send(self.generation) {
            return;
        }
        while self.worker.packet_due(now) {
            let Some(datagram) = self.worker.begin_packet(&mut self.state, now) else { break };
            self.data_sent.push(datagram);
            if !self.worker.packet_sent(&mut self.state, now) {
                break;
            }
        }
    }

    fn process_priority_commands(&mut self, commands: &mut VecDeque<PriorityCommand>) {
        for _ in 0..MAX_CONTROL_DRAIN_PER_LOOP {
            let Some(cmd) = commands.pop_front() else { break };
            let enabled = self.worker.process_priority_command(
                &mut self.state,
                PriorityEvent::Command(cmd),
                NOW,
            );
            self.send_repeated(&command::set_output(enabled));
            if !self.worker.running {
                break;
            }
        }
    }

    fn queue_points(&mut self, n: usize) {
        self.state.reserve_host_points(n).unwrap();
        for _ in 0..n {
            self.worker.queue.push_back(Point::blank());
        }
    }
}

fn addressed(status: LaserCubeNetworkStatus, profile: ConnectionProfile) -> AddressedDevice {
    AddressedDevice {
        source_addr: SocketAddr { ip: LOCALHOST, port: CMD_PORT, flowinfo: 0, scope_id: 0 },
        status,
        profile,
    }
}

fn fake_worker() -> Rig {
    let mut status = LaserCubeNetworkStatus::minimal(LOCALHOST);
    status.buffer_free = 6000;
    status.buffer_max = 6000;
    let profile = ConnectionProfile::unknown_conservative(6000);
    let state = SharedTransportState::new(&status, profile, NOW);
    let device = addressed(status, profile);
    Rig {
        worker: TransportWorker::new(device, NOW),
        state,
        generation: 0,
        cmd_sent: Vec::new(),
        data_sent: Vec::new(),
        cmd_recv: VecDeque::new(),
        data_recv: VecDeque::new(),
    }
}

#[test]
fn full_info_poll_period_uses_active_and_inactive_cadence() {
    assert_eq!(full_info_poll_period(false), FULL_INFO_POLL_INACTIVE);
    assert_eq!(full_info_poll_period(true), FULL_INFO_POLL_ACTIVE);
}

/// Build a minimal 64-byte full-info payload with the given output/interlock
/// flags and a 6000-point buffer.
fn full_info_bytes(output_enabled: bool, interlock: bool) -> Vec<u8> {
    let mut d = vec![0u8; 64];
    d[0] = CMD_GET_FULL_INFO;
    d[3] = 1; // firmware major
    d[4] = 24; // firmware minor (new flag layout)
    let mut flags = 0u8;
    if output_enabled {
        flags |= 0x01;
    }
    if interlock {
        flags |= 0x02;
    }
    d[5] = flags;
    d[19] = 0x70; // buffer_free = 6000 (0x1770 LE)
    d[20] = 0x17;
    d[21] = 0x70; // buffer_max = 6000
    d[22] = 0x17;
    d
}

#[test]
fn seq_newer_respects_wraparound() {
    assert!(seq_newer(5, 6));
    assert!(!seq_newer(6, 5));
    assert!(!seq_newer(5, 5));
    assert!(seq_newer(255, 0));
    assert!(!seq_newer(0, 255));
}

#[test]
fn seq_newer_covers_half_the_range() {
    assert!(seq_newer(10, 137));
    assert!(!seq_newer(10, 138));
    assert!(!seq_newer(200, 72));
    assert!(seq_newer(200, 71));
}

#[test]
fn fake_socket_worker_applies_data_ack() {
    let mut rig = fake_worker();
    rig.worker.packet_send_times[9] = Some(NOW - 5 * MS);
    rig.data_recv.push_back(vec![0x8A, 0x09, 0x34, 0x12]);

    rig.drain_acks(NOW);

    let diagnostics = rig.state.diagnostics(NOW);
    assert_eq!(diagnostics.last_data_ack_sequence, Some(9));
    assert_eq!(diagnostics.last_ack_free_space, Some(0x1234));
    assert_eq!(diagnostics.last_ack_rtt, Some(5 * MS));
    assert_eq!(diagnostics.acks_received, 1);
    // Slot 9 is released after its ACK.
    assert_eq!(rig.worker.packet_send_times[9], None);
}

#[test]
fn data_ack_discounts_in_flight_samples() {
    let mut rig = fake_worker();
    // A later packet (seq 20) is still outstanding with 140 samples.
    rig.worker.packet_sample_counts[20] = 140;
    let ack = BufferAck { source: AckSource::Data, packet_sequence: Some(10), free_space: 1000 };

    rig.worker.apply_ack(&mut rig.state, NOW, ack);

    let diag = rig.state.diagnostics(NOW);
    assert_eq!(diag.device_free_estimate, 1000 - 140);
    assert_eq!(diag.last_data_ack_sequence, Some(10));
}

#[test]
fn stale_data_ack_does_not_rewind_estimate() {
    let mut rig = fake_worker();
    rig.worker.apply_ack(
        &mut rig.state,
        NOW,
        BufferAck { source: AckSource::Data, packet_sequence: Some(10), free_space: 1000 },
    );
    assert_eq!(rig.state.diagnostics(NOW).device_free_estimate, 1000);

    // A reordered, older ACK must not overwrite the estimate.
    rig.worker.apply_ack(
        &mut rig.state,
        NOW,
        BufferAck { source: AckSource::Data, packet_sequence: Some(5), free_space: 5000 },
    );
    assert_eq!(rig.state.diagnostics(NOW).device_free_estimate, 1000);
    assert_eq!(rig.state.diagnostics(NOW).last_data_ack_sequence, Some(10));
}

#[test]
fn data_ack_releases_delivered_intermediate_slots() {
    let mut rig = fake_worker();
    // Packets 3, 4, 5 outstanding; ACK for 5 implies 3 and 4 delivered.
    rig.worker.packet_sample_counts[3] = 80;
    rig.worker.packet_sample_counts[4] = 80;
    rig.worker.packet_sample_counts[5] = 80;
    rig.worker.apply_ack(
        &mut rig.state,
        NOW,
        BufferAck { source: AckSource::Data, packet_sequence: Some(2), free_space: 6000 },
    );
    // Now ACK 5: intermediate 3 and 4 are released, 5 taken.
    rig.worker.apply_ack(
        &mut rig.state,
        NOW,
        BufferAck { source: AckSource::Data, packet_sequence: Some(5), free_space: 6000 },
    );
    assert_eq!(rig.worker.packet_sample_counts[3], 0);
    assert_eq!(rig.worker.packet_sample_counts[4], 0);
    assert_eq!(rig.worker.packet_sample_counts[5], 0);
}

#[test]
fn slots_are_released_across_the_wrap() {
    let mut rig = fake_worker();
    rig.worker.packet_sample_counts[255] = 70;
    rig.worker.packet_sample_counts[1] = 30;
    rig.worker.packet_sample_counts[2] = 10;
    for sequence in [254u8, 1] {
        rig.worker.apply_ack(
            &mut rig.state,
            NOW,
            BufferAck {
                source: AckSource::Data,
                packet_sequence: Some(sequence),
                free_space: 5000,
            },
        );
    }
    assert_eq!(rig.worker.in_flight_samples(), 10);
    assert_eq!(rig.state.free_estimate, 4990);
}

#[test]
fn command_ack_discounts_everything_on_the_way() {
    let mut rig = fake_worker();
    rig.worker.packet_sample_counts[1] = 100;
    rig.worker.packet_sample_counts[200] = 50;
    rig.cmd_recv.push_back(vec![0x8A, 0x00, 0xE8, 0x03]);
    rig.drain_acks(NOW);
    assert_eq!(rig.state.free_estimate, 850);
    assert_eq!(rig.state.last_data_ack_sequence, None);
    assert_eq!(rig.state.acks_received, 1);
}

#[test]
fn other_answers_are_counted() {
    let mut rig = fake_worker();
    rig.cmd_recv.push_back(vec![0x82, 0x00]);
    rig.cmd_recv.push_back(vec![0x82, 0x01]);
    rig.cmd_recv.push_back(vec![0x82]);
    rig.cmd_recv.push_back(vec![0x77, 0x00]);
    rig.data_recv.push_back(vec![0x01, 0x02, 0x03, 0x04]);
    rig.drain_acks(NOW + MS);
    assert_eq!(rig.state.command_successes, 1);
    assert_eq!(rig.state.command_failures, 1);
    assert_eq!(rig.state.acks_received, 0);
    assert_eq!(rig.state.last_comms, Some(NOW + MS));
}

#[test]
fn full_info_reconciles_lost_output_enable() {
    let mut rig = fake_worker();
    rig.worker.output_enabled = true;
    rig.cmd_recv.push_back(full_info_bytes(false, false));

    rig.drain_acks(NOW);

    assert_eq!(rig.cmd_sent, vec![vec![0x80, 0x01], vec![0x80, 0x01]]);
}

#[test]
fn full_info_does_not_resend_when_output_matches() {
    let mut rig = fake_worker();
    rig.worker.output_enabled = true;
    rig.cmd_recv.push_back(full_info_bytes(true, false));

    rig.drain_acks(NOW);

    assert!(rig.cmd_sent.is_empty());
}

#[test]
fn full_info_switches_a_stuck_output_off() {
    let mut rig = fake_worker();
    rig.cmd_recv.push_back(full_info_bytes(true, true));
    rig.drain_acks(NOW);
    assert_eq!(rig.cmd_sent, vec![vec![0x80, 0x00], vec![0x80, 0x00]]);
    assert!(rig.state.status.interlock_enabled);
}

#[test]
fn sends_full_packets_and_flushes_only_the_tail() {
    let mut rig = fake_worker();
    rig.queue_points(200);
    rig.worker.next_send_due = NOW;

    rig.try_send_due_packet(NOW);

    // 200 points below the remote cutoff -> two full 80-point packets plus a
    // 40-point tail, all in a single wake (coalescing + catch-up).
    assert_eq!(rig.data_sent.len(), 3);
    assert_eq!(rig.data_sent[0].len(), 4 + 80 * 10);
    assert_eq!(rig.data_sent[1].len(), 4 + 80 * 10);
    assert_eq!(rig.data_sent[2].len(), 4 + 40 * 10);
    assert!(rig.worker.queue.is_empty());
    assert_eq!(rig.state.diagnostics(NOW).host_queue_len, 0);
}

#[test]
fn catches_up_with_multiple_full_packets_after_oversleep() {
    let mut rig = fake_worker();
    // A large backlog (more than the remote cutoff worth of points).
    rig.queue_points(3000);
    rig.worker.next_send_due = NOW;

    rig.try_send_due_packet(NOW);

    // Fills the device up to the remote cutoff (1800) in 80-point packets,
    // then stops and paces; the remaining backlog stays queued.
    assert_eq!(rig.data_sent.len(), 22);
    assert!(rig.data_sent.iter().all(|p| p.len() == 4 + 80 * 10));
    assert!(rig.worker.next_send_due > NOW);
    assert_eq!(rig.worker.queue.len(), 3000 - 22 * 80);
}

#[test]
fn worker_paces_after_remote_buffer_reaches_cutoff() {
    let mut rig = fake_worker();
    rig.state.free_estimate = 6000
        - (rig.state.profile.remote_buffer_cutoff - rig.state.profile.max_udp_samples_per_packet);
    rig.queue_points(200);
    rig.worker.next_send_due = NOW;

    rig.try_send_due_packet(NOW);

    assert_eq!(rig.data_sent.len(), 1);
    assert!(rig.worker.next_send_due > NOW);
}

#[test]
fn failed_packet_goes_back_to_the_queue() {
    let mut rig = fake_worker();
    rig.state.reserve_host_points(100).unwrap();
    for i in 0..100u16 {
        rig.worker.queue.push_back(Point { x: i, y: 0, r: 0, g: 0, b: 0 });
    }
    assert!(rig.worker.begin_packet(&mut rig.state, NOW).is_some());
    rig.worker.packet_failed(&mut rig.state, NOW);
    let xs: Vec<u16> = rig.worker.queue.iter().map(|p| p.x).collect();
    assert_eq!(xs, (0..100).collect::<Vec<u16>>());
    assert_eq!(rig.state.send_errors, 1);
    assert_eq!(rig.state.host_queue_len, 100);
    assert_eq!(rig.worker.next_send_due, NOW + 6 * MS);
    assert_eq!(rig.worker.packet_sequence, 0);
}

#[test]
fn packets_too_large_for_the_wire_are_send_errors() {
    let mut rig = fake_worker();
    rig.state.profile.max_udp_samples_per_packet = 200;
    rig.queue_points(200);
    assert!(rig.worker.begin_packet(&mut rig.state, NOW).is_none());
    assert_eq!(rig.state.send_errors, 1);
    assert_eq!(rig.worker.queue.len(), 200);
}

#[test]
fn process_commands_updates_worker_owned_host_queue_len() {
    let mut rig = fake_worker();
    let cmd = TransportCommand {
        generation: 0,
        point_rate: DEFAULT_POINT_RATE,
        points: vec![Point::blank(); 5],
        reservation: rig.state.reserve_host_points(5).unwrap(),
    };

    let step = rig.worker.process_command(&mut rig.state, cmd, 0);

    assert_eq!(step, EnqueueStep::Queued);
    assert_eq!(rig.worker.queue.len(), 5);
    assert_eq!(rig.state.diagnostics(NOW).host_queue_len, 5);
}

#[test]
fn new_rates_are_clamped_and_kept_once_sent() {
    let mut rig = fake_worker();
    let cmd = TransportCommand {
        generation: 0,
        point_rate: 90_000,
        points: vec![Point::blank(); 5],
        reservation: rig.state.reserve_host_points(5).unwrap(),
    };
    assert_eq!(
        rig.worker.process_command(&mut rig.state, cmd, 0),
        EnqueueStep::QueuedWithRate(30_000)
    );
    rig.worker.rate_sent(&mut rig.state, 25_000);
    assert_eq!(rig.worker.current_rate, 25_000);
    assert_eq!(rig.state.point_rate, 25_000);
    assert_eq!(rig.state.status.point_rate, 25_000);
}

#[test]
fn priority_output_disable_clears_pending_points() {
    let mut rig = fake_worker();
    rig.queue_points(5);
    let mut commands =
        VecDeque::from(vec![PriorityCommand::SetOutput { enabled: false, generation: 1 }]);

    rig.process_priority_commands(&mut commands);

    assert!(rig.worker.queue.is_empty());
    assert_eq!(rig.state.diagnostics(NOW).host_queue_len, 0);
    assert_eq!(rig.cmd_sent, vec![vec![0x80, 0x00], vec![0x80, 0x00]]);
}

#[test]
fn stop_discards_what_was_handed_over_before() {
    let mut rig = fake_worker();
    let device = addressed(LaserCubeNetworkStatus::minimal(LOCALHOST), rig.state.profile);
    let mut handle = TransportHandle::connect(&device, NOW);
    let cmd = handle.enqueue(30_000, vec![Point::blank(); 7]).unwrap();
    let stop = handle.stop_output();
    assert_eq!(stop, PriorityCommand::StopOutput { generation: 1 });
    assert!(!rig.worker.may_send(handle.generation));
    // The stop has not reached the thread yet, and the points are dropped all the same.
    let step = rig.worker.process_command(&mut handle.state, cmd, handle.generation);
    assert_eq!(step, EnqueueStep::Dropped);
    assert!(rig.worker.queue.is_empty());
    assert_eq!(handle.state.host_queue_len, 0);
    let mut commands = VecDeque::from(vec![stop]);
    rig.process_priority_commands(&mut commands);
    assert!(rig.worker.may_send(handle.generation));
}

#[test]
fn shutdown_ends_the_worker() {
    let mut rig = fake_worker();
    let mut commands = VecDeque::from(vec![
        PriorityCommand::Shutdown { generation: 4 },
        PriorityCommand::SetOutput { enabled: true, generation: 4 },
    ]);
    rig.process_priority_commands(&mut commands);
    assert!(!rig.worker.running);
    assert_eq!(commands.len(), 1);
    assert_eq!(rig.worker.active_generation, 4);

    let mut lost = fake_worker();
    let enabled = lost.worker.process_priority_command(
        &mut lost.state,
        PriorityEvent::Closed { generation: 9 },
        NOW,
    );
    assert!(!enabled && !lost.worker.running);
    let mut gone = fake_worker();
    gone.queue_points(3);
    gone.worker.commands_closed(&mut gone.state);
    assert!(!gone.worker.running && gone.worker.queue.is_empty());
}

#[test]
fn worker_deadlines_follow_the_clock() {
    let mut rig = fake_worker();
    assert!(!rig.worker.poll_full_info_if_due(NOW + 249 * MS));
    assert!(rig.worker.poll_full_info_if_due(NOW + 250 * MS));
    assert_eq!(rig.worker.next_full_info_due, NOW + 500 * MS);
    assert!(!rig.worker.log_diagnostics_if_due(NOW + 1000 * MS));
    assert_eq!(rig.worker.next_diagnostic_log_due, NOW + 2000 * MS);
    rig.worker.output_enabled = true;
    assert!(rig.worker.log_diagnostics_if_due(NOW + 2000 * MS));
    assert_eq!(rig.worker.next_wake(NOW), NOW + 6 * MS);
    rig.queue_points(1);
    rig.worker.next_send_due = NOW - 1;
    assert_eq!(rig.worker.next_wake(NOW), NOW);
    rig.worker.next_send_due = NOW + 3;
    assert_eq!(rig.worker.next_wake(NOW), NOW + 3);
}

#[test]
fn sleeps_leave_the_last_half_millisecond() {
    assert_eq!(sleep_step(10, 10), SleepStep::Done);
    assert_eq!(sleep_step(0, 500_000), SleepStep::Yield);
    assert_eq!(sleep_step(0, 500_001), SleepStep::Sleep(1));
    assert_eq!(sleep_step(0, 10_000_000), SleepStep::Sleep(1_000_000));
}

// --- startup ---

#[test]
fn startup_commands_do_not_include_warmup_or_clear_ringbuffer() {
    let mut status = LaserCubeNetworkStatus::minimal(LOCALHOST);
    status.firmware_minor = 24;
    let profile = ConnectionProfile::unknown_conservative(6000);
    let commands = startup_commands(&status, profile);
    assert_eq!(commands[0], vec![0x80, 0x00]);
    assert_eq!(commands[1], vec![0x78, 0x01]);
    assert_eq!(commands[2], vec![0x82, 0x30, 0x75, 0x00, 0x00]);
    assert!(commands.iter().all(|cmd| cmd.first() != Some(&0x8D)));
    assert!(commands.iter().all(|cmd| cmd.first() != Some(&0xA9)));
}

#[test]
fn startup_rate_is_clamped_to_advertised_device_max() {
    let mut status = LaserCubeNetworkStatus::minimal(LOCALHOST);
    status.point_rate_max = 20_000;
    let profile = ConnectionProfile::unknown_conservative(6000);
    let commands = startup_commands(&status, profile);
    assert_eq!(commands[2], command::set_rate(20_000).to_vec());
}

#[test]
fn startup_sets_the_threshold_where_the_device_takes_one() {
    let mut status = LaserCubeNetworkStatus::minimal(LOCALHOST);
    let profile = ConnectionProfile::unknown_conservative(6000);
    assert_eq!(startup_commands(&status, profile).len(), 3);
    status.model_number = 10;
    let commands = startup_commands(&status, profile);
    assert_eq!(commands[3], vec![0xA0, 0x08, 0x07, 0x00, 0x00]);
    status.buffer_max = 1800;
    assert_eq!(startup_commands(&status, profile).len(), 3);
}

// --- state ---

fn state_with_host_queue(host_queue_len: usize) -> SharedTransportState {
    let mut status = LaserCubeNetworkStatus::minimal(LOCALHOST);
    status.buffer_max = 6000;
    status.buffer_free = 5000;
    let profile = ConnectionProfile::unknown_conservative(6000);
    let mut state = SharedTransportState::new(&status, profile, NOW);
    state.reserve_host_points(host_queue_len).unwrap();
    state
}

#[test]
fn estimator_includes_host_queue() {
    let state = state_with_host_queue(320);
    let now = state.last_estimate;
    assert_eq!(state.estimated_fullness(now), 1320);
}

#[test]
fn bounded_queue_rejects_over_capacity() {
    let mut state = state_with_host_queue(0);
    let capacity = state.diagnostics(NOW).host_queue_capacity;
    let _reservation = state.reserve_host_points(capacity).unwrap();
    assert!(state.reserve_host_points(1).is_err());
}

#[test]
fn diagnostics_report_comms_stale_after_timeout() {
    let mut state = state_with_host_queue(0);
    state.last_comms = Some(NOW - COMMS_STALE_TIMEOUT - MS);
    let diagnostics = state.diagnostics(NOW);
    assert!(diagnostics.communication_stale);
    assert!(diagnostics.last_comms_age >= Some(COMMS_STALE_TIMEOUT));
    assert!(!state.is_usable(NOW));
}

#[test]
fn transport_state_is_usable_while_comms_are_fresh() {
    let state = state_with_host_queue(0);
    assert!(state.is_usable(NOW));
}

#[test]
fn diagnostics_include_latest_status_snapshot() {
    let mut state = state_with_host_queue(0);
    state.status.firmware_major = 1;
    state.status.firmware_minor = 24;
    state.status.battery_percent = 255;
    state.status.temperature_c = 42;
    state.status.interlock_enabled = true;
    state.command_successes = 2;
    state.command_failures = 1;
    state.point_rate = 40_000;
    state.last_data_ack_sequence = Some(42);
    state.last_ack_free_space = Some(1234);
    state.last_ack_rtt = Some(7 * MS);
    let diagnostics = state.diagnostics(NOW);
    assert_eq!(diagnostics.status.firmware_major, 1);
    assert_eq!(diagnostics.status.firmware_minor, 24);
    assert!(diagnostics.status.is_plugged_in());
    assert_eq!(diagnostics.status.temperature_c, 42);
    assert!(diagnostics.status.interlock_enabled);
    assert_eq!(diagnostics.command_successes, 2);
    assert_eq!(diagnostics.command_failures, 1);
    assert_eq!(diagnostics.point_rate, 40_000);
    assert_eq!(diagnostics.last_data_ack_sequence, Some(42));
    assert_eq!(diagnostics.last_ack_free_space, Some(1234));
    assert_eq!(diagnostics.last_ack_rtt, Some(7 * MS));
}

#[test]
fn free_estimate_grows_with_time_up_to_the_buffer() {
    let mut state = state_with_host_queue(0);
    assert_eq!(state.decayed_free(NOW + 10 * MS), 5300);
    assert_eq!(state.decayed_free(NOW + 1000 * MS), 6000);
    state.decay_free_estimate(NOW + 20_000);
    assert_eq!(state.last_estimate, NOW);
    state.decay_free_estimate(NOW + 40_000);
    assert_eq!((state.free_estimate, state.last_estimate), (5001, NOW + 40_000));
}

#[test]
fn dropped_claims_are_given_back() {
    let mut state = state_with_host_queue(10);
    let reservation = state.reserve_host_points(30).unwrap();
    assert_eq!(state.host_queue_len, 40);
    state.release_host_points(reservation);
    assert_eq!(state.host_queue_len, 10);
}

// --- handle ---

fn device_for(ip: IpAddr) -> AddressedDevice {
    let mut status = LaserCubeNetworkStatus::minimal(ip);
    status.buffer_free = 6000;
    status.buffer_max = 6000;
    status.point_rate_max = 30_000;
    let profile = ConnectionProfile::for_connection(ConnectionType::EthernetServer, 6000);
    addressed(status, profile)
}

#[test]
fn connect_sends_startup_commands_and_is_usable() {
    let device = device_for(LOCALHOST);
    let handle = TransportHandle::connect(&device, NOW);
    assert!(handle.is_usable(NOW));
    let cmds = startup_commands(&device.status, device.profile);
    assert!(cmds.iter().any(|p| p.as_slice() == [0x80, 0x00])); // set_output(false)
    assert!(cmds.iter().any(|p| p.as_slice() == [0x78, 0x01])); // enable buffer size resp
    assert!(cmds.iter().any(|p| p.first() == Some(&0x82))); // set_rate
}

#[test]
fn set_output_emits_enable_command() {
    let mut rig = fake_worker();
    let mut handle = TransportHandle::connect(&device_for(LOCALHOST), NOW);
    let mut commands = VecDeque::from(vec![handle.set_output(true)]);
    rig.process_priority_commands(&mut commands);
    assert!(rig.cmd_sent.iter().any(|p| p.as_slice() == [0x80, 0x01]));
}

#[test]
fn enqueue_rejects_writes_beyond_host_queue_capacity() {
    let mut handle = TransportHandle::connect(&device_for(LOCALHOST), NOW);
    let err = handle.enqueue(30_000, vec![Point::blank(); 20_000]).unwrap_err();
    assert!(matches!(err, CommunicationError::QueueFull));
}

#[test]
fn data_acks_flow_back_into_diagnostics() {
    let mut rig = fake_worker();
    let mut handle = TransportHandle::connect(&device_for(LOCALHOST), NOW);
    for _ in 0..8 {
        let cmd = handle.enqueue(30_000, vec![Point::blank(); 200]).unwrap();
        rig.worker.process_command(&mut handle.state, cmd, handle.generation);
    }
    rig.state = handle.state;
    rig.try_send_due_packet(NOW);
    for packet in &rig.data_sent {
        rig.data_recv.push_back(vec![0x8A, packet[2], 0xB8, 0x0B]);
    }
    rig.drain_acks(NOW);

    let diagnostics = rig.state.diagnostics(NOW);
    assert!(diagnostics.acks_received > 0);
    assert!(diagnostics.packets_sent > 0);
    assert!(diagnostics.last_data_ack_sequence.is_some());
    assert!(diagnostics.last_ack_free_space.is_some());
}

#[test]
fn shutdown_joins_worker_and_marks_unusable() {
    let mut handle = TransportHandle::connect(&device_for(LOCALHOST), NOW);
    assert!(handle.is_usable(NOW));
    assert_eq!(handle.shutdown(), PriorityCommand::Shutdown { generation: 1 });
    assert!(!handle.is_usable(NOW));
    // Shutdown is idempotent.
    handle.shutdown();
    assert!(!handle.is_usable(NOW));
}

#[test]
fn drop_shuts_down_worker_without_hanging() {
    let mut rig = fake_worker();
    let mut handle = TransportHandle::connect(&device_for(LOCALHOST), NOW);
    let mut commands = VecDeque::from(vec![handle.shutdown()]);
    rig.process_priority_commands(&mut commands);
    assert!(!rig.worker.running);
}

#[test]
fn refused_points_are_released() {
    let mut handle = TransportHandle::connect(&device_for(LOCALHOST), NOW);
    let cmd = handle.enqueue(30_000, vec![Point::blank(); 100]).unwrap();
    assert_eq!(handle.state().host_queue_len, 100);
    assert!(matches!(handle.enqueue_failed(cmd, true), CommunicationError::QueueFull));
    assert_eq!(handle.state().host_queue_len, 0);
    let cmd = handle.enqueue(30_000, vec![Point::blank(); 100]).unwrap();
    assert!(matches!(handle.enqueue_failed(cmd, false), CommunicationError::WorkerStopped));
}

#[test]
fn handshake_gives_up_after_two_retries() {
    let silent = || IoError::new(IoErrorKind::TimedOut, "timed out");
    let mut handshake = Handshake::start();
    assert!(matches!(handshake.on_datagram(&[0x8A, 0, 0, 0]), HandshakeStep::Wait));
    assert!(matches!(handshake.on_error(silent()), HandshakeStep::Request));
    assert!(matches!(handshake.on_error(silent()), HandshakeStep::Request));
    match handshake.on_error(silent()) {
        HandshakeStep::Failed(CommunicationError::Protocol(message)) => assert_eq!(
            message,
            "LaserCube network device did not respond to full-info handshake"
        ),
        other => panic!("{other:?}"),
    }
    assert!(matches!(handshake.on_datagram(&[0x77]), HandshakeStep::Reachable));
    let broken = IoError::new(IoErrorKind::BrokenPipe, "broken");
    assert!(matches!(
        handshake.on_error(broken),
        HandshakeStep::Failed(CommunicationError::Io(_))
    ));
}
