use laser_dac::backend::WriteOutcome;
use laser_dac::device::{DacCapabilities, DacType, OutputModel};
use laser_dac::error::{Error, IoError, IoErrorKind};
use laser_dac::net::{IpAddr, SocketAddr};
use laser_dac::protocols::lasercube_wifi::backend::{
    backend_error, Addressed, LasercubeWifiBackend,
};
use laser_dac::protocols::lasercube_wifi::dac::buffer_estimator::BufferEstimator;
use laser_dac::protocols::lasercube_wifi::discovery::LasercubeWifiDiscoverer;
use laser_dac::protocols::lasercube_wifi::error::CommunicationError;

const MS: u64 = 1_000_000;


fn now() -> u64 {
    1_000_000_000_000
}

// --- Construction & reset ---

#[test]
fn new_estimator_has_zero_fullness() {
    let est = BufferEstimator::new(6000, 30000);
    let t = now();
    assert_eq!(est.estimated_buffer_fullness(t), 0);
    assert_eq!(est.max_points_to_add(t), 6000 - 300);
}

#[test]
fn reset_clears_state() {
    let mut est = BufferEstimator::new(6000, 30000);
    let t = now();
    est.record_send(0, 140, t);
    assert!(est.estimated_buffer_fullness(t) > 0);

    est.reset();
    assert_eq!(est.estimated_buffer_fullness(t), 0);
}

// --- Sent-track ---

#[test]
fn send_increases_fullness() {
    let mut est = BufferEstimator::new(6000, 30000);
    let t = now();
    est.record_send(0, 140, t);
    assert_eq!(est.estimated_buffer_fullness(t), 140);
}

#[test]
fn fullness_decays_over_time() {
    let mut est = BufferEstimator::new(6000, 30000);
    let t = now();
    est.record_send(0, 3000, t);
    assert_eq!(est.estimated_buffer_fullness(t), 3000);

    // After 50ms at 30000 pps: consumed = 0.05 * 30000 = 1500
    let later = t + 50 * MS;
    assert_eq!(est.estimated_buffer_fullness(later), 1500);
}

#[test]
fn fullness_never_goes_negative() {
    let mut est = BufferEstimator::new(6000, 30000);
    let t = now();
    est.record_send(0, 100, t);

    // Way in the future — should clamp to 0
    let later = t + 10_000 * MS;
    assert_eq!(est.estimated_buffer_fullness(later), 0);
}

#[test]
fn multiple_sends_accumulate() {
    let mut est = BufferEstimator::new(6000, 30000);
    let t = now();
    est.record_send(0, 140, t);
    est.record_send(1, 140, t);
    assert_eq!(est.estimated_buffer_fullness(t), 280);
}

// --- Ack-track ---

#[test]
fn ack_updates_fullness() {
    let mut est = BufferEstimator::new(6000, 30000);
    let t = now();

    // ACK says 1000 free out of 6000 => fullness = 5000
    est.record_ack(0, 1000, t);
    // Ack track: 5000, sent track: 0 => max = 5000
    assert_eq!(est.estimated_buffer_fullness(t), 5000);
}

#[test]
fn ack_track_decays_over_time() {
    let mut est = BufferEstimator::new(6000, 30000);
    let t = now();

    est.record_ack(0, 1000, t); // fullness = 5000
                                // After 100ms at 30000 pps: consumed = 3000
    let later = t + 100 * MS;
    assert_eq!(est.estimated_buffer_fullness(later), 2000);
}

// --- Dual-track (max of both) ---

#[test]
fn returns_max_of_both_tracks() {
    let mut est = BufferEstimator::new(6000, 30000);
    let t = now();

    // Sent-track: 140 points
    est.record_send(0, 140, t);

    // ACK says only 100 fullness (free_space = 5900)
    est.record_ack(42, 5900, t);

    // max(140, 100) = 140
    assert_eq!(est.estimated_buffer_fullness(t), 140);
}

#[test]
fn ack_track_can_dominate() {
    let mut est = BufferEstimator::new(6000, 30000);
    let t = now();

    // Sent-track: 100 points
    est.record_send(0, 100, t);

    // ACK says 4000 fullness (free_space = 2000) from unknown msg
    est.record_ack(99, 2000, t);

    // max(100, 4000) = 4000
    assert_eq!(est.estimated_buffer_fullness(t), 4000);
}

// --- ACK correlation ---

#[test]
fn ack_correlates_to_send_time() {
    let mut est = BufferEstimator::new(6000, 30000);
    let t0 = now();

    // Send at t0
    est.record_send(5, 140, t0);

    // ACK arrives 20ms later, reports 4000 free
    let t1 = t0 + 20 * MS;
    est.record_ack(5, 4000, t1);

    // Sent-track should now be anchored at t0 with fullness=2000
    // At t1 (20ms later): 2000 - (0.02 * 30000) = 2000 - 600 = 1400
    // Ack-track at t1: 2000 (just set, 0 elapsed)
    // max(1400, 2000) = 2000
    assert_eq!(est.estimated_buffer_fullness(t1), 2000);
}

#[test]
fn unknown_message_still_updates_ack_track() {
    let mut est = BufferEstimator::new(6000, 30000);
    let t = now();

    // ACK for an unknown message number
    est.record_ack(255, 5000, t);

    // Should still see the ack-track fullness
    assert_eq!(est.estimated_buffer_fullness(t), 1000);
}

#[test]
fn ack_only_updates_sent_track_if_newer() {
    let mut est = BufferEstimator::new(6000, 30000);
    let t0 = now();
    let t1 = t0 + 10 * MS;
    let t2 = t0 + 20 * MS;
    let t3 = t0 + 30 * MS;

    // Send msg 1 at t0, msg 2 at t1
    est.record_send(1, 140, t0);
    est.record_send(2, 140, t1);

    // ACK for msg 2 (newer) at t2
    est.record_ack(2, 5000, t2);
    // Sent-track anchored at t1 with fullness 1000

    // ACK for msg 1 (older) at t3 — should NOT update sent-track
    est.record_ack(1, 5500, t3);

    // Sent-track still anchored at t1 (from msg 2)
    // At t3 (20ms after t1): 1000 - (0.02 * 30000) = 1000 - 600 = 400
    let sent_est = est.estimate_fullness_by_time_sent(t3);
    assert_eq!(sent_est, 400);
}

// --- Stale cleanup ---

#[test]
fn stale_entries_removed() {
    let mut est = BufferEstimator::new(6000, 30000);
    let t0 = now();

    est.record_send(1, 140, t0);
    est.record_send(2, 140, t0);

    // 11 seconds later, entries should be stale
    let t1 = t0 + 11_000 * MS;
    est.record_ack(99, 6000, t1); // triggers cleanup

    assert!(est.message_times.is_empty());
}

#[test]
fn recent_entries_kept() {
    let mut est = BufferEstimator::new(6000, 30000);
    let t0 = now();

    est.record_send(1, 140, t0);

    // Only 1 second later — not stale
    let t1 = t0 + 1_000 * MS;
    est.record_send(2, 140, t1);
    est.record_ack(99, 6000, t1); // triggers cleanup

    // msg 1 (1s old) and msg 2 (0s old) should both be kept
    assert_eq!(est.message_times.len(), 2);
}

// --- Send decisions ---

#[test]
fn can_send_when_empty() {
    let est = BufferEstimator::new(6000, 30000);
    assert!(est.can_send(now()));
}

#[test]
fn cannot_send_when_full() {
    let mut est = BufferEstimator::new(6000, 30000);
    let t = now();

    // Fill buffer to capacity minus safety margin minus one less than min sendable
    // capacity=6000, safety=300, so available = 6000 - fullness - 300
    // We need available < 140, so fullness > 6000 - 300 - 140 = 5560
    est.record_send(0, 5561, t);
    assert!(!est.can_send(t));
}

#[test]
fn can_send_after_drain() {
    let mut est = BufferEstimator::new(6000, 30000);
    let t = now();

    est.record_send(0, 5561, t);
    assert!(!est.can_send(t));

    // After enough time, buffer drains and we can send again
    // Need fullness <= 5560 => consumed >= 1 => elapsed >= 1/30000 ~= 0.033ms
    // But actually need fullness to drop enough: 5561 - consumed <= 5560
    // After 100ms: consumed = 3000, fullness = 2561
    let later = t + 100 * MS;
    assert!(est.can_send(later));
}

// --- Edge cases ---

#[test]
fn zero_rate_no_decay() {
    let mut est = BufferEstimator::new(6000, 0);
    let t = now();

    est.record_send(0, 500, t);
    let later = t + 5_000 * MS;
    // With zero rate, nothing is consumed
    assert_eq!(est.estimated_buffer_fullness(later), 500);
}

#[test]
fn zero_rate_no_panic() {
    let mut est = BufferEstimator::new(6000, 0);
    let t = now();
    est.record_send(0, 100, t);
    est.record_ack(0, 5900, t);
    let _ = est.can_send(t);
    let _ = est.max_points_to_add(t);
    let _ = est.estimated_buffer_fullness(t);
}

#[test]
fn wrapping_message_numbers() {
    let mut est = BufferEstimator::new(6000, 30000);
    let t = now();

    // Use message number near wrap boundary
    est.record_send(254, 140, t);
    est.record_send(255, 140, t);
    est.record_send(0, 140, t); // wrapped

    // ACK for 255
    let t1 = t + 5 * MS;
    est.record_ack(255, 5500, t1);

    // msg 255 should be removed, 254 and 0 still present
    assert!(!est.message_times.contains_key(&255));
    assert!(est.message_times.contains_key(&254));
    assert!(est.message_times.contains_key(&0));
}

#[test]
fn set_point_rate_changes_decay() {
    let mut est = BufferEstimator::new(6000, 30000);
    let t = now();
    est.record_send(0, 3000, t);

    // At 30000 pps, after 50ms: consumed = 1500, fullness = 1500
    let later = t + 50 * MS;
    assert_eq!(est.estimated_buffer_fullness(later), 1500);

    // Change to 60000 pps — future estimates use new rate
    est.set_point_rate(60000);
    // At 60000 pps, after 50ms from t: consumed = 3000, fullness = 0
    assert_eq!(est.estimated_buffer_fullness(later), 0);
}

// --- Admission ---

fn wifi_backend(max_buffer_space: u16) -> LasercubeWifiBackend {
    let ip = IpAddr::V4(0xC0A8_0132);
    let source_addr = SocketAddr { ip, port: 45456, flowinfo: 0, scope_id: 0 };
    let caps = DacCapabilities {
        pps_min: 1,
        pps_max: 30_000,
        max_points_per_chunk: max_buffer_space as usize,
        output_model: OutputModel::NetworkFifo,
    };
    LasercubeWifiBackend::new(Addressed { source_addr, max_buffer_space }, caps)
}

#[test]
fn wifi_packets_and_acks_count() {
    let mut backend = wifi_backend(1000);
    assert!(matches!(backend.dac_type(), DacType::LasercubeWifi));
    assert_eq!(backend.caps().max_points_per_chunk, 1000);
    backend.packet_sent(0, 100, now());
    assert!(!backend.is_connected());
    backend.connect(30_000);
    assert_eq!(backend.queued_points(now()), Some(0));
    assert_eq!(backend.try_write_chunk(30_000, 700, now()).unwrap(), WriteOutcome::Written);
    backend.packet_sent(0, 140, now());
    backend.packet_sent(1, 560, now());
    assert_eq!(backend.queued_points(now()), Some(700));
    assert_eq!(backend.try_write_chunk(30_000, 1, now()).unwrap(), WriteOutcome::WouldBlock);
    backend.ack_received(1, 400, now());
    assert_eq!(backend.queued_points(now()), Some(600));
    backend.disconnect();
    assert!(!backend.is_connected());
}

#[test]
fn entries_are_stale_after_ten_seconds() {
    let mut est = BufferEstimator::new(6000, 30000);
    est.record_send(1, 140, now());
    est.record_ack(99, 6000, now() + 10_000 * MS);
    assert_eq!(est.message_times.len(), 1);
    est.record_ack(99, 6000, now() + 10_000 * MS + 1);
    assert!(est.message_times.is_empty());
}

#[test]
fn writes_need_a_connection_and_room() {
    let mut backend = wifi_backend(1000);
    let err = backend.try_write_chunk(30_000, 10, now()).unwrap_err();
    assert!(matches!(err, Error::Disconnected(m) if m == "Not connected"));
    assert_eq!(backend.queued_points(now()), None);
    assert!(!backend.is_connected());

    let mut est = BufferEstimator::new(1000, 30000);
    est.record_send(0, 400, now());
    backend.estimator = Some(est);
    assert_eq!(backend.queued_points(now()), Some(400));
    assert_eq!(backend.try_write_chunk(30_000, 300, now()).unwrap(), WriteOutcome::Written);
    assert_eq!(backend.try_write_chunk(30_000, 301, now()).unwrap(), WriteOutcome::WouldBlock);
}

#[test]
fn the_new_rate_counts_for_admission() {
    let mut est = BufferEstimator::new(1000, 30000);
    est.record_send(0, 700, now());
    let mut backend = wifi_backend(1000);
    backend.estimator = Some(est);
    let later = now() + 20 * MS;
    assert_eq!(backend.try_write_chunk(10_000, 201, later).unwrap(), WriteOutcome::WouldBlock);
    assert_eq!(backend.try_write_chunk(10_000, 200, later).unwrap(), WriteOutcome::Written);
}

#[test]
fn estimate_is_not_below_what_was_reported() {
    let mut est = BufferEstimator::new(6000, 30000);
    let t = now();
    est.record_send(3, 140, t);
    est.record_ack(3, 500, t + MS);
    assert_eq!(est.estimated_buffer_fullness(t + MS), 5500);
    assert_eq!(est.max_points_to_add(t + MS), 200);
    assert_eq!(est.estimate_fullness_by_time_acked(t + 2 * MS), 5470);
}

// --- Discovery and errors ---

#[test]
fn lasercube_wifi_stable_id_uses_ip() {
    let info = LasercubeWifiDiscoverer::new().describe_device(IpAddr::V4(0xC0A8_0132));
    assert_eq!(info.stable_id(), "lasercube-wifi:192.168.1.50");
    assert_eq!(info.name(), "192.168.1.50");
    assert_eq!(info.ip, Some(IpAddr::V4(0xC0A8_0132)));
}

#[test]
fn wifi_scan_ends_on_a_timeout_only() {
    assert!(!LasercubeWifiDiscoverer::scan_goes_on(IoErrorKind::TimedOut));
    assert!(!LasercubeWifiDiscoverer::scan_goes_on(IoErrorKind::WouldBlock));
    assert!(LasercubeWifiDiscoverer::scan_goes_on(IoErrorKind::InvalidData));
    assert_eq!(LasercubeWifiDiscoverer::default().timeout, 100 * MS);
}

#[test]
fn wifi_errors_say_what_is_wrong() {
    let io = CommunicationError::from(IoError::new(IoErrorKind::Other, "net down"));
    assert_eq!(io.message(), "I/O error: net down");
    let err = backend_error(&CommunicationError::NotInitialized);
    assert!(matches!(err, Error::Backend(m) if m == "connection not initialized"));
}
