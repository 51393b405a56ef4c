use std::collections::VecDeque;

use laser_dac::device::{DacCapabilities, DacType, OutputModel};
use laser_dac::discovery::DiscoveredDeviceInfo;
use laser_dac::error::Error;
use laser_dac::reconnect::{
    is_flapping, AttemptOutcome, AttemptStep, BackoffStep, Reconnect, ReconnectPolicy,
    ReconnectTarget, RetryStep,
};
use laser_dac::scheduler::{advance_scheduled_ahead, conservative_buffered_points};
use laser_dac::session::{fill_from, greet, ProducerResult, ReconnectingSession, SessionControl, SessionState, SessionStep};
use laser_dac::stream::control::{ControlFlags, ControlMsg, StreamControl};
use laser_dac::types::{LaserPoint, RunExit, StreamConfig};

const MOCK_ID: &str = "reconmock:1";
const MS: u64 = 1_000_000;
const NOW: u64 = 100_000 * MS;

#[test]
fn is_retriable_true_for_transient_errors() {
    assert!(ReconnectPolicy::is_retriable(&Error::disconnected("gone")));
    assert!(ReconnectPolicy::is_retriable(&Error::backend("usb timeout")));
}

#[test]
fn is_retriable_false_for_config_and_stop() {
    assert!(!ReconnectPolicy::is_retriable(&Error::invalid_config("bad pps")));
    assert!(!ReconnectPolicy::is_retriable(&Error::Stopped));
}

/// Back off on a simulated clock; the parts are slept, and the stop flag is read before
/// each and at the end.
fn sleep_with_stop(clock: &mut u64, duration: u64, mut stopped: impl FnMut() -> bool) -> (bool, u32) {
    let deadline = *clock + duration;
    let mut ticks = 0;
    loop {
        match ReconnectPolicy::sleep_with_stop(*clock, deadline, stopped()) {
            BackoffStep::Stopped => return (true, ticks),
            BackoffStep::Sleep(ns) => {
                *clock += ns;
                ticks += 1;
            }
            BackoffStep::Over => return (stopped(), ticks),
        }
    }
}

#[test]
fn sleep_with_stop_completes_and_ticks_progress() {
    let mut clock = NOW;
    let (stopped, ticks) = sleep_with_stop(&mut clock, 10 * MS, || false);

    assert!(!stopped, "not stopped when the stop closure stays false");
    assert!(ticks >= 1, "progress callback should tick at least once");
    assert!(clock - NOW >= 10 * MS);
}

#[test]
fn sleep_with_stop_returns_early_when_stopped() {
    let mut clock = NOW;
    let (stopped, _) = sleep_with_stop(&mut clock, 10_000 * MS, || true);
    assert!(stopped);
    assert!(clock - NOW < 500 * MS, "should not actually sleep the full duration");
}

#[test]
fn backoff_is_slept_in_slices() {
    let mut clock = NOW;
    let (stopped, ticks) = sleep_with_stop(&mut clock, 120 * MS, || false);
    assert!(!stopped);
    assert_eq!((ticks, clock), (3, NOW + 120 * MS));
}

/// Run one reconnect cycle. The device is opened and connected by `attempt`.
fn reconnect(
    policy: ReconnectPolicy,
    last_reconnect: Option<u64>,
    mut stopped: impl FnMut() -> bool,
    mut attempt: impl FnMut() -> AttemptOutcome,
) -> Result<(), RunExit> {
    let mut clock = NOW;
    let mut cycle = Reconnect::start(policy, last_reconnect, clock);
    loop {
        let step = match cycle.next_attempt(stopped()) {
            AttemptStep::Backoff(ns) => {
                let (stop, _) = sleep_with_stop(&mut clock, ns, &mut stopped);
                cycle.backed_off(stop)
            }
            step => step,
        };
        if let AttemptStep::Exit(exit) = step {
            return Err(exit);
        }
        match cycle.attempted(attempt()) {
            RetryStep::Again => {}
            RetryStep::Exit(exit) => return Err(exit),
            RetryStep::Reconnected => return Ok(()),
        }
    }
}

fn policy(max_retries: Option<u32>, backoff: u64) -> ReconnectPolicy {
    ReconnectPolicy::new(max_retries, backoff)
}

fn mock_device() -> DiscoveredDeviceInfo {
    DiscoveredDeviceInfo::new(
        DacType::Custom("ReconMock".into()),
        MOCK_ID.to_string(),
        "Recon Mock Device".to_string(),
    )
}

#[test]
fn retry_succeeds_and_fires_on_disconnect() {
    let target = ReconnectTarget { device_id: MOCK_ID.to_string() };
    let caps = DacCapabilities {
        pps_min: 1000,
        pps_max: 100_000,
        max_points_per_chunk: 1000,
        output_model: OutputModel::NetworkFifo,
    };
    let mut connect_count = 0;
    let mut opened = None;
    let result = reconnect(policy(None, MS), None, || false, || {
        let discovered = [mock_device()];
        let found = &discovered[target.open_device(&discovered).unwrap()];
        opened = Some(target.opened_info(found, caps));
        connect_count += 1;
        AttemptOutcome::Connected
    });
    assert!(result.is_ok());
    let info = opened.unwrap();
    assert_eq!(info.id, MOCK_ID);
    assert_eq!(info.name, "Recon Mock Device");
    assert_eq!(info.caps, caps);
    assert_eq!(connect_count, 1);
}

#[test]
fn retry_exhausts_max_retries_to_disconnected() {
    // No device matches, so that opening fails (retriable).
    let target = ReconnectTarget { device_id: MOCK_ID.to_string() };
    let mut opens = 0;
    let result = reconnect(policy(Some(2), MS), None, || false, || {
        opens += 1;
        AttemptOutcome::OpenFailed(target.open_device(&[]).unwrap_err())
    });
    assert_eq!(result.err(), Some(RunExit::Disconnected));
    assert_eq!(opens, 2);
}

#[test]
fn retry_stops_during_backoff() {
    // The first attempt is normally immediate, so drive the backoff via the
    // flapping path: a recent `last_reconnect` forces a backoff *before* the
    // first attempt. The stop flag is false on the first (top-of-loop) check and
    // true afterwards, i.e. inside the backoff sleep, so we must bail with
    // Stopped before opening.
    let mut calls = 0;
    let mut connect_count = 0;
    let result = reconnect(
        policy(None, 20 * MS),
        Some(NOW),
        || {
            calls += 1;
            calls > 1
        },
        || {
            connect_count += 1;
            AttemptOutcome::Connected
        },
    );
    assert_eq!(result.err(), Some(RunExit::Stopped));
    assert_eq!(connect_count, 0, "open should not run after a stop during backoff");
}

#[test]
fn retry_non_retriable_open_error_to_disconnected() {
    // Device is discoverable but connecting gives a non-retriable config error.
    let mut connect_count = 0;
    let result = reconnect(policy(None, MS), None, || false, || {
        connect_count += 1;
        AttemptOutcome::OpenFailed(Error::invalid_config("mock connect reject"))
    });
    assert_eq!(result.err(), Some(RunExit::Disconnected));
    assert_eq!(connect_count, 1, "connect is attempted exactly once before the bail-out");
}

#[test]
fn retry_validate_rejection_propagates() {
    let mut validated = false;
    let result = reconnect(policy(None, MS), None, || false, || {
        validated = true;
        AttemptOutcome::Rejected(RunExit::Disconnected)
    });
    assert_eq!(result.err(), Some(RunExit::Disconnected));
    assert!(validated, "validate closure should have run on the opened device");
}

#[test]
fn failures_of_every_kind_are_retried() {
    let mut outcomes = VecDeque::from(vec![
        AttemptOutcome::NoBackend,
        AttemptOutcome::ConnectFailed(Error::backend("busy")),
        AttemptOutcome::OpenFailed(Error::disconnected("gone")),
        AttemptOutcome::Connected,
    ]);
    let result =
        reconnect(policy(Some(4), MS), None, || false, || outcomes.pop_front().unwrap());
    assert!(result.is_ok());
    assert!(outcomes.is_empty());
    let fatal = reconnect(policy(Some(4), MS), None, || false, || {
        AttemptOutcome::ConnectFailed(Error::Stopped)
    });
    assert_eq!(fatal, Err(RunExit::Disconnected));
}

#[test]
fn first_ever_reconnect_does_not_delay() {
    assert!(!is_flapping(None, NOW, 100 * MS));
}

#[test]
fn recent_reconnect_flaps_and_delays() {
    // Previous reconnect just completed -> within backoff -> must back off.
    assert!(is_flapping(Some(NOW), NOW, 100 * MS));
}

#[test]
fn old_reconnect_does_not_delay() {
    // A genuine one-off disconnect long after the last reconnect recovers
    // instantly.
    let long_ago = NOW - 5_000 * MS;
    assert!(!is_flapping(Some(long_ago), NOW, 100 * MS));
}

#[test]
fn unknown_devices_are_not_found() {
    let target = ReconnectTarget { device_id: "x:1".to_string() };
    let err = target.open_device(&[mock_device()]).unwrap_err();
    assert!(matches!(err, Error::Disconnected(m) if m == "device not found: x:1"));
}

// --- scheduler ---

#[test]
fn advance_scheduled_ahead_accumulates_fractional_consumption() {
    let mut scheduled_ahead = 10u64;
    let mut fractional_consumed = 0u64;
    let mut last_iteration = NOW;
    let pps = 10;

    let t1 = last_iteration + 50 * MS;
    advance_scheduled_ahead(
        &mut scheduled_ahead,
        &mut fractional_consumed,
        &mut last_iteration,
        t1,
        pps,
    );
    assert_eq!(scheduled_ahead, 10);
    assert!((fractional_consumed as f64 / 1e9 - 0.5).abs() < f64::EPSILON);

    let t2 = last_iteration + 50 * MS;
    advance_scheduled_ahead(
        &mut scheduled_ahead,
        &mut fractional_consumed,
        &mut last_iteration,
        t2,
        pps,
    );
    assert_eq!(scheduled_ahead, 9);
    assert!((fractional_consumed as f64 / 1e9).abs() < f64::EPSILON);
}

#[test]
fn conservative_buffered_points_prefers_lower_estimate() {
    assert_eq!(conservative_buffered_points(500, None), 500);
    assert_eq!(conservative_buffered_points(500, Some(300)), 300);
    assert_eq!(conservative_buffered_points(500, Some(800)), 500);
}

// --- session ---

#[test]
fn session_control_survives_reconnections() {
    let session = SessionControl::new();
    let shared = session.clone();
    assert!(!session.is_armed() && !session.is_stop_requested());
    assert_eq!(session.arm().unwrap(), None);
    assert!(shared.is_armed());

    let first = StreamControl::new();
    assert_eq!(session.attach(first.clone()).unwrap(), ControlMsg::Arm);
    assert!(first.is_armed());
    assert_eq!(shared.disarm().unwrap(), Some(ControlMsg::Disarm));
    assert!(!first.is_armed());
    session.detach();
    assert_eq!(shared.arm().unwrap(), None);
    assert!(!first.is_armed());

    let second = StreamControl::new();
    assert_eq!(session.attach(second.clone()).unwrap(), ControlMsg::Arm);
    assert!(second.is_armed());
    assert_eq!(session.stop().unwrap(), Some(ControlMsg::Stop));
    assert!(second.is_stop_requested() && shared.is_stop_requested());
    let third = StreamControl::new();
    assert_eq!(session.attach(third.clone()).unwrap(), ControlMsg::Stop);
    assert!(third.is_stop_requested());
}

fn shared_between_threads<T: Send + Sync + Clone>(_: &T) {}

#[test]
fn control_handles_are_thread_safe() {
    shared_between_threads(&StreamControl::new());
    shared_between_threads(&SessionControl::new());
}

#[test]
fn a_stop_is_final() {
    let stopped = ControlFlags::new().apply(ControlMsg::Arm).apply(ControlMsg::Stop);
    assert!(stopped.armed && stopped.stop_requested);
    let disarmed = stopped.apply(ControlMsg::Disarm);
    assert!(!disarmed.armed && disarmed.stop_requested);
}

#[test]
fn new_streams_are_greeted_with_the_session_state() {
    let control = StreamControl::new();
    assert_eq!(greet(&control, false, false).unwrap(), ControlMsg::Disarm);
    assert_eq!(greet(&control, true, false).unwrap(), ControlMsg::Arm);
    assert_eq!(greet(&control, true, true).unwrap(), ControlMsg::Stop);
}

#[test]
fn messages_reach_the_attached_stream_only() {
    let control = StreamControl::new();
    let alone = SessionState { flags: ControlFlags::new(), current: None };
    assert_eq!(alone.pass_on(ControlMsg::Arm), None);
    assert!(!control.is_armed());
    let state = alone.told(ControlMsg::Arm).attached(control.clone());
    assert!(state.flags.armed);
    assert_eq!(state.pass_on(ControlMsg::Arm), Some(ControlMsg::Arm));
    assert!(control.is_armed());
    assert!(state.detached().current.is_none());
}

#[test]
fn each_run_of_a_session_starts_afresh() {
    let mut session =
        ReconnectingSession::new("dev".to_string(), StreamConfig::new(30_000)).with_max_retries(1);
    session.begin_run();
    assert!(matches!(
        session.start_failed(Error::backend("busy")),
        SessionStep::Exit(Some(_), RunExit::Disconnected)
    ));
    session.begin_run();
    assert!(matches!(session.next(false), SessionStep::Open));
    assert!(!session.stream_started());
    session.begin_run();
    assert!(!session.stream_started(), "the first connection of a run is no reconnect");
    // Without retries every run opens the device once.
    let mut once = session.with_max_retries(0);
    assert!(matches!(once.next(false), SessionStep::Exit(None, RunExit::Disconnected)));
    once.begin_run();
    assert!(matches!(once.next(false), SessionStep::Open));
}

#[test]
fn session_retries_until_its_limit() {
    let mut session = ReconnectingSession::new("dev".to_string(), StreamConfig::new(30_000))
        .with_max_retries(2)
        .with_backoff(7 * MS);
    assert!(matches!(session.next(false), SessionStep::Open));
    assert!(matches!(session.next(true), SessionStep::Exit(None, RunExit::Stopped)));
    assert!(matches!(
        session.start_failed(Error::backend("busy")),
        SessionStep::Backoff(Some(Error::Backend(_)), 7_000_000)
    ));
    assert!(!session.stream_started());
    assert!(session.stream_started());
    assert_eq!(session.retries, 0);
    session.start_failed(Error::backend("busy"));
    assert!(matches!(
        session.start_failed(Error::backend("busy")),
        SessionStep::Exit(Some(_), RunExit::Disconnected)
    ));
    assert!(matches!(session.next(false), SessionStep::Exit(None, RunExit::Disconnected)));
    assert!(matches!(
        session.start_failed(Error::invalid_config("pps")),
        SessionStep::Fail(Error::InvalidConfig(_))
    ));
}

#[test]
fn sessions_without_retries_try_once() {
    let mut session = ReconnectingSession::new("dev".to_string(), StreamConfig::new(30_000))
        .with_max_retries(0);
    assert!(matches!(session.next(false), SessionStep::Open));
    assert!(matches!(
        session.start_failed(Error::backend("busy")),
        SessionStep::Exit(Some(_), RunExit::Disconnected)
    ));
    let mut session = ReconnectingSession::new("dev".to_string(), StreamConfig::new(30_000))
        .with_max_retries(0);
    session.stream_started();
    assert!(matches!(session.next(false), SessionStep::Exit(None, RunExit::Disconnected)));
}

#[test]
fn session_goes_on_only_after_a_disconnect() {
    let session = ReconnectingSession::new("dev".to_string(), StreamConfig::new(30_000));
    assert!(matches!(
        session.stream_ended(Ok(RunExit::Disconnected)),
        SessionStep::Backoff(None, 1_000_000_000)
    ));
    assert!(matches!(
        session.stream_ended(Ok(RunExit::ProducerEnded)),
        SessionStep::Exit(None, RunExit::ProducerEnded)
    ));
    assert!(matches!(session.stream_ended(Err(Error::Stopped)), SessionStep::Fail(Error::Stopped)));
    let never = session.with_max_retries(0);
    assert!(matches!(
        never.stream_ended(Ok(RunExit::Disconnected)),
        SessionStep::Exit(None, RunExit::Disconnected)
    ));
    assert!(ReconnectingSession::is_disconnect(&Error::disconnected("x")));
    assert_eq!(ReconnectingSession::sleep_with_stop(0, false), BackoffStep::Over);
    assert_eq!(ReconnectingSession::sleep_with_stop(60 * MS, false), BackoffStep::Sleep(50 * MS));
    assert_eq!(ReconnectingSession::sleep_with_stop(60 * MS, true), BackoffStep::Stopped);
}

#[test]
fn allocated_points_are_copied_as_far_as_they_fit() {
    let p = |n: u16| LaserPoint::new(0, 0, n, 0, 0, 0);
    let mut buffer = vec![p(0); 3];
    let r = fill_from(Some(vec![p(1), p(2)]), 2, &mut buffer);
    assert_eq!(r, ProducerResult::Continue);
    assert_eq!(buffer, vec![p(1), p(2), p(0)]);
    let r = fill_from(Some(vec![p(4); 5]), 5, &mut buffer);
    assert_eq!(r, ProducerResult::ContinuePartial { filled: 3 });
    assert_eq!(buffer, vec![p(4); 3]);
    assert_eq!(fill_from(None, 2, &mut buffer), ProducerResult::End);
}
