use std::cell::RefCell;
use std::collections::VecDeque;
use std::rc::Rc;
use std::sync::atomic::{AtomicBool, AtomicU64, AtomicUsize, Ordering};
use std::sync::Arc;

use laser_dac::backend::{StreamBackend, WriteOutcome};
use laser_dac::device::{DacCapabilities, DacInfo, DacType, OutputModel};
use laser_dac::error::Error;
use laser_dac::stream::control::{ControlMsg, StreamControl};
use laser_dac::stream::dac::{validate_config, Dac};
use laser_dac::stream::run::{closing_chunk, ControlStep, Link, StreamAction, WriteReply};
use laser_dac::stream::{RunPhase, Stream};
use laser_dac::types::{
    ChunkRequest, ChunkResult, LaserPoint, RunExit, StreamConfig, StreamInstant, UnderrunPolicy,
};

const MS: u64 = 1_000_000;

/// A point from floating point coordinates.
fn point(x: f32, y: f32, r: u16, g: u16, b: u16, intensity: u16) -> LaserPoint {
    LaserPoint::new(x.to_bits(), y.to_bits(), r, g, b, intensity)
}

fn blanked() -> LaserPoint {
    LaserPoint::blanked(0.0f32.to_bits(), 0.0f32.to_bits())
}

/// A test backend for unit testing stream behavior.
struct TestBackend {
    caps: DacCapabilities,
    connected: bool,
    /// Count of write attempts
    write_count: Arc<AtomicUsize>,
    /// Number of WouldBlock responses to return before accepting writes
    would_block_count: Arc<AtomicUsize>,
    /// Simulated queue depth
    queued: Arc<AtomicU64>,
    /// Whether the queue depth is reported
    reports_queue: bool,
    /// Track shutter state for testing
    shutter_open: Arc<AtomicBool>,
    /// Writes after which the device counts as disconnected
    disconnect_after: Option<usize>,
    /// What was written
    written: Arc<std::sync::Mutex<Vec<LaserPoint>>>,
    /// Error of the next write
    fail_next: Option<Error>,
    /// How often the device was stopped
    stops: usize,
    /// Whether the device refuses to stop
    stuck: bool,
}

impl TestBackend {
    fn new() -> Self {
        Self {
            caps: DacCapabilities {
                pps_min: 1000,
                pps_max: 100000,
                max_points_per_chunk: 1000,
                output_model: OutputModel::NetworkFifo,
            },
            connected: false,
            write_count: Arc::new(AtomicUsize::new(0)),
            would_block_count: Arc::new(AtomicUsize::new(0)),
            queued: Arc::new(AtomicU64::new(0)),
            reports_queue: true,
            shutter_open: Arc::new(AtomicBool::new(false)),
            disconnect_after: None,
            written: Arc::new(std::sync::Mutex::new(Vec::new())),
            fail_next: None,
            stops: 0,
            stuck: false,
        }
    }

    fn connected() -> Self {
        Self { connected: true, ..Self::new() }
    }

    /// A backend that does not report its queue depth.
    fn no_queue() -> Self {
        Self { connected: true, reports_queue: false, ..Self::new() }
    }

    fn with_would_block_count(mut self, count: usize) -> Self {
        self.would_block_count = Arc::new(AtomicUsize::new(count));
        self
    }

    /// Set the initial queue depth for testing buffer estimation.
    fn with_initial_queue(mut self, queue: u64) -> Self {
        self.queued = Arc::new(AtomicU64::new(queue));
        self
    }
}

impl StreamBackend for TestBackend {
    fn dac_type(&self) -> DacType {
        DacType::Custom("Test".to_string())
    }

    fn caps(&self) -> &DacCapabilities {
        &self.caps
    }

    fn connect(&mut self) -> Result<(), Error> {
        self.connected = true;
        Ok(())
    }

    fn disconnect(&mut self) -> Result<(), Error> {
        self.connected = false;
        Ok(())
    }

    fn is_connected(&self) -> bool {
        match self.disconnect_after {
            Some(n) if self.write_count.load(Ordering::SeqCst) >= n => false,
            _ => self.connected,
        }
    }

    fn try_write_chunk(&mut self, _pps: u32, points: &[LaserPoint]) -> Result<WriteOutcome, Error> {
        self.write_count.fetch_add(1, Ordering::SeqCst);
        if let Some(e) = self.fail_next.take() {
            return Err(e);
        }
        // Return WouldBlock until count reaches 0
        if self.would_block_count.load(Ordering::SeqCst) > 0 {
            self.would_block_count.fetch_sub(1, Ordering::SeqCst);
            return Ok(WriteOutcome::WouldBlock);
        }
        self.queued.fetch_add(points.len() as u64, Ordering::SeqCst);
        self.written.lock().unwrap().extend_from_slice(points);
        Ok(WriteOutcome::Written)
    }

    fn stop(&mut self) -> Result<(), Error> {
        self.stops += 1;
        if self.stuck {
            Err(Error::backend("stuck"))
        } else {
            Ok(())
        }
    }

    fn set_shutter(&mut self, open: bool) -> Result<(), Error> {
        self.shutter_open.store(open, Ordering::SeqCst);
        Ok(())
    }

    fn queued_points(&self) -> Option<u64> {
        if self.reports_queue {
            Some(self.queued.load(Ordering::SeqCst))
        } else {
            None
        }
    }
}

fn info_for(backend: &TestBackend) -> DacInfo {
    DacInfo {
        id: "test".to_string(),
        name: "Test Device".to_string(),
        kind: DacType::Custom("Test".to_string()),
        caps: *backend.caps(),
    }
}

/// A control handle with the queue of messages to its stream.
#[derive(Clone)]
struct Control {
    flags: StreamControl,
    messages: Rc<RefCell<VecDeque<ControlMsg>>>,
}

impl Control {
    fn arm(&self) {
        self.messages.borrow_mut().push_back(self.flags.arm().unwrap());
    }

    fn disarm(&self) {
        self.messages.borrow_mut().push_back(self.flags.disarm().unwrap());
    }

    fn stop(&self) {
        self.messages.borrow_mut().push_back(self.flags.stop().unwrap());
    }
}

/// A stream with its device, on a simulated clock.
struct Runner {
    stream: Stream<TestBackend>,
    control: Control,
    clock: u64,
    /// What another thread does, and when.
    schedule: VecDeque<(u64, ControlMsg)>,
}

impl Runner {
    fn new(backend: TestBackend, cfg: StreamConfig) -> Self {
        let info = info_for(&backend);
        Self::around(Stream::with_backend(info, backend, cfg))
    }

    fn around(stream: Stream<TestBackend>) -> Self {
        let control =
            Control { flags: stream.control(), messages: Rc::new(RefCell::new(VecDeque::new())) };
        Runner { stream, control, clock: 0, schedule: VecDeque::new() }
    }

    fn backend(&mut self) -> &mut TestBackend {
        self.stream.backend.as_mut().unwrap()
    }

    fn queued(&self) -> Option<u64> {
        self.stream.backend.as_ref().and_then(|b| b.queued_points())
    }

    fn pass(&mut self, ns: u64) {
        self.clock += ns;
        while let Some(&(at, msg)) = self.schedule.front() {
            if at > self.clock {
                break;
            }
            self.schedule.pop_front();
            match msg {
                ControlMsg::Arm => self.control.arm(),
                ControlMsg::Disarm => self.control.disarm(),
                ControlMsg::Stop => self.control.stop(),
            }
        }
    }

    fn process_control_messages(&mut self) -> bool {
        loop {
            let Some(msg) = self.control.messages.borrow_mut().pop_front() else { return false };
            match self.stream.process_control_message(msg) {
                ControlStep::Nothing => {}
                ControlStep::SetShutter(open) => self.backend().set_shutter(open).unwrap(),
                ControlStep::Stop => return true,
            }
        }
    }

    fn write(&mut self, shutter: Option<bool>, count: usize) -> WriteReply {
        let pps = self.stream.config.pps;
        let points = self.stream.state.chunk_buffer[..count].to_vec();
        let Some(backend) = self.stream.backend.as_mut() else { return WriteReply::Missing };
        if let Some(open) = shutter {
            backend.set_shutter(open).unwrap();
        }
        match backend.try_write_chunk(pps, &points) {
            Ok(WriteOutcome::Written) => WriteReply::Written,
            Ok(WriteOutcome::WouldBlock) => WriteReply::WouldBlock,
            Err(e) => WriteReply::Failed(e),
        }
    }

    fn run_fill(
        &mut self,
        mut producer: impl FnMut(&ChunkRequest, &mut [LaserPoint]) -> ChunkResult,
        mut on_error: impl FnMut(Error),
    ) -> Result<RunExit, Error> {
        let mut action = self.stream.start(self.clock);
        loop {
            self.pass(1_000);
            action = match action {
                StreamAction::Observe => {
                    let stop = self.control.flags.is_stop_requested();
                    let queued = self.queued();
                    self.stream.observed(self.clock, stop, queued)
                }
                StreamAction::Sleep(ns) => {
                    self.pass(ns);
                    let stop = self.process_control_messages();
                    self.stream.slept(stop, self.control.flags.is_armed())
                }
                StreamAction::Pause(ns) => {
                    let stop = self.process_control_messages();
                    if !stop {
                        self.pass(ns);
                    }
                    self.stream.slept(stop, self.control.flags.is_armed())
                }
                StreamAction::CheckLink => {
                    let link = match &self.stream.backend {
                        None => Link::Missing,
                        Some(b) if b.is_connected() => Link::Up,
                        Some(_) => Link::Down,
                    };
                    self.stream.linked(link)
                }
                StreamAction::Control => {
                    let stop = self.process_control_messages();
                    let queued = self.queued();
                    self.stream.controlled(stop, queued)
                }
                StreamAction::Produce(request) => {
                    let result = producer(&request, &mut self.stream.state.chunk_buffer);
                    let armed = self.control.flags.is_armed();
                    let delay = self.control.flags.color_delay();
                    self.stream.produced(result, armed, delay)
                }
                StreamAction::Write { shutter, count } => {
                    let reply = self.write(shutter, count);
                    self.stream.wrote(reply)
                }
                StreamAction::Report(e) => {
                    on_error(e);
                    self.stream.reported()
                }
                StreamAction::Close => {
                    let pps = self.stream.config.pps;
                    let backend = self.backend();
                    backend.set_shutter(false).unwrap();
                    let _ = backend.try_write_chunk(pps, &closing_chunk());
                    self.stream.closed()
                }
                StreamAction::Finish(exit) => return Ok(exit),
                StreamAction::ReportAndFinish(e, exit) => {
                    on_error(e);
                    return Ok(exit);
                }
                StreamAction::Fail(e) => return Err(e),
                StreamAction::StopAndFail { shutter } => {
                    if let Some(open) = shutter {
                        self.backend().set_shutter(open).unwrap();
                    }
                    self.control.stop();
                    return Err(Error::Stopped);
                }
            };
        }
    }

    /// Let the underrun policy write.
    fn handle_underrun_fill(&mut self, req: &ChunkRequest) -> Result<(), Error> {
        let armed = self.control.flags.is_armed();
        match self.stream.begin_underrun(req.target_points, armed) {
            StreamAction::Write { shutter, count } => {
                let reply = self.write(shutter, count);
                self.stream.wrote(reply);
                Ok(())
            }
            _ => Err(Error::Stopped),
        }
    }
}

fn request(target_points: usize) -> ChunkRequest {
    ChunkRequest {
        start: StreamInstant::new(0),
        pps: 30000,
        min_points: target_points,
        target_points,
        buffered_points: 0,
        buffered: 0,
        device_queued_points: None,
    }
}

fn fill(buffer: &mut [LaserPoint], n: usize, p: LaserPoint) -> ChunkResult {
    for q in buffer[..n].iter_mut() {
        *q = p;
    }
    ChunkResult::Filled(n)
}

// =========================================================================
// Control
// =========================================================================

#[test]
fn test_stream_control_arm_disarm() {
    let control = StreamControl::new();
    assert!(!control.is_armed());

    control.arm().unwrap();
    assert!(control.is_armed());

    control.disarm().unwrap();
    assert!(!control.is_armed());
}

#[test]
fn test_stream_control_stop() {
    let control = StreamControl::new();
    assert!(!control.is_stop_requested());

    control.stop().unwrap();
    assert!(control.is_stop_requested());
}

#[test]
fn test_stream_control_clone_shares_state() {
    let control1 = StreamControl::new();
    let control2 = control1.clone();

    control1.arm().unwrap();
    assert!(control2.is_armed());

    control2.stop().unwrap();
    assert!(control1.is_stop_requested());
}

#[test]
fn test_device_start_stream_connects_backend() {
    let backend = TestBackend::new();
    let info = info_for(&backend);
    let device = Dac::new(info, backend);

    // Device should not be connected initially
    assert!(!device.is_connected());

    // start_stream should connect and return a usable stream
    let cfg = StreamConfig::new(30000);
    let result = device.start_stream(cfg);
    assert!(result.is_ok());

    let Ok((stream, _info)) = result else { panic!("started") };
    assert!(stream.backend.as_ref().unwrap().is_connected());
}

#[test]
fn test_handle_underrun_fill_advances_state() {
    let mut runner = Runner::new(TestBackend::connected(), StreamConfig::new(30000));

    // Record initial state
    let initial_instant = runner.stream.state.current_instant;
    let initial_scheduled = runner.stream.state.scheduled_ahead;
    let initial_chunks = runner.stream.state.stats.chunks_written;
    let initial_points = runner.stream.state.stats.points_written;

    // Trigger underrun handling with ChunkRequest
    runner.handle_underrun_fill(&request(100)).unwrap();

    // State should have advanced
    let state = &runner.stream.state;
    assert!(state.current_instant > initial_instant);
    assert!(state.scheduled_ahead > initial_scheduled);
    assert_eq!(state.stats.chunks_written, initial_chunks + 1);
    assert_eq!(state.stats.points_written, initial_points + 100);
    assert_eq!(state.stats.underrun_count, 1);
}

#[test]
fn test_run_fill_retries_on_would_block() {
    // Create a backend that returns WouldBlock 3 times before accepting
    let backend = TestBackend::connected().with_would_block_count(3);
    let write_count = backend.write_count.clone();
    let mut runner = Runner::new(backend, StreamConfig::new(30000));

    let mut produced_count = 0;
    let result = runner.run_fill(
        |req, buffer| {
            produced_count += 1;
            if produced_count <= 1 {
                fill(buffer, req.target_points.min(buffer.len()), blanked())
            } else {
                ChunkResult::End
            }
        },
        |_e| {},
    );

    assert_eq!(result.unwrap(), RunExit::ProducerEnded);
    // Three refused writes, the accepted one and the closing one.
    assert!(write_count.load(Ordering::SeqCst) >= 1);
    assert_eq!(write_count.load(Ordering::SeqCst), 5);
}

/// Offer lit chunks to a device that has no room until `free_after` writes; the message
/// comes a millisecond after the first offer.
fn run_blocked(free_after: usize, msg: ControlMsg) -> (Result<RunExit, Error>, Runner) {
    let backend = TestBackend::connected().with_would_block_count(free_after);
    let cfg = StreamConfig::new(30000).with_startup_blank(0).with_drain_timeout(0);
    let mut runner = Runner::new(backend, cfg);
    runner.control.arm();
    runner.schedule.push_back((MS, msg));
    let lit = point(0.5, -0.5, 1, 2, 3, 4);
    let mut call_count = 0;
    let result = runner.run_fill(
        |_req, buffer| {
            call_count += 1;
            if call_count == 1 {
                fill(buffer, 10, lit)
            } else {
                ChunkResult::End
            }
        },
        |_e| {},
    );
    (result, runner)
}

#[test]
fn a_stop_ends_a_write_that_waits_for_room() {
    let (result, mut runner) = run_blocked(usize::MAX, ControlMsg::Stop);
    assert_eq!(result.unwrap(), RunExit::Stopped);
    assert!(runner.backend().written.lock().unwrap().is_empty());
}

#[test]
fn a_disarm_darkens_a_chunk_that_waits_for_room() {
    let (result, mut runner) = run_blocked(50, ControlMsg::Disarm);
    assert_eq!(result.unwrap(), RunExit::ProducerEnded);
    let dark = LaserPoint::blanked(0.5f32.to_bits(), (-0.5f32).to_bits());
    assert_eq!(runner.backend().written.lock().unwrap()[..10], vec![dark; 10]);
    assert!(!runner.backend().shutter_open.load(Ordering::SeqCst));
    assert_eq!(runner.stream.state.last_chunk_len, 0);
    // Without a disarm the chunk goes out as it was.
    let (_, mut runner) = run_blocked(50, ControlMsg::Arm);
    let lit = point(0.5, -0.5, 1, 2, 3, 4);
    assert_eq!(runner.backend().written.lock().unwrap()[..10], vec![lit; 10]);
    assert_eq!(runner.stream.state.last_chunk_len, 10);
}

#[test]
fn a_missed_disarm_message_closes_the_shutter_with_the_retry() {
    let mut runner = Runner::new(TestBackend::connected(), StreamConfig::new(30000));
    runner.stream.state.last_armed = true;
    runner.stream.state.shutter_open = true;
    runner.stream.phase = RunPhase::Blocked { count: 3, armed: true };
    assert!(matches!(
        runner.stream.slept(false, false),
        StreamAction::Write { shutter: Some(false), count: 3 }
    ));
    assert_eq!(runner.stream.phase, RunPhase::Writing { count: 3, armed: false });
}

#[test]
fn test_arm_opens_shutter_disarm_closes_shutter() {
    let backend = TestBackend::connected();
    let shutter_open = backend.shutter_open.clone();
    let mut runner = Runner::new(backend, StreamConfig::new(30000));

    // Initially shutter is closed
    assert!(!shutter_open.load(Ordering::SeqCst));

    // Arm via control; processing the message should open the shutter
    runner.control.arm();
    let stopped = runner.process_control_messages();
    assert!(!stopped);
    assert!(shutter_open.load(Ordering::SeqCst));

    // Disarm; processing the message should close the shutter
    runner.control.disarm();
    let stopped = runner.process_control_messages();
    assert!(!stopped);
    assert!(!shutter_open.load(Ordering::SeqCst));
}

#[test]
fn test_handle_underrun_fill_blanks_when_disarmed() {
    // Use RepeatLast policy - but when disarmed, should still blank
    let cfg = StreamConfig::new(30000).with_underrun(UnderrunPolicy::RepeatLast);
    let backend = TestBackend::connected();
    let written = backend.written.clone();
    let mut runner = Runner::new(backend, cfg);

    // Set some last_chunk with colored points using the pre-allocated buffer
    let colored_point = point(0.5, 0.5, 65535, 65535, 65535, 65535);
    for i in 0..100 {
        runner.stream.state.last_chunk[i] = colored_point;
    }
    runner.stream.state.last_chunk_len = 100;

    // Ensure disarmed (default state)
    assert!(!runner.stream.control.is_armed());

    // Handle underrun while disarmed
    runner.handle_underrun_fill(&request(100)).unwrap();

    // last_chunk should NOT be updated (we're disarmed)
    assert_eq!(runner.stream.state.last_chunk[0].r, 65535); // Still the old colored points
    assert!(written.lock().unwrap().iter().all(|p| *p == blanked()));
}

#[test]
fn test_stop_closes_shutter() {
    let backend = TestBackend::connected();
    let shutter_open = backend.shutter_open.clone();
    let mut runner = Runner::new(backend, StreamConfig::new(30000));

    // Arm first to open shutter
    runner.control.arm();
    runner.process_control_messages();
    assert!(shutter_open.load(Ordering::SeqCst));

    // Stop should close shutter even if arm message was processed
    runner.stream.stop().unwrap();
    assert!(!shutter_open.load(Ordering::SeqCst));
    assert!(!runner.control.flags.is_armed());
    assert!(runner.control.flags.is_stop_requested());
    assert_eq!(runner.backend().stops, 1);
}

#[test]
fn test_arm_disarm_arm_cycle() {
    let backend = TestBackend::connected();
    let shutter_open = backend.shutter_open.clone();
    let mut runner = Runner::new(backend, StreamConfig::new(30000));
    let control = runner.control.clone();

    // Initial state: disarmed
    assert!(!control.flags.is_armed());
    assert!(!shutter_open.load(Ordering::SeqCst));

    // Arm
    control.arm();
    runner.process_control_messages();
    assert!(control.flags.is_armed());
    assert!(shutter_open.load(Ordering::SeqCst));

    // Disarm
    control.disarm();
    runner.process_control_messages();
    assert!(!control.flags.is_armed());
    assert!(!shutter_open.load(Ordering::SeqCst));

    // Arm again
    control.arm();
    runner.process_control_messages();
    assert!(control.flags.is_armed());
    assert!(shutter_open.load(Ordering::SeqCst));
}

// =========================================================================
// Buffer-driven timing tests
// =========================================================================

#[test]
fn test_run_fill_buffer_driven_behavior() {
    // A backend without queue depth, so that the software estimate counts
    let backend = TestBackend::no_queue();
    let write_count = backend.write_count.clone();
    // Use short target buffer for testing
    let cfg = StreamConfig::new(30000).with_target_buffer(10 * MS).with_min_buffer(5 * MS);
    let mut runner = Runner::new(backend, cfg);

    let mut call_count = 0;
    let result = runner.run_fill(
        |req, buffer| {
            call_count += 1;
            // Run for 5 calls then end
            if call_count > 4 {
                ChunkResult::End
            } else {
                fill(buffer, req.target_points.min(buffer.len()).min(100), blanked())
            }
        },
        |_e| {},
    );

    assert_eq!(result.unwrap(), RunExit::ProducerEnded);
    assert!(write_count.load(Ordering::SeqCst) >= 4, "Should have written multiple chunks");
}

#[test]
fn test_run_fill_sleeps_when_buffer_healthy() {
    // Very small target buffer, skip drain
    let cfg = StreamConfig::new(30000)
        .with_target_buffer(5 * MS)
        .with_min_buffer(2 * MS)
        .with_drain_timeout(0);
    let mut runner = Runner::new(TestBackend::no_queue(), cfg);

    let mut call_count = 0;
    let result = runner.run_fill(
        |req, buffer| {
            call_count += 1;
            // End after 3 callbacks
            if call_count > 2 {
                ChunkResult::End
            } else {
                // Fill buffer to trigger sleep
                fill(buffer, req.target_points.min(buffer.len()), blanked())
            }
        },
        |_e| {},
    );

    assert_eq!(result.unwrap(), RunExit::ProducerEnded);
    assert!(runner.clock < 100 * MS, "Elapsed time {} is too long for test", runner.clock);
}

#[test]
fn a_full_device_is_slept_off_in_slices() {
    let cfg = StreamConfig::new(30000).with_target_buffer(5 * MS);
    let mut runner = Runner::new(TestBackend::no_queue(), cfg);
    runner.stream.state.scheduled_ahead = 300;
    runner.stream.start(0);
    // 150 points above the target last 5 ms.
    assert!(matches!(runner.stream.observed(0, false, None), StreamAction::Sleep(2_000_000)));
    assert!(matches!(runner.stream.slept(false, false), StreamAction::Sleep(2_000_000)));
    assert!(matches!(runner.stream.slept(false, false), StreamAction::Sleep(1_000_000)));
    assert!(matches!(runner.stream.slept(false, false), StreamAction::Observe));
    assert!(matches!(runner.stream.observed(5 * MS, false, None), StreamAction::CheckLink));
    assert_eq!(runner.stream.state.scheduled_ahead, 150);
}

#[test]
fn test_run_fill_stops_on_control_stop() {
    // A stop via the control handle terminates the loop promptly
    let mut runner = Runner::new(TestBackend::connected(), StreamConfig::new(30000));
    runner.schedule.push_back((20 * MS, ControlMsg::Stop));

    let result = runner.run_fill(
        |req, buffer| fill(buffer, req.target_points.min(buffer.len()).min(10), blanked()),
        |_e| {},
    );

    // Should exit with Stopped, not hang forever
    assert_eq!(result.unwrap(), RunExit::Stopped);
}

#[test]
fn test_run_fill_producer_ended() {
    // Test that ChunkResult::End terminates the stream gracefully
    let mut runner = Runner::new(TestBackend::connected(), StreamConfig::new(30000));

    let mut call_count = 0;
    let result = runner.run_fill(
        |req, buffer| {
            call_count += 1;
            if call_count == 1 {
                // First call: return some data
                fill(buffer, req.target_points.min(buffer.len()).min(100), blanked())
            } else {
                // Second call: end the stream
                ChunkResult::End
            }
        },
        |_e| {},
    );

    assert_eq!(result.unwrap(), RunExit::ProducerEnded);
    assert_eq!(call_count, 2);
}

/// Run a stream whose producer answers as scripted and then ends; returns the points
/// that were queued.
fn run_script(cfg: StreamConfig, arm: bool, script: Vec<ChunkResult>) -> u64 {
    let backend = TestBackend::connected();
    let queued = backend.queued.clone();
    let mut runner = Runner::new(backend, cfg);
    if arm {
        runner.control.arm();
    }
    let mut script = VecDeque::from(script);
    let result =
        runner.run_fill(|_req, _buffer| script.pop_front().unwrap_or(ChunkResult::End), |_e| {});
    assert_eq!(result.unwrap(), RunExit::ProducerEnded);
    queued.load(Ordering::SeqCst)
}

#[test]
fn test_run_fill_starved_applies_underrun_policy() {
    // Use Blank policy for underrun
    let cfg = StreamConfig::new(30000).with_underrun(UnderrunPolicy::Blank);
    let queued = run_script(cfg, false, vec![ChunkResult::Starved]);
    // Underrun policy should have written some points
    assert!(queued > 0, "Underrun policy should have written blank points");
    assert_eq!(queued, 600 + 16);
}

#[test]
fn test_run_fill_filled_zero_with_target_treated_as_starved() {
    let cfg = StreamConfig::new(30000).with_underrun(UnderrunPolicy::Blank);
    // Return Filled(0) when buffer needs data - should be treated as Starved
    let queued = run_script(cfg, false, vec![ChunkResult::Filled(0)]);
    assert!(queued > 16, "Filled(0) with target > 0 should trigger underrun and write blanks");
}

// =========================================================================
// Buffer estimation tests
// =========================================================================

#[test]
fn test_estimate_buffer_uses_software_when_no_hardware() {
    let mut runner = Runner::new(TestBackend::no_queue(), StreamConfig::new(30000));
    // Set software estimate to 500 points
    runner.stream.state.scheduled_ahead = 500;
    // Should use software estimate since hardware returns None
    assert_eq!(runner.stream.estimate_buffer_points(runner.queued()), 500);
}

#[test]
fn test_estimate_buffer_uses_min_of_hardware_and_software() {
    let backend = TestBackend::connected().with_initial_queue(300);
    let queued = backend.queued.clone();
    let mut runner = Runner::new(backend, StreamConfig::new(30000));

    // Software says 500, hardware says 300 -> should use 300 (conservative)
    runner.stream.state.scheduled_ahead = 500;
    let estimate = runner.stream.estimate_buffer_points(runner.queued());
    assert_eq!(estimate, 300, "Should use hardware (300) when it's less than software (500)");

    // Now set hardware higher than software
    queued.store(800, Ordering::SeqCst);
    let estimate = runner.stream.estimate_buffer_points(runner.queued());
    assert_eq!(estimate, 500, "Should use software (500) when it's less than hardware (800)");
}

#[test]
fn test_estimate_buffer_conservative_prevents_underrun() {
    let backend = TestBackend::connected().with_initial_queue(100);
    let queued = backend.queued.clone();
    let mut runner = Runner::new(backend, StreamConfig::new(30000));

    // Simulate: software thinks 1000 points scheduled, but hardware only has 100
    runner.stream.state.scheduled_ahead = 1000;
    let estimate = runner.stream.estimate_buffer_points(runner.queued());
    assert_eq!(estimate, 100, "Should use conservative estimate (100) not optimistic (1000)");

    // Now simulate the opposite: hardware reports more than software
    queued.store(2000, Ordering::SeqCst);
    runner.stream.state.scheduled_ahead = 500;
    let estimate = runner.stream.estimate_buffer_points(runner.queued());
    assert_eq!(estimate, 500, "Should use conservative estimate (500) not hardware (2000)");
}

#[test]
fn test_build_fill_request_uses_conservative_estimation() {
    let backend = TestBackend::connected().with_initial_queue(200);
    let cfg = StreamConfig::new(30000).with_target_buffer(40 * MS).with_min_buffer(10 * MS);
    let mut runner = Runner::new(backend, cfg);

    // Set software estimate higher than hardware
    runner.stream.state.scheduled_ahead = 500;
    let req = runner.stream.build_fill_request(1000, runner.queued());

    // Should use conservative estimate (hardware = 200)
    assert_eq!(req.buffered_points, 200);
    assert_eq!(req.device_queued_points, Some(200));
}

#[test]
fn test_build_fill_request_calculates_min_and_target_points() {
    // 30000 PPS, target_buffer = 40ms, min_buffer = 10ms
    // target_buffer = 40ms * 30000 = 1200 points
    // min_buffer = 10ms * 30000 = 300 points
    let cfg = StreamConfig::new(30000).with_target_buffer(40 * MS).with_min_buffer(10 * MS);
    let mut runner = Runner::new(TestBackend::no_queue(), cfg);

    // Empty buffer: need full target
    runner.stream.state.scheduled_ahead = 0;
    let req = runner.stream.build_fill_request(1000, None);
    // target_points should be clamped to max_points (1000)
    assert_eq!(req.target_points, 1000);
    // min_points should be 300 (10ms * 30000), clamped to 1000
    assert_eq!(req.min_points, 300);

    // Buffer at 500 points (16.67ms): below target (40ms), above min (10ms)
    runner.stream.state.scheduled_ahead = 500;
    let req = runner.stream.build_fill_request(1000, None);
    // target_points = (1200 - 500) = 700
    assert_eq!(req.target_points, 700);
    // min_points = (300 - 500) = 0 (buffer above min)
    assert_eq!(req.min_points, 0);
    assert_eq!(req.buffered, 16_666_667);

    // Buffer full at 1200 points (40ms): at target
    runner.stream.state.scheduled_ahead = 1200;
    let req = runner.stream.build_fill_request(1000, None);
    // target_points = 0 (at target)
    assert_eq!(req.target_points, 0);
    // min_points = 0 (well above min)
    assert_eq!(req.min_points, 0);
}

#[test]
fn test_build_fill_request_ceiling_rounds_min_points() {
    // min_buffer = 10ms at 30000 PPS = 300 points exactly
    let cfg = StreamConfig::new(30000).with_target_buffer(40 * MS).with_min_buffer(10 * MS);
    let mut runner = Runner::new(TestBackend::no_queue(), cfg);

    // Buffer at 299 points: 1 point below min_buffer
    runner.stream.state.scheduled_ahead = 299;
    let req = runner.stream.build_fill_request(1000, None);
    assert!(req.min_points >= 1, "min_points should be at least 1 to reach min_buffer");
}

// =========================================================================
// ChunkResult handling tests
// =========================================================================

#[test]
fn test_fill_result_filled_writes_points_and_updates_state() {
    // Test that Filled(n) writes n points to backend and updates stream state
    let backend = TestBackend::connected();
    let queued = backend.queued.clone();
    let mut runner = Runner::new(backend, StreamConfig::new(30000));

    let mut points_written = 0;
    let mut call_count = 0;
    let result = runner.run_fill(
        |req, buffer| {
            call_count += 1;
            if call_count <= 3 {
                // Fill with specific number of points
                let n = req.target_points.min(50);
                for (i, p) in buffer[..n].iter_mut().enumerate() {
                    *p = point(0.1 * i as f32, 0.2 * i as f32, 1000, 2000, 3000, 4000);
                }
                points_written += n;
                ChunkResult::Filled(n)
            } else {
                ChunkResult::End
            }
        },
        |_e| {},
    );

    assert_eq!(result.unwrap(), RunExit::ProducerEnded);

    // Points should have been written to backend
    // Note: drain adds 16 blank points at shutdown
    let total_queued = queued.load(Ordering::SeqCst);
    assert!(total_queued > 0, "Points should have been queued to backend");
    assert!(
        total_queued as usize >= points_written,
        "Queued points ({total_queued}) should be at least written points ({points_written})"
    );
    assert_eq!(runner.stream.state.stats.points_written, points_written as u64);
}

#[test]
fn test_fill_result_filled_updates_last_chunk_when_armed() {
    // Test that Filled(n) updates last_chunk for RepeatLast policy when armed
    let cfg = StreamConfig::new(30000).with_underrun(UnderrunPolicy::RepeatLast);
    let mut runner = Runner::new(TestBackend::connected(), cfg);

    // Arm the stream so last_chunk gets updated
    runner.control.arm();

    let lit = point(0.5, 0.5, 10000, 20000, 30000, 40000);
    let mut call_count = 0;
    let result = runner.run_fill(
        |req, buffer| {
            call_count += 1;
            match call_count {
                // Write specific points that we can verify later
                1 => fill(buffer, req.target_points.min(10), lit),
                // Return Starved to trigger RepeatLast
                2 => ChunkResult::Starved,
                _ => ChunkResult::End,
            }
        },
        |_e| {},
    );

    assert_eq!(result.unwrap(), RunExit::ProducerEnded);
    // If last_chunk wasn't updated, the Starved would have outputted blanks
    assert!(runner.stream.state.last_chunk_len > 10);
}

#[test]
fn test_fill_result_starved_repeat_last_with_stored_chunk() {
    // Test that Starved with RepeatLast policy repeats the last chunk
    let cfg = StreamConfig::new(30000).with_underrun(UnderrunPolicy::RepeatLast);
    let backend = TestBackend::connected();
    let queued = backend.queued.clone();
    let mut runner = Runner::new(backend, cfg);
    runner.control.arm();

    let mut call_count = 0;
    let result = runner.run_fill(
        |req, buffer| {
            call_count += 1;
            match call_count {
                // First call: provide some data to establish last_chunk
                1 => fill(
                    buffer,
                    req.target_points.min(50),
                    point(0.3, 0.3, 5000, 5000, 5000, 5000),
                ),
                // Second call: return Starved - should repeat last chunk
                2 => ChunkResult::Starved,
                _ => ChunkResult::End,
            }
        },
        |_e| {},
    );

    assert_eq!(result.unwrap(), RunExit::ProducerEnded);
    // Both the initial fill and the repeated chunk should have been written
    let total_queued = queued.load(Ordering::SeqCst);
    assert!(total_queued >= 50, "Should have written initial chunk plus repeated chunk");
}

#[test]
fn starved_streams_repeat_what_they_showed() {
    let cfg = StreamConfig::new(30000)
        .with_underrun(UnderrunPolicy::RepeatLast)
        .with_startup_blank(0);
    let backend = TestBackend::connected();
    let written = backend.written.clone();
    let mut runner = Runner::new(backend, cfg);
    runner.control.arm();
    let lit = point(0.5, 0.5, 10000, 20000, 30000, 40000);
    let mut call_count = 0;
    let result = runner.run_fill(
        |_req, buffer| {
            call_count += 1;
            match call_count {
                1 => fill(buffer, 10, lit),
                2 => ChunkResult::Starved,
                _ => ChunkResult::End,
            }
        },
        |_e| {},
    );
    assert_eq!(result.unwrap(), RunExit::ProducerEnded);
    let written = written.lock().unwrap();
    let lit_len = written.len() - 16;
    assert!(lit_len > 10);
    assert!(written[..lit_len].iter().all(|p| *p == lit));
    assert!(written[lit_len..].iter().all(|p| *p == blanked()));
}

/// Write chunks of lit points with numbered reds; returns the reds that were shown.
fn shown_reds(cfg: StreamConfig, chunks: &[usize]) -> Vec<u16> {
    let mut runner = Runner::new(TestBackend::connected(), cfg);
    let written = runner.backend().written.clone();
    runner.control.arm();
    let mut chunks = VecDeque::from(chunks.to_vec());
    let mut red = 0;
    let result = runner.run_fill(
        |_req, buffer| match chunks.pop_front() {
            Some(n) => {
                for p in buffer[..n].iter_mut() {
                    red += 1;
                    *p = point(0.1, 0.2, red, 1, 2, 3);
                }
                ChunkResult::Filled(n)
            }
            None => ChunkResult::End,
        },
        |_e| {},
    );
    assert_eq!(result.unwrap(), RunExit::ProducerEnded);
    let written = written.lock().unwrap();
    let shown = written.len() - 16;
    assert!(written[..shown].iter().all(|p| (p.x, p.y) == (0.1f32.to_bits(), 0.2f32.to_bits())));
    written[..shown].iter().map(|p| p.r).collect()
}

#[test]
fn the_first_points_after_arming_are_dark() {
    // 1 ms at 30000 points per second.
    let reds = shown_reds(StreamConfig::new(30000), &[20, 20]);
    assert!(reds[..30].iter().all(|r| *r == 0));
    assert_eq!(reds[30..], (31..=40).collect::<Vec<u16>>());
    let never = StreamConfig::new(30000).with_startup_blank(0);
    assert_eq!(shown_reds(never, &[3]), vec![1, 2, 3]);
}

#[test]
fn colors_are_shown_after_positions() {
    // 100 us at 30000 points per second are 3 points.
    let cfg = StreamConfig::new(30000).with_startup_blank(0).with_color_delay(100_000);
    assert_eq!(shown_reds(cfg, &[4, 2, 1]), vec![0, 0, 0, 1, 2, 3, 4]);
}

#[test]
fn startup_blanking_counts_points_as_shown() {
    // 500 us and 200 us at 10000 points per second are 5 and 2 points.
    let cfg = StreamConfig::new(10000).with_startup_blank(500_000).with_color_delay(200_000);
    assert_eq!(shown_reds(cfg, &[4, 4]), vec![0, 0, 0, 0, 0, 4, 5, 6]);
}

#[test]
fn color_delay_can_be_changed_while_running() {
    let cfg = StreamConfig::new(30000).with_startup_blank(0).with_color_delay(100_000);
    let mut runner = Runner::new(TestBackend::connected(), cfg);
    assert_eq!(runner.stream.control.color_delay(), 100_000);
    runner.control.flags.set_color_delay(0);
    let written = runner.backend().written.clone();
    runner.control.arm();
    let mut call_count = 0;
    let result = runner.run_fill(
        |_req, buffer| {
            call_count += 1;
            if call_count == 1 {
                fill(buffer, 2, point(0.0, 0.0, 9, 9, 9, 9))
            } else {
                ChunkResult::End
            }
        },
        |_e| {},
    );
    assert_eq!(result.unwrap(), RunExit::ProducerEnded);
    assert_eq!(written.lock().unwrap()[..2], vec![point(0.0, 0.0, 9, 9, 9, 9); 2]);
}

#[test]
fn disarming_drops_the_colors_that_wait() {
    let cfg = StreamConfig::new(30000).with_color_delay(100_000).with_startup_blank(0);
    let mut runner = Runner::new(TestBackend::connected(), cfg);
    runner.stream.start(0);
    runner.stream.state.chunk_buffer[0] = point(0.0, 0.0, 7, 7, 7, 7);
    runner.stream.phase = RunPhase::Producing { request: request(1) };
    runner.stream.produced(ChunkResult::Filled(1), true, 100_000);
    assert_eq!(runner.stream.state.color_line.len(), 3);
    runner.stream.wrote(WriteReply::Written);
    runner.stream.handle_shutter_transition(false);
    assert!(runner.stream.state.color_line.is_empty());
}

#[test]
fn repeated_chunks_come_round() {
    let cfg = StreamConfig::new(30000)
        .with_underrun(UnderrunPolicy::RepeatLast)
        .with_startup_blank(0);
    let mut runner = Runner::new(TestBackend::connected(), cfg);
    let written = runner.backend().written.clone();
    for i in 0..3u16 {
        runner.stream.state.last_chunk[i as usize] = point(0.0, 0.0, i + 1, 0, 0, 0);
    }
    runner.stream.state.last_chunk_len = 3;
    runner.control.arm();
    runner.handle_underrun_fill(&request(7)).unwrap();
    let reds: Vec<u16> = written.lock().unwrap().iter().map(|p| p.r).collect();
    assert_eq!(reds, vec![1, 2, 3, 1, 2, 3, 1]);
    assert_eq!(runner.stream.state.last_chunk_len, 7);
}

#[test]
fn test_fill_result_starved_repeat_last_without_stored_chunk_falls_back_to_blank() {
    let cfg = StreamConfig::new(30000).with_underrun(UnderrunPolicy::RepeatLast);
    // First call: return Starved with no prior chunk
    let total_queued = run_script(cfg, true, vec![ChunkResult::Starved]);
    // Should have written blank points as fallback
    assert!(total_queued > 16, "Should have written blank points as fallback");
}

#[test]
fn test_fill_result_starved_with_park_policy() {
    // Park at specific position
    let park = UnderrunPolicy::Park { x: 0.5f32.to_bits(), y: (-0.5f32).to_bits() };
    let cfg = StreamConfig::new(30000).with_underrun(park);
    let total_queued = run_script(cfg, true, vec![ChunkResult::Starved]);
    // Should have written parked points
    assert!(total_queued > 16, "Should have written parked points");

    let mut runner = Runner::new(TestBackend::connected(), cfg);
    let written = runner.backend().written.clone();
    runner.control.arm();
    runner.handle_underrun_fill(&request(2)).unwrap();
    assert_eq!(*written.lock().unwrap(), vec![point(0.5, -0.5, 0, 0, 0, 0); 2]);
}

#[test]
fn test_fill_result_starved_with_stop_policy() {
    // Test that Starved with Stop policy terminates the stream
    let cfg = StreamConfig::new(30000).with_underrun(UnderrunPolicy::Stop);
    let mut runner = Runner::new(TestBackend::connected(), cfg);

    // Must arm the stream for underrun policy to be checked
    // (disarmed streams always output blanks regardless of policy)
    runner.control.arm();

    let result = runner.run_fill(|_req, _buffer| ChunkResult::Starved, |_e| {});

    // The Stop policy returns Err(Error::Stopped) to immediately terminate
    assert!(result.is_err(), "Stop policy should return an error");
    assert!(result.unwrap_err().is_stopped(), "Error should be Stopped variant");
    assert!(runner.stream.control.is_stop_requested());
}

#[test]
fn test_fill_result_end_returns_producer_ended() {
    // Test that End terminates the stream with ProducerEnded
    let mut runner = Runner::new(TestBackend::connected(), StreamConfig::new(30000));
    let result = runner.run_fill(|_req, _buffer| ChunkResult::End, |_e| {});
    assert_eq!(result.unwrap(), RunExit::ProducerEnded);
}

#[test]
fn test_fill_result_filled_exceeds_buffer_clamped() {
    // Test that Filled(n) where n > buffer.len() is clamped
    let total_queued = run_script(StreamConfig::new(30000), false, vec![ChunkResult::Filled(2000)]);
    // Should have written clamped number of points (max_points_per_chunk)
    // plus 16 blank points from drain shutdown
    assert!(total_queued > 0, "Should have written some points");
    // The clamping should limit to max_points (1000 for TestBackend) + 16 blank drain points
    assert!(total_queued <= 1016, "Points should be clamped to max_points_per_chunk (+ drain)");
}

// =========================================================================
// Integration tests
// =========================================================================

#[test]
fn test_full_stream_lifecycle_create_arm_stream_stop() {
    // Test the complete lifecycle: create -> arm -> stream data -> stop
    let backend = TestBackend::new();
    let queued = backend.queued.clone();
    let shutter_open = backend.shutter_open.clone();
    let info = info_for(&backend);

    // 1. Create device and start stream
    let device = Dac::new(info, backend);
    assert!(!device.is_connected());

    let cfg = StreamConfig::new(30000);
    let Ok((stream, returned_info)) = device.start_stream(cfg) else { panic!("started") };
    assert_eq!(returned_info.id, "test");
    let mut runner = Runner::around(stream);

    // 2. Get control handle and verify initial state
    assert!(!runner.control.flags.is_armed());
    assert!(!shutter_open.load(Ordering::SeqCst));

    // 3. Arm the stream
    runner.control.arm();
    assert!(runner.control.flags.is_armed());

    // 4. Run the stream for a few iterations
    let mut call_count = 0;
    let result = runner.run_fill(
        |req, buffer| {
            call_count += 1;
            if call_count <= 5 {
                let n = req.target_points.min(buffer.len()).min(100);
                for (i, p) in buffer[..n].iter_mut().enumerate() {
                    let t = i as f32 / 100.0;
                    *p = point(t, t, 10000, 20000, 30000, 40000);
                }
                ChunkResult::Filled(n)
            } else {
                ChunkResult::End
            }
        },
        |_e| {},
    );

    // 5. Verify stream ended properly
    assert_eq!(result.unwrap(), RunExit::ProducerEnded);
    assert!(queued.load(Ordering::SeqCst) > 0, "Should have written points");
    assert!(call_count >= 5, "Should have called producer multiple times");
}

#[test]
fn test_full_stream_lifecycle_with_underrun_recovery() {
    // Test lifecycle with underrun and recovery
    let cfg = StreamConfig::new(30000).with_underrun(UnderrunPolicy::RepeatLast);
    let backend = TestBackend::connected();
    let queued = backend.queued.clone();
    let mut runner = Runner::new(backend, cfg);

    // Arm the stream for underrun policy to work
    runner.control.arm();

    let mut call_count = 0;
    let result = runner.run_fill(
        |req, buffer| {
            call_count += 1;
            let n = req.target_points.min(buffer.len()).min(50);
            match call_count {
                // First call: provide data (establishes last_chunk)
                1 => fill(buffer, n, point(0.5, 0.5, 30000, 30000, 30000, 30000)),
                // Second call: underrun (triggers RepeatLast)
                2 => ChunkResult::Starved,
                // Third call: recover with new data
                3 => fill(buffer, n, point(-0.5, -0.5, 20000, 20000, 20000, 20000)),
                _ => ChunkResult::End,
            }
        },
        |_e| {},
    );

    assert_eq!(result.unwrap(), RunExit::ProducerEnded);

    // Should have written: initial data + repeated chunk + recovered data
    let total = queued.load(Ordering::SeqCst);
    assert!(total >= 100, "Should have written multiple chunks including underrun recovery");
}

#[test]
fn test_full_stream_lifecycle_external_stop() {
    // Test stopping stream from external control handle
    let mut runner = Runner::new(TestBackend::connected(), StreamConfig::new(30000));
    runner.schedule.push_back((30 * MS, ControlMsg::Stop));

    let result = runner.run_fill(
        // Keep streaming until stopped
        |req, buffer| fill(buffer, req.target_points.min(buffer.len()).min(10), blanked()),
        |_e| {},
    );

    assert_eq!(result.unwrap(), RunExit::Stopped);
}

#[test]
fn test_full_stream_lifecycle_into_dac_recovery() {
    // Test recovering Dac from stream for reuse
    let backend = TestBackend::new();
    let info = info_for(&backend);

    // First stream session
    let device = Dac::new(info, backend);
    let Ok((stream, _)) = device.start_stream(StreamConfig::new(30000)) else { panic!("started") };
    let mut runner = Runner::around(stream);

    let mut call_count = 0;
    let result = runner.run_fill(
        |req, buffer| {
            call_count += 1;
            if call_count <= 2 {
                fill(buffer, req.target_points.min(buffer.len()).min(50), blanked())
            } else {
                ChunkResult::End
            }
        },
        |_e| {},
    );

    assert_eq!(result.unwrap(), RunExit::ProducerEnded);
    let (device, stats) = runner.stream.into_dac();
    assert_eq!(stats.points_written, 100);
    assert!(device.has_backend());
    assert!(device.start_stream(StreamConfig::new(60_000)).is_ok());
}

#[test]
fn a_recovered_device_is_dark_and_stopped() {
    let backend = TestBackend { stuck: true, ..TestBackend::connected() };
    let shutter_open = backend.shutter_open.clone();
    let mut runner = Runner::new(backend, StreamConfig::new(30000));
    runner.control.arm();
    runner.process_control_messages();
    assert!(shutter_open.load(Ordering::SeqCst));
    assert!(matches!(runner.stream.stop(), Err(Error::Backend(m)) if m == "stuck"));
    let (device, _) = runner.stream.into_dac();
    assert!(!shutter_open.load(Ordering::SeqCst));
    assert_eq!(device.backend.unwrap().stops, 2);
    assert!(!runner.control.flags.is_armed());
    assert!(runner.control.flags.is_stop_requested());
}

#[test]
fn a_stream_without_a_device_stops() {
    let mut runner = Runner::new(TestBackend::connected(), StreamConfig::new(30000));
    runner.stream.backend = None;
    assert!(runner.stream.stop().is_ok());
    assert!(runner.stream.into_dac().0.backend.is_none());
}

#[test]
fn test_stream_stats_tracking() {
    // Test that stream statistics are tracked correctly
    let mut runner = Runner::new(TestBackend::connected(), StreamConfig::new(30000));

    // Arm the stream
    runner.control.arm();

    let points_per_call = 50;
    let mut call_count = 0;
    let result = runner.run_fill(
        |req, buffer| {
            call_count += 1;
            if call_count <= 3 {
                let n = req.target_points.min(buffer.len()).min(points_per_call);
                fill(buffer, n, blanked())
            } else {
                ChunkResult::End
            }
        },
        |_e| {},
    );

    assert_eq!(result.unwrap(), RunExit::ProducerEnded);
    let stats = runner.stream.state.stats;
    assert_eq!((stats.chunks_written, stats.points_written, stats.underrun_count), (3, 150, 0));
    assert_eq!(runner.stream.state.current_instant, StreamInstant::new(150));
}

#[test]
fn test_stream_disarm_during_streaming() {
    // Test disarming stream while it's running
    let backend = TestBackend::connected();
    let shutter_open = backend.shutter_open.clone();
    let mut runner = Runner::new(backend, StreamConfig::new(30000));

    // Arm first
    runner.control.arm();
    assert!(runner.control.flags.is_armed());

    // Disarm and then stop while it runs
    runner.schedule.push_back((15 * MS, ControlMsg::Disarm));
    runner.schedule.push_back((30 * MS, ControlMsg::Stop));

    let result = runner.run_fill(
        |req, buffer| {
            let n = req.target_points.min(buffer.len()).min(10);
            fill(buffer, n, point(0.1, 0.1, 50000, 50000, 50000, 50000))
        },
        |_e| {},
    );

    assert_eq!(result.unwrap(), RunExit::Stopped);

    // Shutter should have been closed by disarm
    assert!(!shutter_open.load(Ordering::SeqCst));
}

#[test]
fn disarmed_streams_write_dark_points_in_place() {
    let mut runner = Runner::new(TestBackend::connected(), StreamConfig::new(30000));
    let written = runner.backend().written.clone();
    let mut call_count = 0;
    let result = runner.run_fill(
        |_req, buffer| {
            call_count += 1;
            if call_count == 1 {
                fill(buffer, 5, point(0.25, -0.75, 9, 8, 7, 6))
            } else {
                ChunkResult::End
            }
        },
        |_e| {},
    );
    assert_eq!(result.unwrap(), RunExit::ProducerEnded);
    assert_eq!(written.lock().unwrap()[..5], vec![point(0.25, -0.75, 0, 0, 0, 0); 5]);
    assert_eq!(runner.stream.state.last_chunk_len, 0);
}

#[test]
fn test_stream_with_mock_backend_disconnect() {
    // Test handling of backend disconnect during streaming
    let backend = TestBackend { disconnect_after: Some(3), ..TestBackend::connected() };
    let mut runner = Runner::new(backend, StreamConfig::new(30000));

    let mut errors = Vec::new();
    let result = runner.run_fill(
        |req, buffer| fill(buffer, req.target_points.min(buffer.len()).min(10), blanked()),
        |e| errors.push(e),
    );

    // Should return Disconnected when backend reports disconnection
    assert_eq!(result.unwrap(), RunExit::Disconnected);
    assert!(matches!(&errors[..], [Error::Disconnected(m)] if m == "backend disconnected"));
}

#[test]
fn write_errors_are_told_apart() {
    let run = |error: Error| {
        let backend = TestBackend { fail_next: Some(error), ..TestBackend::connected() };
        let mut runner = Runner::new(backend, StreamConfig::new(30000).with_drain_timeout(0));
        let mut errors = Vec::new();
        let mut call_count = 0;
        let result = runner.run_fill(
            |_req, buffer| {
                call_count += 1;
                if call_count == 1 {
                    fill(buffer, 1, blanked())
                } else {
                    ChunkResult::End
                }
            },
            |e| errors.push(e),
        );
        (result, errors)
    };
    let (result, errors) = run(Error::Stopped);
    assert!(result.unwrap_err().is_stopped() && errors.is_empty());
    let (result, errors) = run(Error::disconnected("unplugged"));
    assert_eq!(result.unwrap(), RunExit::Disconnected);
    assert!(matches!(&errors[..], [Error::Disconnected(m)] if m == "backend disconnected"));
    let (result, errors) = run(Error::backend("glitch"));
    assert_eq!(result.unwrap(), RunExit::ProducerEnded);
    assert!(matches!(&errors[..], [Error::Backend(m)] if m == "glitch"));
}

#[test]
fn streams_without_a_device_end() {
    let mut runner = Runner::new(TestBackend::connected(), StreamConfig::new(30000));
    runner.stream.backend = None;
    let mut errors = Vec::new();
    let result = runner.run_fill(|_req, _buffer| ChunkResult::Starved, |e| errors.push(e));
    assert_eq!(result.unwrap(), RunExit::Disconnected);
    assert!(matches!(&errors[..], [Error::Disconnected(m)] if m == "no backend"));
    assert!(!runner.stream.status().connected);
    runner.stream.phase = RunPhase::Writing { count: 1, armed: false };
    assert!(matches!(
        runner.stream.wrote(WriteReply::Missing),
        StreamAction::ReportAndFinish(Error::Disconnected(m), RunExit::Disconnected)
            if m == "no backend"
    ));
}

// =========================================================================
// Drain wait tests
// =========================================================================

/// Run a stream that ends at once; returns how long it took, in nanoseconds.
fn drain_time(backend: TestBackend, cfg: StreamConfig) -> u64 {
    let mut runner = Runner::new(backend, cfg);
    let result = runner.run_fill(|_req, _buffer| ChunkResult::End, |_e| {});
    assert_eq!(result.unwrap(), RunExit::ProducerEnded);
    runner.clock
}

#[test]
fn test_fill_result_end_drains_with_queue_depth() {
    let backend = TestBackend::connected().with_initial_queue(1000);
    // Simulate queue draining by setting it to 0 before the stream runs
    backend.queued.store(0, Ordering::SeqCst);
    let cfg = StreamConfig::new(30000).with_drain_timeout(100 * MS);
    // Should return quickly since queue was empty
    assert!(drain_time(backend, cfg) < 50 * MS);
}

#[test]
fn test_fill_result_end_respects_drain_timeout() {
    // Large queue that won't drain
    let backend = TestBackend::connected().with_initial_queue(100000);
    let cfg = StreamConfig::new(30000).with_drain_timeout(50 * MS);
    // Should timeout around 50ms, allow some margin
    let elapsed = drain_time(backend, cfg);
    assert!(elapsed >= 40 * MS && elapsed < 150 * MS, "took {elapsed}");
}

#[test]
fn test_fill_result_end_skips_drain_with_zero_timeout() {
    let backend = TestBackend::connected().with_initial_queue(100000);
    // Zero timeout = skip drain
    let cfg = StreamConfig::new(30000).with_drain_timeout(0);
    // Should return immediately
    assert!(drain_time(backend, cfg) < 20 * MS);
}

#[test]
fn test_fill_result_end_drains_without_queue_depth() {
    let cfg = StreamConfig::new(30000).with_drain_timeout(100 * MS);
    // Without queue depth, drain sleeps for estimated buffer time (0 here)
    // So should return quickly
    assert!(drain_time(TestBackend::no_queue(), cfg) < 50 * MS);
}

#[test]
fn drain_without_queue_depth_waits_for_the_points() {
    let mut runner = Runner::new(TestBackend::no_queue(), StreamConfig::new(30000));
    let mut call_count = 0;
    let result = runner.run_fill(
        |_req, buffer| {
            call_count += 1;
            if call_count == 1 {
                fill(buffer, 600, blanked())
            } else {
                ChunkResult::End
            }
        },
        |_e| {},
    );
    assert_eq!(result.unwrap(), RunExit::ProducerEnded);
    // 600 points last 20 ms.
    assert!(runner.clock >= 20 * MS && runner.clock < 21 * MS, "took {}", runner.clock);
}

#[test]
fn test_fill_result_end_closes_shutter() {
    // Test that shutter is closed after drain
    let backend = TestBackend::connected();
    let shutter_open = backend.shutter_open.clone();
    let cfg = StreamConfig::new(30000).with_drain_timeout(10 * MS);
    let mut runner = Runner::new(backend, cfg);

    // Arm the stream first
    runner.control.arm();

    let result = runner.run_fill(
        |req, buffer| {
            // Fill some points then end
            fill(buffer, req.target_points.min(buffer.len()).min(10), blanked());
            ChunkResult::End
        },
        |_e| {},
    );

    assert_eq!(result.unwrap(), RunExit::ProducerEnded);
    // Shutter should be closed after graceful shutdown
    assert!(!shutter_open.load(Ordering::SeqCst), "Shutter should be closed after drain");
}

// =========================================================================
// Devices
// =========================================================================

#[test]
fn devices_tell_what_they_are() {
    let backend = TestBackend::new();
    let caps = *backend.caps();
    let device = Dac::new(info_for(&backend), backend);
    assert_eq!((device.id(), device.name()), ("test", "Test Device"));
    assert!(matches!(device.kind(), DacType::Custom(name) if name == "Test"));
    assert_eq!(*device.caps(), caps);
    assert_eq!(device.info().id, "test");
    assert!(device.has_backend());
}

#[test]
fn rates_outside_the_device_range_are_refused() {
    let backend = TestBackend::new();
    let device = Dac::new(info_for(&backend), backend);
    let Err(err) = device.start_stream(StreamConfig::new(999)) else { panic!("refused") };
    assert!(matches!(
        err,
        Error::InvalidConfig(m) if m == "PPS 999 is outside device range [1000, 100000]"
    ));
    let caps = *TestBackend::new().caps();
    assert!(validate_config(&caps, &StreamConfig::new(100_000)).is_ok());
    assert!(validate_config(&caps, &StreamConfig::new(100_001)).is_err());
}

#[test]
fn used_devices_start_no_stream() {
    let backend = TestBackend::new();
    let mut device = Dac::new(info_for(&backend), backend);
    device.backend = None;
    assert!(!device.is_connected());
    let Err(err) = device.start_stream(StreamConfig::new(30_000)) else { panic!("refused") };
    assert!(matches!(
        err,
        Error::InvalidConfig(m) if m == "device backend has already been used for a stream"
    ));
}
