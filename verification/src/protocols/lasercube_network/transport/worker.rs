//! The sending thread: its queue, its packets on the way, and its deadlines.

use std::collections::VecDeque;

use vstd::prelude::*;

use crate::arith;
use crate::protocols::lasercube_network::ack::{
    self, parse_command_ack, parse_data_ack, AckSource, BufferAck,
};
use crate::protocols::lasercube_network::command;
use crate::protocols::lasercube_network::diagnostics;
use crate::protocols::lasercube_network::pacing::{self, packet_interval, send_budget, PacerInputs};
use crate::protocols::lasercube_network::packetizer::{self, encode_sample_packet};
use crate::protocols::lasercube_network::protocol::{Point, CMD_GET_FULL_INFO, DEFAULT_POINT_RATE};
use crate::protocols::lasercube_network::status::{self, LaserCubeNetworkStatus};
use crate::protocols::lasercube_network::transport::state::SharedTransportState;
use crate::protocols::lasercube_network::transport::{
    AddressedDevice, PriorityCommand, TransportCommand, DIAGNOSTIC_LOG_PERIOD,
    FULL_INFO_POLL_ACTIVE, FULL_INFO_POLL_INACTIVE, MAX_IDLE_SLEEP,
};
use crate::protocols::lasercube_network::{self, clamp_point_rate};

verus! {

/// What the sending thread keeps. Moments are in nanoseconds of one clock.
#[derive(Debug)]
pub struct TransportWorker {
    pub device: AddressedDevice,
    /// Points to be sent, in order.
    pub queue: VecDeque<Point>,
    /// The points of the packet that is being sent.
    pub packet_buffer: Vec<Point>,
    pub active_generation: u64,
    pub packet_sequence: u8,
    pub transfer_sequence: u8,
    /// When each packet that is not yet acknowledged was sent, by its sequence.
    pub packet_send_times: [Option<u64>; 256],
    /// Samples carried by each still-outstanding (sent-but-unacked) packet,
    /// indexed by packet sequence. Used to discount in-flight points from an
    /// ACK's reported free space. Zero means the slot is idle/acked.
    pub packet_sample_counts: [u16; 256],
    pub current_rate: u32,
    pub output_enabled: bool,
    pub next_send_due: u64,
    pub next_full_info_due: u64,
    pub next_diagnostic_log_due: u64,
    pub running: bool,
}

/// A worker with its collections as sequences.
pub struct WorkerView {
    pub device: AddressedDevice,
    pub queue: Seq<Point>,
    pub packet: Seq<Point>,
    pub active_generation: u64,
    pub packet_sequence: u8,
    pub transfer_sequence: u8,
    pub send_times: Seq<Option<u64>>,
    pub sample_counts: Seq<u16>,
    pub current_rate: u32,
    pub output_enabled: bool,
    pub next_send_due: u64,
    pub next_full_info_due: u64,
    pub next_diagnostic_log_due: u64,
    pub running: bool,
}

impl View for TransportWorker {
    type V = WorkerView;

    open spec fn view(&self) -> WorkerView {
        WorkerView {
            device: self.device,
            queue: self.queue@,
            packet: self.packet_buffer@,
            active_generation: self.active_generation,
            packet_sequence: self.packet_sequence,
            transfer_sequence: self.transfer_sequence,
            send_times: self.packet_send_times@,
            sample_counts: self.packet_sample_counts@,
            current_rate: self.current_rate,
            output_enabled: self.output_enabled,
            next_send_due: self.next_send_due,
            next_full_info_due: self.next_full_info_due,
            next_diagnostic_log_due: self.next_diagnostic_log_due,
            running: self.running,
        }
    }
}

/// How far `candidate` is ahead of `last`, counted up with wraparound.
pub open spec fn ahead(last: u8, candidate: u8) -> int {
    if candidate >= last {
        candidate - last
    } else {
        candidate - last + 256
    }
}

/// Whether `candidate` comes after `last`: less than half the range ahead.
pub open spec fn is_newer(last: u8, candidate: u8) -> bool {
    0 < ahead(last, candidate) < 128
}

/// RFC 1982-style sequence comparison: is `candidate` strictly newer than `last`
/// under u8 wraparound?
pub fn seq_newer(last: u8, candidate: u8) -> (r: bool)
    ensures
        r == is_newer(last, candidate),
{
    let distance: u8 = candidate.wrapping_sub(last);
    distance != 0 && distance < 128
}

/// The time between two status requests.
pub open spec fn poll_period(output_enabled: bool) -> u64 {
    if output_enabled {
        2_500_000_000
    } else {
        250_000_000
    }
}

pub fn full_info_poll_period(output_enabled: bool) -> (r: u64)
    ensures
        r == poll_period(output_enabled),
{
    if output_enabled {
        FULL_INFO_POLL_ACTIVE
    } else {
        FULL_INFO_POLL_INACTIVE
    }
}

/// Whether the device is still below its cutoff after `sent` more points.
pub open spec fn tops_up(free: usize, total: usize, cutoff: usize, sent: usize) -> bool {
    pacing::buffered(total as int, free as int) + sent < cutoff
}

pub fn should_continue_topup(
    free_estimate_before_send: usize,
    buffer_total: usize,
    remote_buffer_cutoff: usize,
    sent: usize,
) -> (r: bool)
    ensures
        r == tops_up(free_estimate_before_send, buffer_total, remote_buffer_cutoff, sent),
{
    let buffered_before_send: usize = buffer_total.saturating_sub(free_estimate_before_send);
    buffered_before_send.saturating_add(sent) < remote_buffer_cutoff
}

/// The samples of all packets on the way.
pub open spec fn total_samples(counts: Seq<u16>) -> int
    decreases counts.len(),
{
    if counts.len() == 0 {
        0
    } else {
        total_samples(counts.drop_last()) + counts.last()
    }
}

/// Whether the acknowledgment of `sequence` says that packet `i` has arrived: it is
/// the packet itself, or it was sent after the packet that was acknowledged last.
pub open spec fn settled(last: Option<u8>, sequence: u8, i: int) -> bool {
    ||| i == sequence
    ||| (last matches Some(prev) && is_newer(prev, sequence) && 0 < ahead(prev, i as u8) < ahead(
        prev,
        sequence,
    ))
}

impl WorkerView {
    /// The worker with nothing left to send.
    pub open spec fn emptied(self) -> WorkerView {
        WorkerView { queue: seq![], packet: seq![], ..self }
    }

    /// The worker after a packet has been acknowledged.
    pub open spec fn after_ack(self, last: Option<u8>, sequence: u8) -> WorkerView {
        WorkerView {
            send_times: Seq::new(
                256,
                |i: int|
                    if settled(last, sequence, i) {
                        None
                    } else {
                        self.send_times[i]
                    },
            ),
            sample_counts: Seq::new(
                256,
                |i: int|
                    if settled(last, sequence, i) {
                        0
                    } else {
                        self.sample_counts[i]
                    },
            ),
            ..self
        }
    }

    /// How many points the next packet has.
    pub open spec fn next_len(self, state: SharedTransportState) -> int {
        arith::least(state.profile.max_udp_samples_per_packet as int, self.queue.len() as int)
    }

    /// How many points may be sent by now.
    pub open spec fn budget(self, state: SharedTransportState) -> int {
        arith::least(
            arith::least(
                self.queue.len() as int,
                pacing::remote_room(
                    PacerInputs {
                        queue_len: self.queue.len() as usize,
                        free_estimate: state.free_estimate,
                        buffer_total: state.buffer_total,
                        remote_buffer_cutoff: state.profile.remote_buffer_cutoff,
                        per_tick_packet_budget: state.profile.max_udp_samples_per_packet,
                    },
                ),
            ),
            state.profile.max_udp_samples_per_packet as int,
        )
    }
}

/// The state after an acknowledgment with this much free space, of which the
/// samples on the way are still to be taken.
pub open spec fn state_with_free(
    state: SharedTransportState,
    free_space: u16,
    in_flight: int,
    now: u64,
) -> SharedTransportState {
    SharedTransportState {
        free_estimate: arith::least(
            pacing::buffered(free_space as int, in_flight),
            state.buffer_total as int,
        ) as usize,
        last_estimate: now,
        last_ack_free_space: Some(free_space),
        last_ack: Some(now),
        last_comms: Some(now),
        ..state
    }
}

/// The time that the packet was on the way, if it was; else what was known before.
pub open spec fn rtt_after(sent_at: Option<u64>, now: u64, before: Option<u64>) -> Option<u64> {
    match sent_at {
        Some(t) => Some(arith::since(now, t)),
        None => before,
    }
}

/// The state after the acknowledgment of a sample packet. One that is not newer
/// than the last only shows that the device lives.
pub open spec fn state_after_data_ack(
    state: SharedTransportState,
    worker: WorkerView,
    sequence: u8,
    free_space: u16,
    now: u64,
) -> SharedTransportState {
    let rtt = rtt_after(worker.send_times[sequence as int], now, state.last_ack_rtt);
    if state.last_data_ack_sequence matches Some(prev) && !is_newer(prev, sequence) {
        SharedTransportState { last_comms: Some(now), last_ack_rtt: rtt, ..state }
    } else {
        let in_flight = total_samples(
            worker.after_ack(state.last_data_ack_sequence, sequence).sample_counts,
        );
        SharedTransportState {
            last_data_ack_sequence: Some(sequence),
            last_ack_rtt: rtt,
            ..state_with_free(state, free_space, in_flight, now)
        }
    }
}

/// The state after an acknowledgment on either channel.
pub open spec fn state_after_ack(
    state: SharedTransportState,
    worker: WorkerView,
    ack: BufferAck,
    now: u64,
) -> SharedTransportState {
    match ack.packet_sequence {
        Some(sequence) => state_after_data_ack(state, worker, sequence, ack.free_space, now),
        None => state_with_free(state, ack.free_space, total_samples(worker.sample_counts), now),
    }
}

/// The worker after an acknowledgment on either channel.
pub open spec fn worker_after_ack(
    state: SharedTransportState,
    worker: WorkerView,
    ack: BufferAck,
) -> WorkerView {
    match ack.packet_sequence {
        Some(sequence) => worker.after_ack(state.last_data_ack_sequence, sequence),
        None => worker,
    }
}

proof fn lemma_total_samples(counts: Seq<u16>)
    ensures
        0 <= total_samples(counts) <= 65535 * counts.len(),
    decreases counts.len(),
{
    if counts.len() > 0 {
        lemma_total_samples(counts.drop_last());
    }
}

impl TransportWorker {
    pub fn new(device: AddressedDevice, now: u64) -> (r: TransportWorker)
        requires
            now + 1_000_000_000 <= u64::MAX,
        ensures
            r@ == (WorkerView {
                device,
                queue: seq![],
                packet: seq![],
                active_generation: 0,
                packet_sequence: 0,
                transfer_sequence: 0,
                send_times: Seq::new(256, |i: int| None),
                sample_counts: Seq::new(256, |i: int| 0u16),
                current_rate: lasercube_network::clamped_rate(device.status, 30_000),
                output_enabled: false,
                next_send_due: now,
                next_full_info_due: (now + 250_000_000) as u64,
                next_diagnostic_log_due: (now + 1_000_000_000) as u64,
                running: true,
            }),
    {
        let current_rate: u32 = clamp_point_rate(&device.status, DEFAULT_POINT_RATE);
        let r = TransportWorker {
            device,
            queue: VecDeque::new(),
            packet_buffer: Vec::new(),
            active_generation: 0,
            packet_sequence: 0,
            transfer_sequence: 0,
            packet_send_times: [None; 256],
            packet_sample_counts: [0; 256],
            current_rate,
            output_enabled: false,
            next_send_due: now,
            next_full_info_due: now + FULL_INFO_POLL_INACTIVE,
            next_diagnostic_log_due: now + DIAGNOSTIC_LOG_PERIOD,
            running: true,
        };
        assert(r@.send_times =~= Seq::new(256, |i: int| None));
        assert(r@.sample_counts =~= Seq::new(256, |i: int| 0u16));
        assert(r@.queue =~= seq![]);
        assert(r@.packet =~= seq![]);
        r
    }

    /// Total samples still outstanding across all sent-but-unacked packets.
    pub fn in_flight_samples(&self) -> (r: usize)
        ensures
            r == total_samples(self@.sample_counts),
    {
        let mut total: usize = 0;
        let mut i: usize = 0;
        assert(self@.sample_counts.take(0) =~= seq![]);
        while i < 256
            invariant
                i <= 256,
                total == total_samples(self@.sample_counts.take(i as int)),
                total <= 65535 * i,
            decreases 256 - i,
        {
            let count: u16 = self.packet_sample_counts[i];
            proof {
                let part = self@.sample_counts.take(i + 1);
                assert(part.drop_last() =~= self@.sample_counts.take(i as int));
                assert(part.last() == count);
            }
            total += count as usize;
            i += 1;
        }
        assert(self@.sample_counts.take(256) =~= self@.sample_counts);
        total
    }

    fn clear_pending_points(&mut self, state: &mut SharedTransportState)
        ensures
            final(self)@ == old(self)@.emptied(),
            *final(state) == (SharedTransportState { host_queue_len: 0, ..*old(state) }),
    {
        self.queue.clear();
        self.packet_buffer.clear();
        state.clear_host_queue();
        assert(self@.queue =~= seq![]);
        assert(self@.packet =~= seq![]);
    }

    pub fn apply_ack(&mut self, state: &mut SharedTransportState, now: u64, ack: BufferAck)
        ensures
            final(self)@ == worker_after_ack(*old(state), old(self)@, ack),
            *final(state) == state_after_ack(*old(state), old(self)@, ack, now),
            old(state).wf() ==> final(state).wf(),
    {
        match ack.packet_sequence {
            Some(sequence) => self.apply_data_ack(state, now, ack.free_space, sequence),
            None => self.apply_command_ack(state, now, ack.free_space),
        }
    }

    fn apply_data_ack(
        &mut self,
        state: &mut SharedTransportState,
        now: u64,
        free_space: u16,
        sequence: u8,
    )
        ensures
            final(self)@ == old(self)@.after_ack(old(state).last_data_ack_sequence, sequence),
            *final(state) == state_after_data_ack(
                *old(state),
                old(self)@,
                sequence,
                free_space,
                now,
            ),
            old(state).wf() ==> final(state).wf(),
    {
        let ghost before = self@;
        let ghost last = state.last_data_ack_sequence;
        let prev_sequence: Option<u8> = state.last_data_ack_sequence;
        // Take this packet's send slot regardless (records RTT, frees the slot).
        let sent_at: Option<u64> = self.packet_send_times[sequence as usize];
        self.packet_send_times[sequence as usize] = None;
        self.packet_sample_counts[sequence as usize] = 0;
        if let Some(t) = sent_at {
            state.last_ack_rtt = Some(now.saturating_sub(t));
        }
        state.last_comms = Some(now);

        // Reject ACKs that are not strictly newer than the last applied one:
        // out-of-order or duplicated ACKs must not rewind the buffer estimate.
        if let Some(prev) = prev_sequence {
            if !seq_newer(prev, sequence) {
                assert(self@.send_times =~= before.after_ack(last, sequence).send_times);
                assert(self@.sample_counts =~= before.after_ack(last, sequence).sample_counts);
                return;
            }
            // Packets between the last applied ACK and this one are delivered;
            // release their slots so they don't linger as phantom in-flight.

            let mut s: u8 = prev.wrapping_add(1);
            while s != sequence
                invariant
                    is_newer(prev, sequence),
                    0 < ahead(prev, s) <= ahead(prev, sequence),
                    self@ == (WorkerView {
                        send_times: self@.send_times,
                        sample_counts: self@.sample_counts,
                        ..before
                    }),
                    self@.send_times.len() == 256,
                    self@.sample_counts.len() == 256,
                    forall|i: int|
                        0 <= i < 256 ==> #[trigger] self@.send_times[i] == if i == sequence
                            || 0 < ahead(prev, i as u8) < ahead(prev, s) {
                            None
                        } else {
                            before.send_times[i]
                        },
                    forall|i: int|
                        0 <= i < 256 ==> #[trigger] self@.sample_counts[i] == if i == sequence
                            || 0 < ahead(prev, i as u8) < ahead(prev, s) {
                            0
                        } else {
                            before.sample_counts[i]
                        },
                decreases ahead(prev, sequence) - ahead(prev, s),
            {
                self.packet_send_times[s as usize] = None;
                self.packet_sample_counts[s as usize] = 0;
                s = s.wrapping_add(1);
            }
        }
        assert(self@.send_times =~= before.after_ack(last, sequence).send_times);
        assert(self@.sample_counts =~= before.after_ack(last, sequence).sample_counts);
        // Remaining outstanding packets were sent after this ACK's packet and
        // are not yet reflected in its reported free space: discount them.
        self.apply_free_space(state, now, free_space);
        state.last_data_ack_sequence = Some(sequence);
    }

    fn apply_command_ack(&mut self, state: &mut SharedTransportState, now: u64, free_space: u16)
        ensures
            final(self)@ == old(self)@,
            *final(state) == state_with_free(
                *old(state),
                free_space,
                total_samples(old(self)@.sample_counts),
                now,
            ),
            old(state).wf() ==> final(state).wf(),
    {
        // Command-channel ACKs carry no packet sequence, so they cannot be ordered
        // against data ACKs. Discount all outstanding in-flight samples to stay
        // conservative.
        self.apply_free_space(state, now, free_space);
    }

    fn apply_free_space(&self, state: &mut SharedTransportState, now: u64, free_space: u16)
        ensures
            *final(state) == state_with_free(
                *old(state),
                free_space,
                total_samples(self@.sample_counts),
                now,
            ),
            old(state).wf() ==> final(state).wf(),
    {
        let in_flight: usize = self.in_flight_samples();
        let adjusted_free: usize = (free_space as usize).saturating_sub(in_flight);
        state.free_estimate = if adjusted_free <= state.buffer_total {
            adjusted_free
        } else {
            state.buffer_total
        };
        state.last_estimate = now;
        state.last_ack_free_space = Some(free_space);
        state.last_ack = Some(now);
        state.last_comms = Some(now);
    }
}

/// What the thread finds in the queue of priority commands.
#[derive(Clone, Copy, Debug, PartialEq, Eq, Structural)]
pub enum PriorityEvent {
    Command(PriorityCommand),
    /// The handle is gone; the generation is the one it left behind.
    Closed { generation: u64 },
}

/// Whether the output is to be on after an event.
pub open spec fn output_after(event: PriorityEvent) -> bool {
    event matches PriorityEvent::Command(PriorityCommand::SetOutput { enabled, .. }) && enabled
}

/// The generation that an event starts.
pub open spec fn generation_after(event: PriorityEvent) -> u64 {
    match event {
        PriorityEvent::Command(PriorityCommand::SetOutput { generation, .. }) => generation,
        PriorityEvent::Command(PriorityCommand::StopOutput { generation }) => generation,
        PriorityEvent::Command(PriorityCommand::Shutdown { generation }) => generation,
        PriorityEvent::Closed { generation } => generation,
    }
}

/// Whether the thread goes on after an event.
pub open spec fn runs_after(event: PriorityEvent) -> bool {
    !(event is Closed) && !(event->0 is Shutdown)
}

/// The worker after an event.
pub open spec fn worker_after_event(worker: WorkerView, event: PriorityEvent, now: u64) -> WorkerView {
    let base = if output_after(event) {
        worker
    } else {
        worker.emptied()
    };
    WorkerView {
        active_generation: generation_after(event),
        output_enabled: output_after(event),
        next_full_info_due: if event is Command && event->0 is SetOutput {
            (now + poll_period(output_after(event))) as u64
        } else {
            worker.next_full_info_due
        },
        running: worker.running && runs_after(event),
        ..base
    }
}

/// The state after an event.
pub open spec fn state_after_event(state: SharedTransportState, event: PriorityEvent) -> SharedTransportState {
    SharedTransportState {
        status: LaserCubeNetworkStatus { output_enabled: output_after(event), ..state.status },
        host_queue_len: if output_after(event) {
            state.host_queue_len
        } else {
            0
        },
        ..state
    }
}

/// What becomes of points that were handed to the thread.
#[derive(Clone, Copy, Debug, PartialEq, Eq, Structural)]
pub enum EnqueueStep {
    /// They belong to an output that has been stopped.
    Dropped,
    /// They are queued, to be played at the current rate.
    Queued,
    /// They are queued; this rate is to be sent to the device.
    QueuedWithRate(u32),
}

/// Whether points still belong to the running output.
pub open spec fn is_current(worker: WorkerView, cmd: TransportCommand, generation: u64) -> bool {
    cmd.generation == worker.active_generation && cmd.generation == generation
}

/// The datagram that asks the device for an output it does not report.
pub open spec fn correction(wanted: bool, reported: bool) -> Option<bool> {
    if wanted == reported {
        None
    } else {
        Some(wanted)
    }
}

/// How to wait for a deadline.
#[derive(Clone, Copy, Debug, PartialEq, Eq, Structural)]
pub enum SleepStep {
    /// The deadline has come.
    Done,
    /// Sleep for so many nanoseconds and look again.
    Sleep(u64),
    /// Give way to other threads and look again.
    Yield,
}

/// The last part of a wait that is not slept through, in nanoseconds.
pub const BUSY_WAIT_THRESHOLD: u64 = 500_000;

/// How to wait at `now`: sleep at most a millisecond, and not through the last
/// half millisecond.
pub open spec fn sleep_at(now: u64, deadline: u64) -> SleepStep {
    if now >= deadline {
        SleepStep::Done
    } else if deadline - now > 500_000 {
        SleepStep::Sleep(arith::least(deadline - now - 500_000, 1_000_000) as u64)
    } else {
        SleepStep::Yield
    }
}

pub fn sleep_step(now: u64, deadline: u64) -> (r: SleepStep)
    ensures
        r == sleep_at(now, deadline),
{
    if now >= deadline {
        return SleepStep::Done;
    }
    let remaining: u64 = deadline - now;
    if remaining > BUSY_WAIT_THRESHOLD {
        let wait: u64 = remaining - BUSY_WAIT_THRESHOLD;
        SleepStep::Sleep(
            if wait <= MAX_IDLE_SLEEP {
                wait
            } else {
                MAX_IDLE_SLEEP
            },
        )
    } else {
        SleepStep::Yield
    }
}

impl TransportWorker {
    /// Carry out a priority command. The result says which output to ask of the
    /// device.
    pub fn process_priority_command(
        &mut self,
        state: &mut SharedTransportState,
        event: PriorityEvent,
        now: u64,
    ) -> (r: bool)
        requires
            now + 2_500_000_000 <= u64::MAX,
        ensures
            r == output_after(event),
            final(self)@ == worker_after_event(old(self)@, event, now),
            *final(state) == state_after_event(*old(state), event),
            old(state).wf() ==> final(state).wf(),
    {
        let enabled: bool = match event {
            PriorityEvent::Command(PriorityCommand::SetOutput { enabled, generation }) => {
                self.active_generation = generation;
                self.next_full_info_due = now + full_info_poll_period(enabled);
                enabled
            },
            PriorityEvent::Command(PriorityCommand::StopOutput { generation }) => {
                self.active_generation = generation;
                false
            },
            PriorityEvent::Command(PriorityCommand::Shutdown { generation }) => {
                self.active_generation = generation;
                self.running = false;
                false
            },
            PriorityEvent::Closed { generation } => {
                self.active_generation = generation;
                self.running = false;
                false
            },
        };
        if !enabled {
            self.clear_pending_points(state);
        }
        self.output_enabled = enabled;
        state.record_output_enabled(enabled);
        enabled
    }

    /// Take points from the handle. `generation` is the one the handle is at.
    pub fn process_command(
        &mut self,
        state: &mut SharedTransportState,
        cmd: TransportCommand,
        generation: u64,
    ) -> (r: EnqueueStep)
        ensures
            r == if !is_current(old(self)@, cmd, generation) {
                EnqueueStep::Dropped
            } else if cmd.point_rate == old(self).current_rate {
                EnqueueStep::Queued
            } else {
                EnqueueStep::QueuedWithRate(
                    lasercube_network::clamped_rate(old(state).status, cmd.point_rate),
                )
            },
            is_current(old(self)@, cmd, generation) ==> {
                &&& final(self)@ == (WorkerView {
                    queue: old(self)@.queue + cmd.points@,
                    ..old(self)@
                })
                &&& *final(state) == *old(state)
            },
            !is_current(old(self)@, cmd, generation) ==> {
                &&& final(self)@ == old(self)@
                &&& *final(state) == (SharedTransportState {
                    host_queue_len: pacing::buffered(
                        old(state).host_queue_len as int,
                        cmd.reservation.points as int,
                    ) as usize,
                    ..*old(state)
                })
            },
            old(state).wf() ==> final(state).wf(),
    {
        if cmd.generation != self.active_generation || cmd.generation != generation {
            state.release_host_points(cmd.reservation);
            return EnqueueStep::Dropped;
        }
        let ghost before = self@;
        let mut i: usize = 0;
        assert(before.queue + cmd.points@.take(0) =~= before.queue);
        while i < cmd.points.len()
            invariant
                i <= cmd.points@.len(),
                self@ == (WorkerView {
                    queue: before.queue + cmd.points@.take(i as int),
                    ..before
                }),
            decreases cmd.points.len() - i,
        {
            self.queue.push_back(cmd.points[i]);
            i += 1;
            assert(self@.queue =~= before.queue + cmd.points@.take(i as int));
        }
        assert(cmd.points@.take(i as int) =~= cmd.points@);
        if cmd.point_rate != self.current_rate {
            EnqueueStep::QueuedWithRate(clamp_point_rate(&state.status, cmd.point_rate))
        } else {
            EnqueueStep::Queued
        }
    }

    /// The handle is gone while commands were looked for.
    pub fn commands_closed(&mut self, state: &mut SharedTransportState)
        ensures
            final(self)@ == (WorkerView { running: false, ..old(self)@.emptied() }),
            *final(state) == (SharedTransportState { host_queue_len: 0, ..*old(state) }),
            old(state).wf() ==> final(state).wf(),
    {
        self.clear_pending_points(state);
        self.running = false;
    }

    /// The rate has been sent to the device.
    pub fn rate_sent(&mut self, state: &mut SharedTransportState, point_rate: u32)
        ensures
            final(self)@ == (WorkerView { current_rate: point_rate, ..old(self)@ }),
            *final(state) == (SharedTransportState {
                point_rate,
                status: LaserCubeNetworkStatus { point_rate, ..old(state).status },
                ..*old(state)
            }),
            old(state).wf() ==> final(state).wf(),
    {
        self.current_rate = point_rate;
        state.point_rate = point_rate;
        state.status.point_rate = point_rate;
    }

    /// Take a datagram from the command socket: a status, an acknowledgment, or the
    /// answer to another command. The result says which output to ask for again
    /// where the device reports another than is wanted. Both `set_output` datagrams
    /// may have been lost, which would leave a dark show or a stuck-on beam.
    pub fn receive_command_datagram(
        &mut self,
        state: &mut SharedTransportState,
        now: u64,
        data: &[u8],
    ) -> (r: Option<bool>)
        ensures
            data@.len() >= 1 && data@[0] == 0x77 ==> {
                &&& final(self)@ == old(self)@
                &&& !status::is_full_info(data@) ==> r is None && *final(state) == *old(state)
                &&& status::is_full_info(data@) ==> {
                    &&& final(state).status.reports(data@, old(self).device.source_addr.ip)
                    &&& *final(state) == old(state).with_status(final(state).status, now)
                    &&& r == correction(old(self).output_enabled, final(state).status.output_enabled)
                }
            },
            !(data@.len() >= 1 && data@[0] == 0x77) ==> r is None,
            !(data@.len() >= 1 && data@[0] == 0x77) && ack::is_ack(data@, AckSource::Command) ==> {
                let found = ack::ack_of(data@, AckSource::Command);
                let after = state_after_ack(*old(state), old(self)@, found, now);
                &&& final(self)@ == old(self)@
                &&& *final(state) == (SharedTransportState {
                    acks_received: arith::least(after.acks_received + 1, u64::MAX as int) as u64,
                    ..after
                })
            },
            !(data@.len() >= 1 && data@[0] == 0x77) && !ack::is_ack(data@, AckSource::Command) ==> {
                &&& final(self)@ == old(self)@
                &&& *final(state) == old(state).after_response(now, data@)
            },
            old(state).wf() ==> final(state).wf(),
    {
        if data.len() >= 1 && data[0] == CMD_GET_FULL_INFO {
            return match LaserCubeNetworkStatus::parse(data, self.device.ip()) {
                Ok(status) => {
                    let reported: bool = status.output_enabled;
                    state.apply_status(status, now);
                    self.reconcile_output_enable(reported)
                },
                Err(_) => None,
            };
        }
        match parse_command_ack(data) {
            Ok(found) => {
                self.apply_ack(state, now, found);
                state.acks_received = state.acks_received.saturating_add(1);
            },
            Err(_) => state.record_command_response(now, data),
        }
        None
    }

    /// Take a datagram from the data socket: an acknowledgment, or nothing of use.
    pub fn receive_data_datagram(
        &mut self,
        state: &mut SharedTransportState,
        now: u64,
        data: &[u8],
    )
        ensures
            ack::is_ack(data@, AckSource::Data) ==> {
                let found = ack::ack_of(data@, AckSource::Data);
                let after = state_after_ack(*old(state), old(self)@, found, now);
                &&& final(self)@ == worker_after_ack(*old(state), old(self)@, found)
                &&& *final(state) == (SharedTransportState {
                    acks_received: arith::least(after.acks_received + 1, u64::MAX as int) as u64,
                    ..after
                })
            },
            !ack::is_ack(data@, AckSource::Data) ==> final(self)@ == old(self)@ && *final(state)
                == *old(state),
            old(state).wf() ==> final(state).wf(),
    {
        if let Ok(found) = parse_data_ack(data) {
            self.apply_ack(state, now, found);
            state.acks_received = state.acks_received.saturating_add(1);
        }
    }

    /// Re-assert the intended output state when the device reports otherwise.
    pub fn reconcile_output_enable(&self, reported_enabled: bool) -> (r: Option<bool>)
        ensures
            r == correction(self.output_enabled, reported_enabled),
    {
        if reported_enabled == self.output_enabled {
            None
        } else {
            Some(self.output_enabled)
        }
    }

    /// Whether packets may be sent: not while a stop is on its way to the thread.
    pub fn may_send(&self, generation: u64) -> (r: bool)
        ensures
            r == (self.active_generation == generation),
    {
        self.active_generation == generation
    }

    /// Whether a packet is due.
    pub fn packet_due(&self, now: u64) -> (r: bool)
        ensures
            r == (now >= self.next_send_due && self@.queue.len() > 0),
    {
        now >= self.next_send_due && self.queue.len() > 0
    }

    /// Take the next packet from the queue: a full one, or what is left. There is
    /// none while the device has no room for all of it; then the worker waits
    /// rather than send a runt packet.
    pub fn begin_packet(&mut self, state: &mut SharedTransportState, now: u64) -> (r: Option<Vec<u8>>)
        requires
            now + old(self).device.profile.wait_buffer_sleep <= u64::MAX,
        ensures
            ({
                let n = old(self)@.next_len(*old(state));
                let waiting = WorkerView {
                    next_send_due: (now + old(self).device.profile.wait_buffer_sleep) as u64,
                    ..old(self)@
                };
                &&& r is Some <==> 0 < n <= 140 && n <= old(self)@.budget(*old(state))
                &&& r matches Some(datagram) ==> {
                    &&& datagram@ == packetizer::sample_packet(
                        old(self).packet_sequence,
                        old(self).transfer_sequence,
                        old(self)@.queue.take(n),
                    )
                    &&& final(self)@ == (WorkerView {
                        queue: old(self)@.queue.skip(n),
                        packet: old(self)@.queue.take(n),
                        ..old(self)@
                    })
                    &&& *final(state) == *old(state)
                }
                &&& n == 0 ==> final(self)@ == old(self)@ && *final(state) == *old(state)
                &&& n > 0 && n > old(self)@.budget(*old(state)) ==> final(self)@ == waiting
                    && *final(state) == *old(state)
                &&& 140 < n <= old(self)@.budget(*old(state)) ==> {
                    &&& final(self)@ == (WorkerView { packet: seq![], ..waiting })
                    &&& *final(state) == (SharedTransportState {
                        send_errors: arith::least(old(state).send_errors + 1, u64::MAX as int) as u64,
                        ..*old(state)
                    })
                }
            }),
            old(state).wf() ==> final(state).wf(),
    {
        let ghost before = self@;
        let budget: usize = send_budget(
            PacerInputs {
                queue_len: self.queue.len(),
                free_estimate: state.free_estimate,
                buffer_total: state.buffer_total,
                remote_buffer_cutoff: state.profile.remote_buffer_cutoff,
                per_tick_packet_budget: state.profile.max_udp_samples_per_packet,
            },
        );
        let full_packet: usize = state.profile.max_udp_samples_per_packet;
        let intended: usize = if full_packet <= self.queue.len() {
            full_packet
        } else {
            self.queue.len()
        };
        if intended == 0 {
            return None;
        }
        if budget < intended {
            self.next_send_due = now + self.device.profile.wait_buffer_sleep;
            return None;
        }
        self.packet_buffer.clear();
        let mut i: usize = 0;
        assert(before.queue.skip(0) =~= before.queue);
        assert(self.packet_buffer@ =~= before.queue.take(0));
        while i < intended
            invariant
                i <= intended <= before.queue.len(),
                self@ == (WorkerView {
                    queue: before.queue.skip(i as int),
                    packet: before.queue.take(i as int),
                    ..before
                }),
            decreases intended - i,
        {
            if let Some(point) = self.queue.pop_front() {
                self.packet_buffer.push(point);
            }
            i += 1;
            assert(self@.queue =~= before.queue.skip(i as int));
            assert(self@.packet =~= before.queue.take(i as int));
        }
        let mut datagram: Vec<u8> = Vec::new();
        match encode_sample_packet(
            self.packet_sequence,
            self.transfer_sequence,
            self.packet_buffer.as_slice(),
            &mut datagram,
        ) {
            Ok(()) => Some(datagram),
            Err(_) => {
                self.packet_failed(state, now);
                assert(self@.queue =~= before.queue);
                None
            },
        }
    }

    /// The packet has left. The result says whether to send on in this round, since
    /// the device is still below its cutoff.
    pub fn packet_sent(&mut self, state: &mut SharedTransportState, now: u64) -> (r: bool)
        requires
            old(self)@.packet.len() <= 140,
            now + 140_000_000_000 <= u64::MAX,
        ensures
            ({
                let sent = old(self)@.packet.len() as usize;
                &&& r == tops_up(
                    old(state).free_estimate,
                    old(state).buffer_total,
                    old(state).profile.remote_buffer_cutoff,
                    sent,
                )
                &&& *final(state) == old(state).after_send(now, sent)
                &&& final(self)@ == (WorkerView {
                    send_times: old(self)@.send_times.update(
                        old(self).packet_sequence as int,
                        Some(now),
                    ),
                    sample_counts: old(self)@.sample_counts.update(
                        old(self).packet_sequence as int,
                        sent as u16,
                    ),
                    packet_sequence: if old(self).packet_sequence == 255 {
                        0
                    } else {
                        (old(self).packet_sequence + 1) as u8
                    },
                    transfer_sequence: if old(self).transfer_sequence == 255 {
                        0
                    } else {
                        (old(self).transfer_sequence + 1) as u8
                    },
                    next_send_due: if r || sent == 0 || old(self).current_rate == 0 {
                        now
                    } else {
                        (now + pacing::samples_ns(sent as int, old(self).current_rate as int)) as u64
                    },
                    ..old(self)@
                })
            }),
            old(state).wf() ==> final(state).wf(),
    {
        let sent: usize = self.packet_buffer.len();
        let free_estimate: usize = state.free_estimate;
        self.packet_send_times[self.packet_sequence as usize] = Some(now);
        self.packet_sample_counts[self.packet_sequence as usize] = sent as u16;
        state.record_send(now, sent);
        self.packet_sequence = self.packet_sequence.wrapping_add(1);
        // The transfer sequence advances in lockstep with the packet sequence, which
        // the firmware tolerates.
        self.transfer_sequence = self.transfer_sequence.wrapping_add(1);
        if should_continue_topup(
            free_estimate,
            state.buffer_total,
            state.profile.remote_buffer_cutoff,
            sent,
        ) {
            self.next_send_due = now;
            true
        } else {
            let interval: u64 = packet_interval(sent, self.current_rate);
            proof {
                if sent > 0 && self.current_rate > 0 {
                    lemma_interval_bound(sent as int, self.current_rate as int);
                }
            }
            self.next_send_due = now + interval;
            false
        }
    }

    /// The packet could not be sent: its points go back to the head of the queue.
    pub fn packet_failed(&mut self, state: &mut SharedTransportState, now: u64)
        requires
            now + old(self).device.profile.wait_buffer_sleep <= u64::MAX,
        ensures
            final(self)@ == (WorkerView {
                queue: old(self)@.packet + old(self)@.queue,
                packet: seq![],
                next_send_due: (now + old(self).device.profile.wait_buffer_sleep) as u64,
                ..old(self)@
            }),
            *final(state) == (SharedTransportState {
                send_errors: arith::least(old(state).send_errors + 1, u64::MAX as int) as u64,
                ..*old(state)
            }),
            old(state).wf() ==> final(state).wf(),
    {
        let ghost before = self@;
        state.record_send_error();
        assert(before.packet.skip(before.packet.len() as int) + before.queue =~= before.queue);
        assert(before.packet.take(before.packet.len() as int) =~= before.packet);
        while self.packet_buffer.len() > 0
            invariant
                self@.packet.len() <= before.packet.len(),
                self@ == (WorkerView {
                    queue: before.packet.skip(self@.packet.len() as int) + before.queue,
                    packet: before.packet.take(self@.packet.len() as int),
                    ..before
                }),
            decreases self.packet_buffer.len(),
        {
            let ghost k = self@.packet.len() as int;
            if let Some(point) = self.packet_buffer.pop() {
                self.queue.push_front(point);
            }
            assert(self@.packet =~= before.packet.take(k - 1));
            assert(self@.queue =~= before.packet.skip(k - 1) + before.queue);
        }
        assert(before.packet.skip(0) =~= before.packet);
        assert(self@.packet =~= seq![]);
        self.next_send_due = now + self.device.profile.wait_buffer_sleep;
    }

    /// Whether to ask the device for its status, which is then noted as done.
    pub fn poll_full_info_if_due(&mut self, now: u64) -> (r: bool)
        requires
            now + 2_500_000_000 <= u64::MAX,
        ensures
            r == (now >= old(self).next_full_info_due),
            final(self)@ == if r {
                WorkerView {
                    next_full_info_due: (now + poll_period(old(self).output_enabled)) as u64,
                    ..old(self)@
                }
            } else {
                old(self)@
            },
    {
        if now < self.next_full_info_due {
            return false;
        }
        self.next_full_info_due = now + full_info_poll_period(self.output_enabled);
        true
    }

    /// Whether to log a snapshot: once a second, while there is output or something
    /// to send.
    pub fn log_diagnostics_if_due(&mut self, now: u64) -> (r: bool)
        requires
            now + 1_000_000_000 <= u64::MAX,
        ensures
            r == (now >= old(self).next_diagnostic_log_due && (old(self).output_enabled
                || old(self)@.queue.len() > 0)),
            final(self)@ == if now >= old(self).next_diagnostic_log_due {
                WorkerView { next_diagnostic_log_due: (now + 1_000_000_000) as u64, ..old(self)@ }
            } else {
                old(self)@
            },
    {
        if now < self.next_diagnostic_log_due {
            return false;
        }
        self.next_diagnostic_log_due = now + DIAGNOSTIC_LOG_PERIOD;
        self.output_enabled || self.queue.len() > 0
    }

    /// The instant the worker should next wake to do useful work. When points
    /// are queued this is the pacing deadline; when idle it honors the profile's
    /// `wait_buffer_sleep`, so that an empty queue is not polled without rest.
    pub fn next_wake(&self, now: u64) -> (r: u64)
        requires
            now + self.device.profile.wait_buffer_sleep <= u64::MAX,
        ensures
            r == if self@.queue.len() == 0 {
                (now + self.device.profile.wait_buffer_sleep) as u64
            } else if self.next_send_due >= now {
                self.next_send_due
            } else {
                now
            },
    {
        if self.queue.len() == 0 {
            now + self.device.profile.wait_buffer_sleep
        } else if self.next_send_due >= now {
            self.next_send_due
        } else {
            now
        }
    }
}

proof fn lemma_interval_bound(samples: int, rate: int)
    requires
        0 < samples <= 140,
        1 <= rate,
    ensures
        0 <= pacing::samples_ns(samples, rate) <= 140_000_000_000,
{
    let n = 2 * samples * 1_000_000_000;
    assert((n + rate) / (2 * rate) <= 140_000_000_000 && (n + rate) / (2 * rate) >= 0)
        by (nonlinear_arith)
        requires
            0 <= n <= 280_000_000_000,
            rate >= 1,
    ;
}

/// Of two sequence numbers at most one is newer than the other, and none is newer
/// than itself.
pub proof fn newer_is_one_way(a: u8, b: u8)
    ensures
        is_newer(a, b) ==> !is_newer(b, a),
        !is_newer(a, a),
{
}

/// The next packet's number is always newer than the last, also past 255.
pub proof fn next_is_newer(last: u8)
    ensures
        is_newer(last, if last == 255 { 0 } else { (last + 1) as u8 }),
{
}

/// Acknowledgments that come late or twice do not move the estimate: neither the
/// free space, nor the moment it holds for, nor the last sequence number.
pub proof fn stale_ack_keeps_estimate(
    state: SharedTransportState,
    worker: WorkerView,
    ack: BufferAck,
    prev: u8,
    sequence: u8,
    now: u64,
)
    requires
        state.last_data_ack_sequence == Some(prev),
        ack.packet_sequence == Some(sequence),
        !is_newer(prev, sequence),
    ensures
        ({
            let after = state_after_ack(state, worker, ack, now);
            &&& after.free_estimate == state.free_estimate
            &&& after.last_estimate == state.last_estimate
            &&& after.last_data_ack_sequence == state.last_data_ack_sequence
            &&& after.last_ack_free_space == state.last_ack_free_space
        }),
{
}

/// The same acknowledgment taken twice says no more than once.
pub proof fn repeated_ack_changes_nothing(
    state: SharedTransportState,
    worker: WorkerView,
    ack: BufferAck,
    sequence: u8,
    now: u64,
)
    requires
        worker.send_times.len() == 256,
        worker.sample_counts.len() == 256,
        ack.packet_sequence == Some(sequence),
    ensures
        ({
            let once = state_after_ack(state, worker, ack, now);
            let then = worker_after_ack(state, worker, ack);
            &&& state_after_ack(once, then, ack, now) == once
            &&& worker_after_ack(once, then, ack) == then
        }),
{
    let once = state_after_ack(state, worker, ack, now);
    let then = worker_after_ack(state, worker, ack);
    let twice = worker_after_ack(once, then, ack);
    assert(then.send_times[sequence as int] is None);
    newer_is_one_way(sequence, sequence);
    assert(twice.send_times =~= then.send_times);
    assert(twice.sample_counts =~= then.sample_counts);
}

/// The device is never thought to be freer than it says.
pub proof fn estimate_is_cautious(
    state: SharedTransportState,
    worker: WorkerView,
    ack: BufferAck,
    now: u64,
)
    requires
        ack.packet_sequence matches Some(sequence) ==> (state.last_data_ack_sequence matches Some(
            prev,
        ) ==> is_newer(prev, sequence)),
    ensures
        state_after_ack(state, worker, ack, now).free_estimate <= ack.free_space,
        state_after_ack(state, worker, ack, now).free_estimate <= state.buffer_total,
{
    lemma_total_samples(worker.sample_counts);
    if let Some(sequence) = ack.packet_sequence {
        lemma_total_samples(worker.after_ack(state.last_data_ack_sequence, sequence).sample_counts);
    }
}

/// A packet that is taken from the queue does not fill the device past its cutoff.
pub proof fn packets_keep_cutoff(state: SharedTransportState, worker: WorkerView)
    requires
        state.wf(),
        worker.queue.len() <= usize::MAX,
        0 < worker.next_len(state) <= worker.budget(state),
    ensures
        pacing::buffered(state.buffer_total as int, state.free_estimate as int) + worker.next_len(
            state,
        ) <= arith::least(state.profile.remote_buffer_cutoff as int, state.buffer_total as int),
{
}

/// Nothing is lost when a packet cannot be sent: the queue is then what it was
/// before the packet was taken from it.
pub proof fn failed_packet_keeps_queue(
    before: WorkerView,
    taken: WorkerView,
    after: WorkerView,
    n: int,
)
    requires
        0 <= n <= before.queue.len(),
        taken.queue == before.queue.skip(n),
        taken.packet == before.queue.take(n),
        after.queue == taken.packet + taken.queue,
    ensures
        after.queue == before.queue,
{
    assert(after.queue =~= before.queue);
}

/// Whether the host counts no more points than wait in the queue and on their way
/// to it.
pub open spec fn covered(state: SharedTransportState, queued: int, pending: int) -> bool {
    state.host_queue_len <= queued + pending
}

/// The host never counts points that are not there: not after a claim, after points
/// have reached the queue or were dropped on the way, after a packet has left, and
/// after the queue was emptied.
pub proof fn host_queue_is_not_overcounted(
    state: SharedTransportState,
    queued: int,
    pending: int,
    points: usize,
    now: u64,
)
    requires
        covered(state, queued, pending),
        queued >= 0,
        pending >= 0,
    ensures
        state.host_queue_len + points <= state.host_queue_capacity ==> covered(
            SharedTransportState {
                host_queue_len: (state.host_queue_len + points) as usize,
                ..state
            },
            queued,
            pending + points,
        ),
        points <= pending ==> covered(state, queued + points, pending - points),
        points <= pending ==> covered(
            SharedTransportState {
                host_queue_len: pacing::buffered(
                    state.host_queue_len as int,
                    points as int,
                ) as usize,
                ..state
            },
            queued,
            pending - points,
        ),
        points <= queued ==> covered(state.after_send(now, points), queued - points, pending),
        covered(SharedTransportState { host_queue_len: 0, ..state }, 0, pending),
{
}

/// When the output goes off, for whatever reason, nothing is left to send and
/// nothing counts as queued.
pub proof fn output_off_is_empty(
    state: SharedTransportState,
    worker: WorkerView,
    event: PriorityEvent,
    now: u64,
)
    requires
        !output_after(event),
    ensures
        worker_after_event(worker, event, now).queue == Seq::<Point>::empty(),
        worker_after_event(worker, event, now).packet == Seq::<Point>::empty(),
        state_after_event(state, event).host_queue_len == 0,
        !worker_after_event(worker, event, now).output_enabled,
        !state_after_event(state, event).status.output_enabled,
{
}

proof fn lemma_no_samples(counts: Seq<u16>)
    requires
        forall|i: int| 0 <= i < counts.len() ==> counts[i] == 0,
    ensures
        total_samples(counts) == 0,
    decreases counts.len(),
{
    if counts.len() > 0 {
        lemma_no_samples(counts.drop_last());
    }
}

proof fn lemma_samples_update(counts: Seq<u16>, i: int, n: u16)
    requires
        0 <= i < counts.len(),
    ensures
        total_samples(counts.update(i, n)) == total_samples(counts) - counts[i] + n,
    decreases counts.len(),
{
    let after = counts.update(i, n);
    if i == counts.len() - 1 {
        assert(after.drop_last() =~= counts.drop_last());
    } else {
        assert(after.drop_last() =~= counts.drop_last().update(i, n));
        lemma_samples_update(counts.drop_last(), i, n);
    }
}

/// A packet that has left in an idle slot counts as on the way, with all its points.
pub proof fn sent_packet_is_in_flight(worker: WorkerView, sent: u16)
    requires
        worker.sample_counts.len() == 256,
        worker.sample_counts[worker.packet_sequence as int] == 0,
    ensures
        total_samples(worker.sample_counts.update(worker.packet_sequence as int, sent))
            == total_samples(worker.sample_counts) + sent,
{
    lemma_samples_update(worker.sample_counts, worker.packet_sequence as int, sent);
}

/// Once the newest packet is acknowledged nothing counts as on the way, and the device
/// is believed: its free space is what it says, as far as it has a buffer.
pub proof fn newest_ack_is_believed(
    state: SharedTransportState,
    worker: WorkerView,
    ack: BufferAck,
    sequence: u8,
    now: u64,
)
    requires
        worker.sample_counts.len() == 256,
        ack.packet_sequence == Some(sequence),
        state.last_data_ack_sequence matches Some(prev) ==> is_newer(prev, sequence),
        forall|i: int|
            0 <= i < 256 && worker.sample_counts[i] != 0 ==> settled(
                state.last_data_ack_sequence,
                sequence,
                i,
            ),
    ensures
        total_samples(worker_after_ack(state, worker, ack).sample_counts) == 0,
        state_after_ack(state, worker, ack, now).free_estimate == arith::least(
            ack.free_space as int,
            state.buffer_total as int,
        ),
{
    let counts = worker.after_ack(state.last_data_ack_sequence, sequence).sample_counts;
    lemma_no_samples(counts);
}

/// Of the 127 numbers after the last one each is newer, counted round past 255, and no
/// other.
pub proof fn half_the_numbers_are_newer(last: u8, k: int)
    requires
        0 <= k < 256,
    ensures
        is_newer(last, ((last + k) % 256) as u8) <==> 1 <= k <= 127,
{
}

/// An acknowledgment settles its packet and those sent between the last acknowledged one
/// and it, and leaves every other packet on its way.
pub proof fn ack_settles_what_came_before(
    state: SharedTransportState,
    worker: WorkerView,
    ack: BufferAck,
    prev: u8,
    sequence: u8,
    k: int,
)
    requires
        worker.sample_counts.len() == 256,
        worker.send_times.len() == 256,
        state.last_data_ack_sequence == Some(prev),
        ack.packet_sequence == Some(sequence),
        is_newer(prev, sequence),
        1 <= k <= 256,
    ensures
        ({
            let after = worker_after_ack(state, worker, ack);
            let slot = (prev + k) % 256;
            let reached = (sequence - prev) % 256;
            &&& k <= reached ==> after.sample_counts[slot] == 0 && after.send_times[slot] is None
            &&& k > reached ==> after.sample_counts[slot] == worker.sample_counts[slot]
                && after.send_times[slot] == worker.send_times[slot]
            &&& after.queue == worker.queue
            &&& after.packet_sequence == worker.packet_sequence
        }),
{
}

/// Points that are on their way are taken off the room that the device tells: with them
/// the estimate makes up what it said, as far as it holds so much.
pub proof fn ack_discounts_points_on_the_way(
    state: SharedTransportState,
    worker: WorkerView,
    ack: BufferAck,
    now: u64,
)
    requires
        ack.packet_sequence matches Some(sequence) ==> (state.last_data_ack_sequence matches Some(
            prev,
        ) ==> is_newer(prev, sequence)),
    ensures
        ({
            let after = state_after_ack(state, worker, ack, now);
            let underway = total_samples(worker_after_ack(state, worker, ack).sample_counts);
            &&& underway >= 0
            &&& underway <= ack.free_space <= state.buffer_total + underway
                ==> after.free_estimate + underway == ack.free_space
            &&& underway > ack.free_space ==> after.free_estimate == 0
            &&& ack.free_space > state.buffer_total + underway ==> after.free_estimate
                == state.buffer_total
            &&& after.last_estimate == now
            &&& after.last_ack == Some(now)
            &&& after.last_ack_free_space == Some(ack.free_space)
            &&& ack.packet_sequence is Some ==> after.last_data_ack_sequence == ack.packet_sequence
            &&& ack.packet_sequence is None ==> after.last_data_ack_sequence
                == state.last_data_ack_sequence
        }),
{
    lemma_total_samples(worker_after_ack(state, worker, ack).sample_counts);
}

/// Every acknowledgment shows that the device lives, and how long its packet was on the
/// way, whether or not it is the newest. It changes neither what is queued nor what was
/// counted as sent.
pub proof fn ack_shows_life(
    state: SharedTransportState,
    worker: WorkerView,
    ack: BufferAck,
    now: u64,
)
    ensures
        ({
            let after = state_after_ack(state, worker, ack, now);
            &&& after.last_comms == Some(now)
            &&& after.host_queue_len == state.host_queue_len
            &&& after.buffer_total == state.buffer_total
            &&& after.point_rate == state.point_rate
            &&& after.packets_sent == state.packets_sent
            &&& after.samples_sent == state.samples_sent
            &&& after.connected == state.connected
            &&& ack.packet_sequence matches Some(i) ==> (worker.send_times[i as int] matches Some(
                t,
            ) ==> t <= now ==> after.last_ack_rtt == Some((now - t) as u64))
        }),
{
}

/// Packets go on in the same round just while the device stays below its cutoff with
/// what has been sent.
pub proof fn topping_up_stops_at_cutoff(free: usize, total: usize, cutoff: usize, sent: usize)
    requires
        free <= total,
    ensures
        tops_up(free, total, cutoff, sent) <==> total - free + sent < cutoff,
{
}

/// A packet is as full as it may be or takes the whole queue, and is sent as soon as the
/// device has room for all of it below its cutoff.
pub proof fn whole_packets_are_sent(state: SharedTransportState, worker: WorkerView)
    requires
        state.wf(),
        worker.queue.len() <= usize::MAX,
    ensures
        ({
            let n = worker.next_len(state);
            let held = state.buffer_total - state.free_estimate;
            &&& n == worker.queue.len() || n == state.profile.max_udp_samples_per_packet
            &&& n <= worker.queue.len()
            &&& n <= state.profile.max_udp_samples_per_packet
            &&& n > 0 ==> (n <= worker.budget(state) <==> held + n <= state.buffer_total && held + n
                <= state.profile.remote_buffer_cutoff)
        }),
{
}

/// Only an event that turns the output on leaves points to send; each starts the
/// generation it names. The thread ends with a shutdown or when its handle is gone.
pub proof fn event_sets_output_and_generation(
    state: SharedTransportState,
    worker: WorkerView,
    event: PriorityEvent,
    generation: u64,
    now: u64,
)
    requires
        worker.running,
        now + 2_500_000_000 <= u64::MAX,
        ({
            ||| event == PriorityEvent::Command(PriorityCommand::SetOutput { enabled: true, generation })
            ||| event == PriorityEvent::Command(PriorityCommand::SetOutput { enabled: false, generation })
            ||| event == PriorityEvent::Command(PriorityCommand::StopOutput { generation })
            ||| event == PriorityEvent::Command(PriorityCommand::Shutdown { generation })
            ||| event == PriorityEvent::Closed { generation }
        }),
    ensures
        ({
            let on = event == PriorityEvent::Command(
                PriorityCommand::SetOutput { enabled: true, generation },
            );
            let after = worker_after_event(worker, event, now);
            &&& after.active_generation == generation
            &&& after.output_enabled == on
            &&& state_after_event(state, event).status.output_enabled == on
            &&& on ==> after.queue == worker.queue && state_after_event(state, event).host_queue_len
                == state.host_queue_len
            &&& !on ==> after.queue.len() == 0 && state_after_event(state, event).host_queue_len == 0
            &&& after.running <==> !(event is Closed) && !(event->0 is Shutdown)
            &&& on ==> after.next_full_info_due == now + 2_500_000_000
            &&& after.packet_sequence == worker.packet_sequence
            &&& after.sample_counts == worker.sample_counts
            &&& after.current_rate == worker.current_rate
            &&& state_after_event(state, event).free_estimate == state.free_estimate
        }),
{
}

/// The device is asked again for the output that is wanted, just when it reports the
/// other one.
pub proof fn wrong_output_is_corrected(wanted: bool, reported: bool)
    ensures
        correction(wanted, reported) is Some <==> wanted != reported,
        correction(wanted, reported) matches Some(asked) ==> asked == wanted && asked != reported,
{
}

/// A status is asked for four times a second while there is no output, and every two and a
/// half seconds while there is.
pub proof fn status_is_polled()
    ensures
        poll_period(false) * 4 == 1_000_000_000,
        poll_period(true) * 2 == 5_000_000_000,
{
}

/// No wait sleeps past its deadline, nor into the last half millisecond before it, nor for
/// more than a millisecond at a time.
pub proof fn wait_ends_at_deadline(now: u64, deadline: u64)
    ensures
        sleep_at(now, deadline) is Done <==> now >= deadline,
        sleep_at(now, deadline) is Yield <==> now < deadline <= now + 500_000,
        sleep_at(now, deadline) matches SleepStep::Sleep(ns) ==> {
            &&& 0 < ns <= 1_000_000
            &&& now + ns + 500_000 <= deadline
            &&& ns == 1_000_000 || now + ns + 500_000 == deadline
        },
{
}

/// Points are queued behind those that wait, all of them and in their order, if they
/// belong to the running output. Otherwise none is, and their claim is given up. The
/// device is told of a rate only when it is another than the current one, and never of
/// more than it plays.
pub proof fn queue_keeps_order()
    ensures
        forall|
            w: &mut TransportWorker,
            s: &mut SharedTransportState,
            cmd: TransportCommand,
            generation: u64,
            r: EnqueueStep,
        |
            #[trigger] call_ensures(
                TransportWorker::process_command,
                (w, s, cmd, generation),
                r,
            ) ==> {
                let current = cmd.generation == generation && w.active_generation == generation;
                &&& current ==> final(w)@.queue == w@.queue + cmd.points@ && *final(s) == *s
                &&& !current ==> r is Dropped && final(w)@ == w@
                &&& !current && cmd.reservation.points <= s.host_queue_len
                    ==> final(s).host_queue_len == s.host_queue_len - cmd.reservation.points
                &&& current ==> (r is Queued <==> cmd.point_rate == w.current_rate)
                &&& r matches EnqueueStep::QueuedWithRate(rate) ==> current && rate
                    <= lasercube_network::point_rate_max_of(s.status) && (cmd.point_rate > 0
                    ==> rate <= cmd.point_rate)
            },
{
    assert forall|
        w: &mut TransportWorker,
        s: &mut SharedTransportState,
        cmd: TransportCommand,
        generation: u64,
        r: EnqueueStep,
    |
        #[trigger] call_ensures(
            TransportWorker::process_command,
            (w, s, cmd, generation),
            r,
        ) implies (r matches EnqueueStep::QueuedWithRate(rate) ==> rate
        <= lasercube_network::point_rate_max_of(s.status) && (cmd.point_rate > 0 ==> rate
        <= cmd.point_rate)) by {
        lasercube_network::rate_is_held_to_device(s.status, cmd.point_rate);
    }
}

/// A packet takes its points from the head of the queue; the rest waits in its order. As
/// long as it is not sent, nothing counts as sent.
pub proof fn packet_takes_head_of_queue()
    ensures
        forall|w: &mut TransportWorker, s: &mut SharedTransportState, now: u64, r: Option<Vec<u8>>|
            #[trigger] call_ensures(TransportWorker::begin_packet, (w, s, now), r) ==> {
                &&& r matches Some(datagram) ==> {
                    &&& final(w)@.packet + final(w)@.queue =~= w@.queue
                    &&& 0 < final(w)@.packet.len() <= 140
                    &&& datagram@ == packetizer::sample_packet(
                        w.packet_sequence,
                        w.transfer_sequence,
                        final(w)@.packet,
                    )
                }
                &&& r is None ==> final(w)@.queue =~= w@.queue
                &&& final(s).free_estimate == s.free_estimate
                &&& final(s).host_queue_len == s.host_queue_len
                &&& final(s).samples_sent == s.samples_sent
                &&& final(w)@.sample_counts == w@.sample_counts
                &&& final(w)@.packet_sequence == w@.packet_sequence
            },
{
}

/// A packet that has left is on its way under its number, the next packet gets the next
/// number, and the device is thought to hold its points. The next one is due at once
/// while the device is topped up, and else when this one has been played.
pub proof fn sent_packet_is_accounted_for()
    ensures
        forall|w: &mut TransportWorker, s: &mut SharedTransportState, now: u64, r: bool|
            #[trigger] call_ensures(TransportWorker::packet_sent, (w, s, now), r)
                && now + 140_000_000_000 <= u64::MAX && w@.packet.len() <= 140 ==> {
                let sent = w@.packet.len();
                &&& final(w)@.sample_counts[w.packet_sequence as int] == sent
                &&& final(w)@.send_times[w.packet_sequence as int] == Some(now)
                &&& final(w)@.packet_sequence == (w.packet_sequence + 1) % 256
                &&& final(w)@.transfer_sequence == (w.transfer_sequence + 1) % 256
                &&& final(w)@.queue == w@.queue
                &&& sent <= s.free_estimate ==> final(s).free_estimate == s.free_estimate - sent
                &&& sent <= s.host_queue_len ==> final(s).host_queue_len == s.host_queue_len - sent
                &&& r ==> final(w)@.next_send_due == now
                &&& !r && sent > 0 && w.current_rate > 0 ==> {
                    let lasts = final(w)@.next_send_due - now;
                    &&& 2 * lasts * w.current_rate <= 2 * sent * 1_000_000_000 + w.current_rate
                    &&& 2 * sent * 1_000_000_000 < 2 * lasts * w.current_rate + w.current_rate
                }
            },
{
    assert forall|w: &mut TransportWorker, s: &mut SharedTransportState, now: u64, r: bool|
        #[trigger] call_ensures(TransportWorker::packet_sent, (w, s, now), r) && now
            + 140_000_000_000 <= u64::MAX && w@.packet.len() <= 140 && !r && w@.packet.len() > 0
            && w.current_rate > 0 implies {
        let lasts = final(w)@.next_send_due - now;
        let sent = w@.packet.len();
        &&& 2 * lasts * w.current_rate <= 2 * sent * 1_000_000_000 + w.current_rate
        &&& 2 * sent * 1_000_000_000 < 2 * lasts * w.current_rate + w.current_rate
    } by {
        lemma_interval_bound(w@.packet.len() as int, w.current_rate as int);
        pacing::interval_is_nearest(w@.packet.len() as int, w.current_rate as int);
    }
}

/// A packet that could not be sent goes back to the head of the queue, and is counted
/// neither as sent nor as gone from the host.
pub proof fn failed_packet_goes_back()
    ensures
        forall|w: &mut TransportWorker, s: &mut SharedTransportState, now: u64|
            #[trigger] call_ensures(TransportWorker::packet_failed, (w, s, now), ()) ==> {
                &&& final(w)@.queue == w@.packet + w@.queue
                &&& final(w)@.packet.len() == 0
                &&& final(w)@.packet_sequence == w@.packet_sequence
                &&& final(w)@.sample_counts == w@.sample_counts
                &&& final(s).host_queue_len == s.host_queue_len
                &&& final(s).free_estimate == s.free_estimate
                &&& final(s).samples_sent == s.samples_sent
                &&& s.send_errors < u64::MAX ==> final(s).send_errors == s.send_errors + 1
            },
{
}

/// A datagram on the data channel that is no acknowledgment is ignored; each
/// acknowledgment is counted, on either channel.
pub proof fn acknowledgments_are_counted()
    ensures
        forall|w: &mut TransportWorker, s: &mut SharedTransportState, now: u64, data: &[u8]|
            #[trigger] call_ensures(
                TransportWorker::receive_data_datagram,
                (w, s, now, data),
                (),
            ) && s.acks_received < u64::MAX ==> {
                &&& ack::is_ack(data@, AckSource::Data) ==> final(s).acks_received
                    == s.acks_received + 1
                &&& !ack::is_ack(data@, AckSource::Data) ==> *final(s) == *s && final(w)@ == w@
                &&& final(w)@.queue == w@.queue
            },
        forall|
            w: &mut TransportWorker,
            s: &mut SharedTransportState,
            now: u64,
            data: &[u8],
            r: Option<bool>,
        |
            #[trigger] call_ensures(
                TransportWorker::receive_command_datagram,
                (w, s, now, data),
                r,
            ) && s.acks_received < u64::MAX && data@.len() >= 1 && data@[0] != 0x77 ==> {
                &&& r is None
                &&& final(w)@ == w@
                &&& ack::is_ack(data@, AckSource::Command) ==> final(s).acks_received
                    == s.acks_received + 1 && final(s).last_comms == Some(now)
                &&& !ack::is_ack(data@, AckSource::Command) ==> final(s).acks_received
                    == s.acks_received && final(s).free_estimate == s.free_estimate
            },
{
}

/// A status that is told is taken over, and where it reports another output than is
/// wanted, the wanted one is asked for again.
pub proof fn told_status_is_taken_over()
    ensures
        forall|
            w: &mut TransportWorker,
            s: &mut SharedTransportState,
            now: u64,
            data: &[u8],
            r: Option<bool>,
        |
            #[trigger] call_ensures(
                TransportWorker::receive_command_datagram,
                (w, s, now, data),
                r,
            ) && status::is_full_info(data@) ==> {
                let told = final(s).status;
                &&& told.reports(data@, w.device.source_addr.ip)
                &&& told.buffer_free <= told.buffer_max && told.buffer_max > 0
                    ==> final(s).free_estimate == told.buffer_free && final(s).buffer_total
                    == told.buffer_max
                &&& final(s).last_comms == Some(now)
                &&& final(s).last_full_info == Some(now)
                &&& final(s).last_estimate == now
                &&& final(s).host_queue_len == s.host_queue_len
                &&& r is Some <==> told.output_enabled != w.output_enabled
                &&& r matches Some(asked) ==> asked == w.output_enabled
                &&& final(w)@ == w@
            },
{
}

/// The worker wakes for the next packet when it is due, and no earlier than now; with
/// nothing to send it rests.
pub proof fn worker_wakes_when_due()
    ensures
        forall|w: &TransportWorker, now: u64, r: u64|
            #[trigger] call_ensures(TransportWorker::next_wake, (w, now), r) && now
                + w.device.profile.wait_buffer_sleep <= u64::MAX ==> {
                &&& r >= now
                &&& w@.queue.len() > 0 ==> r >= w.next_send_due && (r == now || r
                    == w.next_send_due)
                &&& w@.queue.len() == 0 ==> r == now + w.device.profile.wait_buffer_sleep
            },
        forall|w: &TransportWorker, now: u64, r: bool|
            #[trigger] call_ensures(TransportWorker::packet_due, (w, now), r) ==> (r <==> now
                >= w.next_send_due && w@.queue.len() > 0),
        forall|w: &TransportWorker, generation: u64, r: bool|
            #[trigger] call_ensures(TransportWorker::may_send, (w, generation), r) ==> (r
                <==> generation == w.active_generation),
{
}

/// What the calls of the thread return and change is what is shown of it: acknowledgments,
/// events and deadlines act on the parts that they concern.
pub proof fn calls_act_on_what_is_shown()
    ensures
        forall|w: &mut TransportWorker, s: &mut SharedTransportState, now: u64, ack: BufferAck|
            #[trigger] call_ensures(TransportWorker::apply_ack, (w, s, now, ack), ()) ==> final(w)@
                == worker_after_ack(*s, w@, ack) && *final(s) == state_after_ack(*s, w@, ack, now),
        forall|
            w: &mut TransportWorker,
            s: &mut SharedTransportState,
            event: PriorityEvent,
            now: u64,
            r: bool,
        | #[trigger]
            call_ensures(TransportWorker::process_priority_command, (w, s, event, now), r) && now
                + 2_500_000_000 <= u64::MAX ==> {
                &&& r == output_after(event)
                &&& final(w)@ == worker_after_event(w@, event, now)
                &&& *final(s) == state_after_event(*s, event)
                &&& !r ==> final(w).queue@.len() == 0
                &&& final(w).output_enabled == r
            },
        forall|w: &mut TransportWorker, s: &mut SharedTransportState| #[trigger]
            call_ensures(TransportWorker::commands_closed, (w, s), ()) ==> !final(w).running
                && final(w).queue@.len() == 0 && final(s).host_queue_len == 0,
        forall|w: &mut TransportWorker, s: &mut SharedTransportState, rate: u32| #[trigger]
            call_ensures(TransportWorker::rate_sent, (w, s, rate), ()) ==> final(w).current_rate
                == rate && final(s).point_rate == rate && final(s).status.point_rate == rate
                && final(w).queue@ == w.queue@ && final(s).free_estimate == s.free_estimate,
        forall|w: &mut TransportWorker, now: u64, r: bool| #[trigger]
            call_ensures(TransportWorker::poll_full_info_if_due, (w, now), r) && now + 2_500_000_000
                <= u64::MAX ==> {
                &&& r <==> now >= w.next_full_info_due
                &&& r && w.output_enabled ==> final(w).next_full_info_due == now + 2_500_000_000
                &&& r && !w.output_enabled ==> final(w).next_full_info_due == now + 250_000_000
                &&& !r ==> final(w).next_full_info_due == w.next_full_info_due
                &&& final(w).queue@ == w.queue@
            },
        forall|w: &mut TransportWorker, now: u64, r: bool| #[trigger]
            call_ensures(TransportWorker::log_diagnostics_if_due, (w, now), r) && now
                + 1_000_000_000 <= u64::MAX ==> {
                &&& r <==> now >= w.next_diagnostic_log_due && (w.output_enabled || w.queue@.len()
                    > 0)
                &&& now >= w.next_diagnostic_log_due ==> final(w).next_diagnostic_log_due == now
                    + 1_000_000_000
                &&& now < w.next_diagnostic_log_due ==> final(w).next_diagnostic_log_due
                    == w.next_diagnostic_log_due
            },
        forall|w: &TransportWorker, reported: bool, r: Option<bool>| #[trigger]
            call_ensures(TransportWorker::reconcile_output_enable, (w, reported), r) ==> {
                &&& r is None <==> reported == w.output_enabled
                &&& r matches Some(on) ==> on == w.output_enabled
            },
        forall|w: &TransportWorker, r: usize| #[trigger]
            call_ensures(TransportWorker::in_flight_samples, (w,), r) ==> r == total_samples(
                w.packet_sample_counts@,
            ),
{
}

/// The choices of the thread are the rules: which number is newer, how often a status is
/// asked for, when to send on, and how to wait.
pub proof fn choices_go_by_the_rules()
    ensures
        forall|last: u8, k: u8, r: bool| #[trigger]
            call_ensures(seq_newer, (last, k), r) ==> (r <==> 1 <= (k - last) % 256 <= 127),
        forall|on: bool, r: u64| #[trigger]
            call_ensures(full_info_poll_period, (on,), r) ==> r == if on {
                2_500_000_000u64
            } else {
                250_000_000u64
            },
        forall|free: usize, total: usize, cutoff: usize, sent: usize, r: bool| #[trigger]
            call_ensures(should_continue_topup, (free, total, cutoff, sent), r) && free <= total
                ==> (r <==> total - free + sent < cutoff),
        forall|now: u64, deadline: u64, r: SleepStep| #[trigger]
            call_ensures(sleep_step, (now, deadline), r) ==> {
                &&& r is Done <==> now >= deadline
                &&& r is Yield <==> now < deadline <= now + 500_000
                &&& r matches SleepStep::Sleep(ns) ==> 0 < ns <= 1_000_000 && now + ns + 500_000
                    <= deadline
            },
{
}

/// What is shown of the thread is what it holds, part by part.
pub proof fn worker_is_seen_as_it_is(w: TransportWorker)
    ensures
        w@.device == w.device,
        w@.queue == w.queue@,
        w@.packet == w.packet_buffer@,
        w@.active_generation == w.active_generation,
        w@.packet_sequence == w.packet_sequence,
        w@.transfer_sequence == w.transfer_sequence,
        w@.send_times == w.packet_send_times@,
        w@.sample_counts == w.packet_sample_counts@,
        w@.current_rate == w.current_rate,
        w@.output_enabled == w.output_enabled,
        w@.next_send_due == w.next_send_due,
        w@.next_full_info_due == w.next_full_info_due,
        w@.next_diagnostic_log_due == w.next_diagnostic_log_due,
        w@.running == w.running,
{
}

} // verus!
