//! The side of the transport that hands points and commands to the thread.

use vstd::prelude::*;
use vstd::string::*;

use crate::error::IoError;
use crate::protocols::lasercube_network::error::CommunicationError;
use crate::protocols::lasercube_network::protocol::{Point, CMD_GET_FULL_INFO};
use crate::protocols::lasercube_network::transport::state::SharedTransportState;
use crate::protocols::lasercube_network::transport::worker::{self, WorkerView};
use crate::protocols::lasercube_network::transport::{
    would_block, AddressedDevice, PriorityCommand, TransportCommand,
};

verus! {

/// Per-attempt timeout for the connect-time reachability handshake, in nanoseconds.
pub const CONNECT_HANDSHAKE_TIMEOUT: u64 = 300_000_000;

/// Number of retries (in addition to the first attempt) for the handshake.
pub const CONNECT_HANDSHAKE_RETRIES: u32 = 2;

/// The handshake that shows that a device is reachable before it is reported as
/// connected.
#[derive(Clone, Copy, Debug, PartialEq, Eq, Structural)]
pub struct Handshake {
    /// Requests that may still be sent after the one under way.
    pub retries_left: u32,
}

/// What to do next in a handshake.
#[derive(Debug)]
pub enum HandshakeStep {
    /// Send the full-info request (again) and wait for the answer.
    Request,
    /// Wait on: another answer has arrived.
    Wait,
    /// The device is reachable.
    Reachable,
    /// It is not.
    Failed(CommunicationError),
}

impl Handshake {
    /// Start with the first request.
    pub fn start() -> (r: Handshake)
        ensures
            r.retries_left == 2,
    {
        Handshake { retries_left: CONNECT_HANDSHAKE_RETRIES }
    }

    /// A datagram has arrived.
    pub fn on_datagram(&self, data: &[u8]) -> (r: HandshakeStep)
        ensures
            r == if data@.len() >= 1 && data@[0] == 0x77 {
                HandshakeStep::Reachable
            } else {
                HandshakeStep::Wait
            },
    {
        if data.len() >= 1 && data[0] == CMD_GET_FULL_INFO {
            HandshakeStep::Reachable
        } else {
            HandshakeStep::Wait
        }
    }

    /// Nothing has arrived in time, or the socket failed.
    pub fn on_error(&mut self, err: IoError) -> (r: HandshakeStep)
        ensures
            ({
                let silent = err.kind is WouldBlock || err.kind is TimedOut;
                &&& !silent ==> r == HandshakeStep::Failed(CommunicationError::Io(err))
                    && *final(self) == *old(self)
                &&& silent && old(self).retries_left > 0 ==> r is Request && final(self).retries_left
                    == old(self).retries_left - 1
                &&& silent && old(self).retries_left == 0 ==> {
                    &&& *final(self) == *old(self)
                    &&& r matches HandshakeStep::Failed(CommunicationError::Protocol(m)) && m@
                        == "LaserCube network device did not respond to full-info handshake"@
                }
            }),
    {
        if !would_block(&err) {
            return HandshakeStep::Failed(CommunicationError::Io(err));
        }
        if self.retries_left > 0 {
            self.retries_left = self.retries_left - 1;
            HandshakeStep::Request
        } else {
            HandshakeStep::Failed(
                CommunicationError::Protocol(
                    "LaserCube network device did not respond to full-info handshake".to_owned(),
                ),
            )
        }
    }
}

/// A connection as its user sees it. The thread reads the generation and shares the
/// state.
#[derive(Debug)]
pub struct TransportHandle {
    /// Counts the stops. Points of an earlier generation are not played.
    pub generation: u64,
    pub state: SharedTransportState,
}

/// The generation after a stop.
pub open spec fn next_generation(generation: u64) -> u64 {
    if generation == u64::MAX {
        0
    } else {
        (generation + 1) as u64
    }
}

impl TransportHandle {
    /// A device that has answered the handshake.
    pub fn connect(device: &AddressedDevice, now: u64) -> (r: TransportHandle)
        requires
            device.profile.max_udp_samples_per_packet * 8 <= usize::MAX,
        ensures
            r.generation == 0,
            r.state == SharedTransportState::fresh(device.status, device.profile, now),
            r.state.wf(),
            r.state.usable_at(now),
    {
        TransportHandle {
            generation: 0,
            state: SharedTransportState::new(&device.status, device.profile, now),
        }
    }

    /// Claim room for points. What comes back goes to the thread.
    pub fn enqueue(&mut self, point_rate: u32, points: Vec<Point>) -> (r: Result<
        TransportCommand,
        CommunicationError,
    >)
        requires
            old(self).state.wf(),
        ensures
            final(self).state.wf(),
            final(self).generation == old(self).generation,
            r is Ok <==> old(self).state.host_queue_len + points@.len()
                <= old(self).state.host_queue_capacity,
            r matches Ok(cmd) ==> {
                &&& cmd.generation == old(self).generation
                &&& cmd.point_rate == point_rate
                &&& cmd.points == points
                &&& cmd.reservation.points == points@.len()
                &&& final(self).state == (SharedTransportState {
                    host_queue_len: (old(self).state.host_queue_len + points@.len()) as usize,
                    ..old(self).state
                })
            },
            r matches Err(e) ==> e is QueueFull && final(self).state == old(self).state,
    {
        match self.state.reserve_host_points(points.len()) {
            Ok(reservation) => Ok(
                TransportCommand { generation: self.generation, point_rate, points, reservation },
            ),
            Err(e) => Err(e),
        }
    }

    /// The thread did not take the points: its queue is full, or it has ended.
    pub fn enqueue_failed(&mut self, cmd: TransportCommand, full: bool) -> (r: CommunicationError)
        ensures
            full ==> r is QueueFull,
            !full ==> r is WorkerStopped,
            final(self).generation == old(self).generation,
            final(self).state == (SharedTransportState {
                host_queue_len: if old(self).state.host_queue_len >= cmd.reservation.points {
                    (old(self).state.host_queue_len - cmd.reservation.points) as usize
                } else {
                    0
                },
                ..old(self).state
            }),
            old(self).state.wf() ==> final(self).state.wf(),
    {
        self.state.release_host_points(cmd.reservation);
        if full {
            CommunicationError::QueueFull
        } else {
            CommunicationError::WorkerStopped
        }
    }

    /// Turn the output on or off. What comes back goes to the thread.
    pub fn set_output(&mut self, enabled: bool) -> (r: PriorityCommand)
        ensures
            final(self).state == old(self).state,
            final(self).generation == if enabled {
                old(self).generation
            } else {
                next_generation(old(self).generation)
            },
            r == (PriorityCommand::SetOutput { enabled, generation: final(self).generation }),
    {
        if !enabled {
            self.generation = self.generation.wrapping_add(1);
        }
        PriorityCommand::SetOutput { enabled, generation: self.generation }
    }

    /// Stop the output. What comes back goes to the thread.
    pub fn stop_output(&mut self) -> (r: PriorityCommand)
        ensures
            final(self).state == old(self).state,
            final(self).generation == next_generation(old(self).generation),
            r == (PriorityCommand::StopOutput { generation: final(self).generation }),
    {
        self.generation = self.generation.wrapping_add(1);
        PriorityCommand::StopOutput { generation: self.generation }
    }

    pub fn state(&self) -> (r: &SharedTransportState)
        ensures
            *r == self.state,
    {
        &self.state
    }

    pub fn is_usable(&self, now: u64) -> (r: bool)
        ensures
            r == self.state.usable_at(now),
    {
        self.state.is_usable(now)
    }

    /// End the connection. What comes back goes to the thread, which then ends.
    pub fn shutdown(&mut self) -> (r: PriorityCommand)
        ensures
            final(self).generation == next_generation(old(self).generation),
            final(self).state == (SharedTransportState { connected: false, ..old(self).state }),
            forall|now: u64| !final(self).state.usable_at(now),
            old(self).state.wf() ==> final(self).state.wf(),
            r == (PriorityCommand::Shutdown { generation: final(self).generation }),
    {
        self.generation = self.generation.wrapping_add(1);
        self.state.mark_disconnected();
        PriorityCommand::Shutdown { generation: self.generation }
    }
}

/// A stop takes effect at once: points that were handed over before it are never
/// queued, and nothing is sent, whether or not the thread has seen the stop.
pub proof fn stop_discards_points(
    generation: u64,
    cmd: TransportCommand,
    before: WorkerView,
    event: worker::PriorityEvent,
    now: u64,
)
    requires
        cmd.generation == generation,
        before.active_generation == generation,
        worker::generation_after(event) == next_generation(generation),
    ensures
        !worker::is_current(before, cmd, next_generation(generation)),
        before.active_generation != next_generation(generation),
        !worker::is_current(
            worker::worker_after_event(before, event, now),
            cmd,
            next_generation(generation),
        ),
{
}

/// Points that were handed over while the output runs are queued.
pub proof fn running_output_takes_points(handle: TransportHandle, cmd: TransportCommand, w: WorkerView)
    requires
        cmd.generation == handle.generation,
        w.active_generation == handle.generation,
    ensures
        worker::is_current(w, cmd, handle.generation),
{
}

/// Each stop starts another generation than the one before.
pub proof fn stops_start_a_new_generation(generation: u64)
    ensures
        next_generation(generation) != generation,
        generation < u64::MAX ==> next_generation(generation) == generation + 1,
{
}

/// Turning the output off, stopping it and shutting down each end the generation of the
/// points that were handed over before; turning it on does not.
pub proof fn only_turning_on_keeps_points()
    ensures
        forall|h: &mut TransportHandle, enabled: bool, r: PriorityCommand|
            #[trigger] call_ensures(TransportHandle::set_output, (h, enabled), r) ==> {
                &&& enabled <==> final(h).generation == h.generation
                &&& r == (PriorityCommand::SetOutput { enabled, generation: final(h).generation })
                &&& final(h).state == h.state
            },
        forall|h: &mut TransportHandle, r: PriorityCommand|
            #[trigger] call_ensures(TransportHandle::stop_output, (h,), r) ==> {
                &&& final(h).generation != h.generation
                &&& r == (PriorityCommand::StopOutput { generation: final(h).generation })
                &&& final(h).state == h.state
            },
        forall|h: &mut TransportHandle, r: PriorityCommand|
            #[trigger] call_ensures(TransportHandle::shutdown, (h,), r) ==> {
                &&& final(h).generation != h.generation
                &&& r == (PriorityCommand::Shutdown { generation: final(h).generation })
                &&& !final(h).state.connected
            },
{
}

/// Points that are handed over carry the generation of the running output, their rate and
/// a claim for all of them. If the thread does not take them, the claim is given up and
/// the room is there again.
pub proof fn refused_points_give_up_their_room()
    ensures
        forall|
            h: &mut TransportHandle,
            rate: u32,
            points: Vec<Point>,
            r: Result<TransportCommand, CommunicationError>,
        |
            #[trigger] call_ensures(TransportHandle::enqueue, (h, rate, points), r)
                && h.state.wf() ==> {
                &&& r is Ok <==> h.state.host_queue_len + points@.len() <= h.state.host_queue_capacity
                &&& r matches Ok(cmd) ==> {
                    &&& cmd.points@ == points@
                    &&& cmd.point_rate == rate
                    &&& cmd.generation == h.generation
                    &&& cmd.reservation.points == points@.len()
                    &&& final(h).state.host_queue_len == h.state.host_queue_len + points@.len()
                }
                &&& r is Err ==> final(h).state == h.state
            },
        forall|h: &mut TransportHandle, cmd: TransportCommand, full: bool, r: CommunicationError|
            #[trigger] call_ensures(TransportHandle::enqueue_failed, (h, cmd, full), r)
                && cmd.reservation.points <= h.state.host_queue_len ==> {
                &&& final(h).state.host_queue_len + cmd.reservation.points == h.state.host_queue_len
                &&& final(h).generation == h.generation
                &&& full <==> r is QueueFull
                &&& !full <==> r is WorkerStopped
            },
{
}

/// A device counts as reachable as soon as it answers with its full info, and as
/// unreachable after three requests that none answers.
pub proof fn silent_device_is_asked_three_times()
    ensures
        forall|r: Handshake| #[trigger] call_ensures(Handshake::start, (), r) ==> r.retries_left == 2,
        forall|h: &mut Handshake, e: IoError, r: HandshakeStep|
            #[trigger] call_ensures(Handshake::on_error, (h, e), r) && (e.kind is WouldBlock
                || e.kind is TimedOut) ==> {
                &&& r is Request <==> h.retries_left > 0
                &&& r is Request ==> final(h).retries_left + 1 == h.retries_left
                &&& r is Failed <==> h.retries_left == 0
            },
        forall|h: &mut Handshake, e: IoError, r: HandshakeStep|
            #[trigger] call_ensures(Handshake::on_error, (h, e), r) && !(e.kind is WouldBlock)
                && !(e.kind is TimedOut) ==> r == HandshakeStep::Failed(CommunicationError::Io(e)),
        forall|h: &Handshake, data: &[u8], r: HandshakeStep|
            #[trigger] call_ensures(Handshake::on_datagram, (h, data), r) ==> {
                &&& r is Reachable <==> data@.len() > 0 && data@[0] == 0x77
                &&& r is Reachable || r is Wait
            },
{
}

} // verus!
