//! LaserCube network backend integration.

use vstd::prelude::*;

use crate::arith;
use crate::backend::WriteOutcome;
use crate::device::{DacCapabilities, DacType};
use crate::error::Error;
use crate::net::{IpAddr, SocketAddr};
use crate::protocols::lasercube_network::diagnostics::{self, LaserCubeNetworkDiagnostics};
use crate::protocols::lasercube_network::error::CommunicationError;
use crate::protocols::lasercube_network::pacing;
use crate::protocols::lasercube_network::profiles::{ConnectionProfile, ConnectionType};
use crate::protocols::lasercube_network::protocol::{Point, DEFAULT_BUFFER_CAPACITY};
use crate::protocols::lasercube_network::status::LaserCubeNetworkStatus;
use crate::protocols::lasercube_network::transport::handle::{self, TransportHandle};
use crate::protocols::lasercube_network::transport::state::SharedTransportState;
use crate::protocols::lasercube_network::transport::{
    AddressedDevice, PriorityCommand, TransportCommand,
};
use crate::protocols::lasercube_network::{self, capabilities_for_status};

verus! {

/// A LaserCube and, while it is connected, its transport.
#[derive(Debug)]
pub struct LaserCubeNetworkBackend {
    pub addressed: AddressedDevice,
    pub transport: Option<TransportHandle>,
    pub caps: DacCapabilities,
    pub fallback_estimator: SharedTransportState,
}

impl LaserCubeNetworkBackend {
    /// Whether the transport may be used.
    pub open spec fn wf(self) -> bool {
        self.transport matches Some(t) ==> t.state.wf()
    }

    /// Whether the device is connected and answers.
    pub open spec fn connected_at(self, now: u64) -> bool {
        self.transport matches Some(t) && t.state.usable_at(now)
    }

    pub fn new(addressed: AddressedDevice, now: u64) -> (r: LaserCubeNetworkBackend)
        ensures
            r.wf(),
            r.addressed == addressed,
            r.transport is None,
            r.caps == lasercube_network::capabilities_of(
                addressed.profile,
                lasercube_network::point_rate_max_of(addressed.status),
            ),
            r.fallback_estimator.wf(),
            !r.fallback_estimator.connected,
            r.fallback_estimator.host_queue_len == 0,
            r.fallback_estimator.free_estimate == r.fallback_estimator.buffer_total,
    {
        let caps = capabilities_for_status(addressed.profile, &addressed.status);
        let fallback_estimator = SharedTransportState::disconnected(addressed.profile, now);
        LaserCubeNetworkBackend { addressed, transport: None, caps, fallback_estimator }
    }

    /// A snapshot of the connection, if there is one.
    pub fn diagnostics(&self, now: u64) -> (r: Option<LaserCubeNetworkDiagnostics>)
        ensures
            r == match self.transport {
                Some(t) => Some(t.state.snapshot(now)),
                None => None,
            },
    {
        match &self.transport {
            Some(t) => Some(t.state.diagnostics(now)),
            None => None,
        }
    }

    pub fn dac_type(&self) -> (r: DacType)
        ensures
            r is LaserCubeNetwork,
    {
        DacType::LaserCubeNetwork
    }

    pub fn caps(&self) -> (r: &DacCapabilities)
        ensures
            *r == self.caps,
    {
        &self.caps
    }

    /// Keep the transport of a connection that was made. A backend that is connected
    /// keeps the one it has.
    pub fn connect(&mut self, transport: TransportHandle)
        requires
            transport.state.wf(),
            old(self).wf(),
        ensures
            final(self).wf(),
            *final(self) == (LaserCubeNetworkBackend {
                transport: if old(self).transport is Some {
                    old(self).transport
                } else {
                    Some(transport)
                },
                ..*old(self)
            }),
    {
        if self.transport.is_none() {
            self.transport = Some(transport);
        }
    }

    /// Let go of the transport. What comes back goes to its thread, if there is one.
    pub fn disconnect(&mut self) -> (r: Option<PriorityCommand>)
        ensures
            final(self).wf(),
            *final(self) == (LaserCubeNetworkBackend { transport: None, ..*old(self) }),
            r == match old(self).transport {
                Some(t) => Some(
                    PriorityCommand::Shutdown { generation: handle::next_generation(t.generation) },
                ),
                None => None,
            },
    {
        match self.transport.take() {
            Some(t) => {
                let mut t = t;
                Some(t.shutdown())
            },
            None => None,
        }
    }

    pub fn is_connected(&self, now: u64) -> (r: bool)
        ensures
            r == self.connected_at(now),
    {
        match &self.transport {
            Some(t) => t.is_usable(now),
            None => false,
        }
    }

    /// Stop the output. What comes back goes to the thread, if there is one.
    pub fn stop(&mut self) -> (r: Option<PriorityCommand>)
        ensures
            old(self).wf() ==> final(self).wf(),
            old(self).transport is None ==> r is None && *final(self) == *old(self),
            old(self).transport matches Some(t) ==> {
                let generation = handle::next_generation(t.generation);
                &&& r == Some(PriorityCommand::StopOutput { generation })
                &&& *final(self) == (LaserCubeNetworkBackend {
                    transport: Some(TransportHandle { generation, state: t.state }),
                    ..*old(self)
                })
            },
    {
        match self.transport.take() {
            Some(t) => {
                let mut t = t;
                let cmd: PriorityCommand = t.stop_output();
                self.transport = Some(t);
                Some(cmd)
            },
            None => None,
        }
    }

    /// Turn the output on or off. What comes back goes to the thread, if there is
    /// one.
    pub fn set_shutter(&mut self, open: bool) -> (r: Option<PriorityCommand>)
        ensures
            old(self).wf() ==> final(self).wf(),
            old(self).transport is None ==> r is None && *final(self) == *old(self),
            old(self).transport matches Some(t) ==> {
                let generation = if open {
                    t.generation
                } else {
                    handle::next_generation(t.generation)
                };
                &&& r == Some(PriorityCommand::SetOutput { enabled: open, generation })
                &&& *final(self) == (LaserCubeNetworkBackend {
                    transport: Some(TransportHandle { generation, state: t.state }),
                    ..*old(self)
                })
            },
    {
        match self.transport.take() {
            Some(t) => {
                let mut t = t;
                let cmd: PriorityCommand = t.set_output(open);
                self.transport = Some(t);
                Some(cmd)
            },
            None => None,
        }
    }

    /// Offer points. They go to the thread if there is room for them on the host;
    /// without room the write would block.
    pub fn try_write_points(&mut self, pps: u32, points: Vec<Point>, now: u64) -> (r: Result<
        Option<TransportCommand>,
        Error,
    >)
        requires
            old(self).wf(),
        ensures
            final(self).wf(),
            final(self).addressed == old(self).addressed,
            final(self).caps == old(self).caps,
            final(self).fallback_estimator == old(self).fallback_estimator,
            r is Ok <==> old(self).connected_at(now),
            old(self).transport is None ==> (r matches Err(Error::Disconnected(m)) && m@
                == "LaserCube network backend is not connected"@),
            old(self).transport is Some && !old(self).connected_at(now) ==> (r matches Err(
                Error::Disconnected(m),
            ) && m@ == "LaserCube network communication timed out"@),
            r matches Ok(cmd) ==> {
                let before = old(self).transport->0;
                &&& final(self).transport matches Some(after)
                &&& after.generation == before.generation
                &&& cmd is Some <==> before.state.host_queue_len + points@.len()
                    <= before.state.host_queue_capacity
                &&& cmd is None ==> after.state == before.state
                &&& cmd matches Some(c) ==> {
                    &&& c.generation == before.generation
                    &&& c.point_rate == pps
                    &&& c.points == points
                    &&& c.reservation.points == points@.len()
                    &&& after.state == (SharedTransportState {
                        host_queue_len: (before.state.host_queue_len + points@.len()) as usize,
                        ..before.state
                    })
                }
            },
            r is Err ==> final(self).transport == old(self).transport,
    {
        if !self.is_connected(now) {
            return match self.transport {
                None => Err(Error::disconnected("LaserCube network backend is not connected")),
                Some(_) => Err(Error::disconnected("LaserCube network communication timed out")),
            };
        }
        match self.transport.take() {
            Some(t) => {
                let mut t = t;
                let result = t.enqueue(pps, points);
                self.transport = Some(t);
                match result {
                    Ok(cmd) => Ok(Some(cmd)),
                    Err(_) => Ok(None),
                }
            },
            None => Err(Error::disconnected("LaserCube network backend is not connected")),
        }
    }

    /// The points that wait for output: of the connection, or none.
    pub fn estimated_fullness(&self, now: u64) -> (r: u64)
        ensures
            ({
                let s = match self.transport {
                    Some(t) => t.state,
                    None => self.fallback_estimator,
                };
                r == arith::least(s.buffered_at(now) + s.host_queue_len, usize::MAX as int)
            }),
    {
        match &self.transport {
            Some(t) => t.state.estimated_fullness(now),
            None => self.fallback_estimator.estimated_fullness(now),
        }
    }
}

/// How a write ends that the thread did not take: a full queue blocks, a thread that
/// has ended is an error.
pub fn write_outcome(sent: Result<(), CommunicationError>) -> (r: Result<WriteOutcome, Error>)
    ensures
        sent is Ok ==> r == Ok::<WriteOutcome, Error>(WriteOutcome::Written),
        sent matches Err(e) ==> {
            &&& e is QueueFull ==> r == Ok::<WriteOutcome, Error>(WriteOutcome::WouldBlock)
            &&& !(e is QueueFull) ==> (r matches Err(Error::Backend(m)) && m@ == e.text())
        },
{
    match sent {
        Ok(()) => Ok(WriteOutcome::Written),
        Err(CommunicationError::QueueFull) => Ok(WriteOutcome::WouldBlock),
        Err(err) => {
            let message = err.message();
            Err(Error::backend(message.as_str()))
        },
    }
}

impl Default for LaserCubeNetworkBackend {
    fn default() -> (r: LaserCubeNetworkBackend)
        ensures
            r.wf(),
            r.transport is None,
            r.addressed.source_addr.ip == IpAddr::V4(0),
            r.addressed.source_addr.port == 0,
            r.addressed.status.is_minimal(IpAddr::V4(0)),
            r.addressed.profile == ConnectionProfile::of(ConnectionType::Unknown(0), 6000),
            r.caps == lasercube_network::capabilities_of(r.addressed.profile, 30_000),
    {
        let status = LaserCubeNetworkStatus::minimal(IpAddr::V4(0));
        let profile = ConnectionProfile::unknown_conservative(DEFAULT_BUFFER_CAPACITY as usize);
        LaserCubeNetworkBackend::new(
            AddressedDevice {
                source_addr: SocketAddr { ip: IpAddr::V4(0), port: 0, flowinfo: 0, scope_id: 0 },
                status,
                profile,
            },
            0,
        )
    }
}

/// Without a connection nothing waits for output.
pub proof fn disconnected_is_empty(s: SharedTransportState, now: u64)
    requires
        s.host_queue_len == 0,
        s.free_estimate == s.buffer_total,
    ensures
        s.buffered_at(now) + s.host_queue_len == 0,
{
    let e = arith::since(now, s.last_estimate);
    assert(e * s.point_rate >= 0) by (nonlinear_arith);
}

/// A write is taken just when the device is connected and answers and the host has room
/// for all of it; then its points and its rate are handed over as they are. A write that
/// is not taken changes nothing.
pub proof fn write_is_taken_whole_or_not()
    ensures
        forall|
            b: &mut LaserCubeNetworkBackend,
            pps: u32,
            points: Vec<Point>,
            now: u64,
            r: Result<Option<TransportCommand>, Error>,
        |
            #[trigger] call_ensures(
                LaserCubeNetworkBackend::try_write_points,
                (b, pps, points, now),
                r,
            ) ==> {
                &&& r is Ok <==> b.connected_at(now)
                &&& r is Err ==> r->Err_0 is Disconnected && final(b).transport == b.transport
                &&& r is Ok ==> {
                    let state = b.transport->0.state;
                    &&& r->Ok_0 is Some <==> state.host_queue_len + points@.len()
                        <= state.host_queue_capacity
                    &&& r->Ok_0 is None ==> final(b).transport->0.state == state
                    &&& r->Ok_0 matches Some(cmd) ==> {
                        &&& cmd.points@ == points@
                        &&& cmd.point_rate == pps
                        &&& cmd.generation == b.transport->0.generation
                        &&& final(b).transport->0.state.host_queue_len == state.host_queue_len
                            + points@.len()
                    }
                }
            },
{
}

/// Closing the shutter and stopping end the generation of the points that were written
/// before; opening it does not. Without a connection nothing is to be done.
pub proof fn closed_shutter_discards_points()
    ensures
        forall|b: &mut LaserCubeNetworkBackend, open: bool, r: Option<PriorityCommand>|
            #[trigger] call_ensures(LaserCubeNetworkBackend::set_shutter, (b, open), r) ==> {
                &&& r is Some <==> b.transport is Some
                &&& b.transport is Some ==> {
                    let after = final(b).transport->0.generation;
                    &&& open <==> after == b.transport->0.generation
                    &&& r == Some(PriorityCommand::SetOutput { enabled: open, generation: after })
                }
            },
        forall|b: &mut LaserCubeNetworkBackend, r: Option<PriorityCommand>|
            #[trigger] call_ensures(LaserCubeNetworkBackend::stop, (b,), r) ==> {
                &&& r is Some <==> b.transport is Some
                &&& b.transport is Some ==> {
                    let after = final(b).transport->0.generation;
                    &&& after != b.transport->0.generation
                    &&& r == Some(PriorityCommand::StopOutput { generation: after })
                }
            },
        forall|b: &mut LaserCubeNetworkBackend, r: Option<PriorityCommand>|
            #[trigger] call_ensures(LaserCubeNetworkBackend::disconnect, (b,), r) ==> {
                &&& final(b).transport is None
                &&& r is Some <==> b.transport is Some
                &&& r matches Some(cmd) ==> cmd is Shutdown
            },
{
}

/// A full queue blocks a write, and any other failure is an error.
pub proof fn full_queue_blocks()
    ensures
        forall|sent: Result<(), CommunicationError>, r: Result<WriteOutcome, Error>|
            #[trigger] call_ensures(write_outcome, (sent,), r) ==> {
                &&& sent is Ok <==> r == Ok::<WriteOutcome, Error>(WriteOutcome::Written)
                &&& sent is Err && sent->Err_0 is QueueFull <==> r == Ok::<WriteOutcome, Error>(
                    WriteOutcome::WouldBlock,
                )
                &&& r is Err ==> r->Err_0 is Backend
            },
{
}

} // verus!
