//! LaserCube network transport: what the sending thread and its handle decide.
//!
//! The thread owns a [`worker::TransportWorker`]. It shares a
//! [`state::SharedTransportState`] with the handle, behind a lock of its own.

use vstd::prelude::*;

use crate::bytes;
use crate::error::{IoError, IoErrorKind};
use crate::net::{IpAddr, SocketAddr};
use crate::protocols::lasercube_network::command;
use crate::protocols::lasercube_network::profiles::ConnectionProfile;
use crate::protocols::lasercube_network::protocol::{Point, DEFAULT_POINT_RATE};
use crate::protocols::lasercube_network::status::LaserCubeNetworkStatus;
use crate::protocols::lasercube_network::transport::state::HostQueueReservation;

pub mod handle;
pub mod state;
pub mod worker;

verus! {

/// How often each command is sent, since datagrams get lost.
pub const COMMAND_REPEAT_COUNT: usize = 2;

/// Commands with points that may wait for the thread.
pub const POINT_QUEUE_CAPACITY: usize = 128;

/// Datagrams read from each socket in one round.
pub const MAX_ACK_DRAIN_PER_LOOP: usize = 32;

/// Commands taken from each queue in one round.
pub const MAX_CONTROL_DRAIN_PER_LOOP: usize = 32;

/// Longest sleep without looking at the commands, in nanoseconds.
pub const MAX_IDLE_SLEEP: u64 = 1_000_000;

/// Time between status requests while the output is off, in nanoseconds.
pub const FULL_INFO_POLL_INACTIVE: u64 = 250_000_000;

/// Time between status requests while the output is on, in nanoseconds.
pub const FULL_INFO_POLL_ACTIVE: u64 = 2_500_000_000;

/// Silence after which the device counts as lost, in nanoseconds.
pub const COMMS_STALE_TIMEOUT: u64 = 4_000_000_000;

/// Time between two logged snapshots, in nanoseconds.
pub const DIAGNOSTIC_LOG_PERIOD: u64 = 1_000_000_000;

/// A device and where it answers.
#[derive(Debug)]
pub struct AddressedDevice {
    pub source_addr: SocketAddr,
    pub status: LaserCubeNetworkStatus,
    pub profile: ConnectionProfile,
}

impl Clone for AddressedDevice {
    fn clone(&self) -> (r: AddressedDevice)
        ensures
            r == *self,
    {
        AddressedDevice {
            source_addr: self.source_addr,
            status: self.status.clone(),
            profile: self.profile,
        }
    }
}

impl AddressedDevice {
    pub fn ip(&self) -> (r: IpAddr)
        ensures
            r == self.source_addr.ip,
    {
        self.source_addr.ip
    }
}

/// Points on their way to the thread. They count as queued on the host while
/// their reservation stands.
#[derive(Debug)]
pub struct TransportCommand {
    pub generation: u64,
    pub point_rate: u32,
    pub points: Vec<Point>,
    pub reservation: HostQueueReservation,
}

/// What the thread does before anything else.
#[derive(Clone, Copy, Debug, PartialEq, Eq, Structural)]
pub enum PriorityCommand {
    SetOutput { enabled: bool, generation: u64 },
    StopOutput { generation: u64 },
    Shutdown { generation: u64 },
}

/// What is sent to a device that is connected: output off, free space told, the
/// default rate as far as the device plays it, and the buffer threshold where the
/// device takes one and its buffer is larger.
pub open spec fn startup_datagrams(
    status: LaserCubeNetworkStatus,
    profile: ConnectionProfile,
) -> Seq<Seq<u8>> {
    let first = seq![
        seq![0x80u8, 0u8],
        seq![0x78u8, 1u8],
        command::with_u32(0x82, super::clamped_rate(status, 30_000)),
    ];
    if command::takes_threshold(status) && profile.remote_buffer_cutoff < status.buffer_max {
        first.push(command::with_u32(0xA0, profile.remote_buffer_cutoff as u32))
    } else {
        first
    }
}

/// The datagrams that bring a device into a known state, in order. Each is sent
/// [`COMMAND_REPEAT_COUNT`] times.
pub fn startup_commands(status: &LaserCubeNetworkStatus, profile: ConnectionProfile) -> (r: Vec<
    Vec<u8>,
>)
    ensures
        r@.len() == startup_datagrams(*status, profile).len(),
        forall|i: int| 0 <= i < r@.len() ==> #[trigger] r@[i]@ == startup_datagrams(*status, profile)[i],
{
    let mut commands: Vec<Vec<u8>> = Vec::new();
    commands.push(command_bytes(command::set_output(false).as_slice()));
    commands.push(command_bytes(command::enable_buffer_size_response(true).as_slice()));
    commands.push(
        command_bytes(
            command::set_rate(super::clamp_point_rate(status, DEFAULT_POINT_RATE)).as_slice(),
        ),
    );
    if command::threshold_supported(status) {
        let threshold: usize = profile.remote_buffer_cutoff;
        if threshold < status.buffer_max as usize {
            commands.push(
                command_bytes(command::set_dac_buffer_threshold(threshold as u32).as_slice()),
            );
        }
    }
    commands
}

fn command_bytes(data: &[u8]) -> (r: Vec<u8>)
    ensures
        r@ == data@,
{
    let mut out: Vec<u8> = Vec::new();
    out.extend_from_slice(data);
    assert(out@ =~= data@);
    out
}

/// Whether an error only says that nothing has arrived.
pub fn would_block(err: &IoError) -> (r: bool)
    ensures
        r == (err.kind is WouldBlock || err.kind is TimedOut),
{
    err.kind == IoErrorKind::WouldBlock || err.kind == IoErrorKind::TimedOut
}

/// Connecting neither clears the device's buffer nor shows anything: the output
/// goes off first, and no sample data and no ring buffer command is sent.
pub proof fn startup_is_dark(status: LaserCubeNetworkStatus, profile: ConnectionProfile)
    ensures
        startup_datagrams(status, profile)[0] == seq![0x80u8, 0u8],
        forall|i: int|
            0 <= i < startup_datagrams(status, profile).len() ==> {
                let d = #[trigger] startup_datagrams(status, profile)[i];
                &&& d[0] != 0x8D
                &&& d[0] != 0xA9
                &&& d[0] == 0x80 ==> d[1] == 0
            },
{
}

/// A device that is connected is told to report its free space, to play the default rate
/// as far as it can, and how full to be kept where it takes that and its buffer is larger.
pub proof fn startup_sets_the_device_up(status: LaserCubeNetworkStatus, profile: ConnectionProfile)
    ensures
        ({
            let d = startup_datagrams(status, profile);
            let told = command::takes_threshold(status) && profile.remote_buffer_cutoff
                < status.buffer_max;
            &&& d.len() == if told {
                4int
            } else {
                3
            }
            &&& d[1] == seq![0x78u8, 1u8]
            &&& d[2].len() == 5 && d[2][0] == 0x82
            &&& status.point_rate_max >= 30_000 ==> bytes::le_u32(d[2], 1) == 30_000
            &&& 0 < status.point_rate_max < 30_000 ==> bytes::le_u32(d[2], 1)
                == status.point_rate_max
            &&& told ==> d[3].len() == 5 && d[3][0] == 0xA0 && bytes::le_u32(d[3], 1)
                == profile.remote_buffer_cutoff
        }),
{
    let d = startup_datagrams(status, profile);
    let rate = super::clamped_rate(status, 30_000);
    assert(d[2].subrange(1, 5) =~= bytes::le_u32_bytes(rate));
    bytes::le_u32_round_trip(d[2], 1, rate);
    if command::takes_threshold(status) && profile.remote_buffer_cutoff < status.buffer_max {
        let n = profile.remote_buffer_cutoff as u32;
        assert(d[3].subrange(1, 5) =~= bytes::le_u32_bytes(n));
        bytes::le_u32_round_trip(d[3], 1, n);
    }
}

} // verus!
