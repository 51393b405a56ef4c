//! Diagnostic snapshots for LaserCube network output.

use vstd::prelude::*;

use crate::arith;
use crate::protocols::lasercube_network::profiles::{ConnectionProfile, ConnectionType};
use crate::protocols::lasercube_network::status::LaserCubeNetworkStatus;

verus! {

/// What is known of a connection at one moment. Ages are in nanoseconds.
#[derive(Debug)]
pub struct LaserCubeNetworkDiagnostics {
    pub profile: ConnectionProfile,
    pub connection_type: ConnectionType,
    pub status: LaserCubeNetworkStatus,
    pub connected: bool,
    pub communication_stale: bool,
    pub host_queue_len: usize,
    pub host_queue_capacity: usize,
    pub device_free_estimate: usize,
    pub device_buffered_estimate: usize,
    pub packets_sent: u64,
    pub samples_sent: u64,
    pub acks_received: u64,
    pub command_successes: u64,
    pub command_failures: u64,
    pub send_errors: u64,
    pub point_rate: u32,
    pub last_data_ack_sequence: Option<u8>,
    pub last_ack_free_space: Option<u16>,
    pub last_ack_rtt: Option<u64>,
    pub packet_errors: u8,
    pub last_ack_age: Option<u64>,
    pub last_full_info_age: Option<u64>,
    pub last_comms_age: Option<u64>,
}

/// How long ago a moment was, if there was one.
pub open spec fn age_of(now: u64, timestamp: Option<u64>) -> Option<u64> {
    match timestamp {
        Some(t) => Some(arith::since(now, t)),
        None => None,
    }
}

impl LaserCubeNetworkDiagnostics {
    pub fn age(now: u64, timestamp: Option<u64>) -> (r: Option<u64>)
        ensures
            r == age_of(now, timestamp),
    {
        match timestamp {
            Some(t) => Some(now.saturating_sub(t)),
            None => None,
        }
    }
}

/// How long ago something was is the time since then, and nothing where there was nothing.
pub proof fn age_is_the_time_since()
    ensures
        forall|now: u64, t: Option<u64>, r: Option<u64>| #[trigger]
            call_ensures(LaserCubeNetworkDiagnostics::age, (now, t), r) ==> {
                &&& r is None <==> t is None
                &&& t is Some && t->0 <= now ==> t->0 + r->0 == now
                &&& t is Some && t->0 > now ==> r->0 == 0
            },
{
}

} // verus!
