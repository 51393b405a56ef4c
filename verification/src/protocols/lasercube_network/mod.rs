//! LaserCube network DAC support for WiFi and Ethernet devices.
//!
//! This module owns network discovery, command/status parsing, queueing,
//! pacing, ACK handling, and sample packetization.

use vstd::prelude::*;

use crate::device::{DacCapabilities, OutputModel};
use crate::protocols::lasercube_network::profiles::{ConnectionProfile, ConnectionType};
use crate::protocols::lasercube_network::protocol::{DEFAULT_BUFFER_CAPACITY, DEFAULT_POINT_RATE};
use crate::protocols::lasercube_network::status::LaserCubeNetworkStatus;

pub mod ack;
pub mod backend;
pub mod command;
pub mod diagnostics;
pub mod discovery;
pub mod error;
pub mod pacing;
pub mod packetizer;
pub mod profiles;
pub mod protocol;
pub mod status;
pub mod transport;

verus! {

/// The highest point rate of a device; 30000 where it does not tell.
pub open spec fn point_rate_max_of(status: LaserCubeNetworkStatus) -> u32 {
    if status.point_rate_max > 0 {
        status.point_rate_max
    } else {
        30_000
    }
}

/// The rate nearest to the asked one that the device plays.
pub open spec fn clamped_rate(status: LaserCubeNetworkStatus, point_rate: u32) -> u32 {
    if point_rate > point_rate_max_of(status) {
        point_rate_max_of(status)
    } else if point_rate < 1 {
        1
    } else {
        point_rate
    }
}

pub fn resolved_point_rate_max(status: &LaserCubeNetworkStatus) -> (r: u32)
    ensures
        r == point_rate_max_of(*status),
{
    if status.point_rate_max > 0 {
        status.point_rate_max
    } else {
        DEFAULT_POINT_RATE
    }
}

pub fn clamp_point_rate(status: &LaserCubeNetworkStatus, point_rate: u32) -> (r: u32)
    ensures
        r == clamped_rate(*status, point_rate),
        1 <= r <= point_rate_max_of(*status),
{
    let max: u32 = resolved_point_rate_max(status);
    let at_least_one: u32 = if point_rate < 1 {
        1
    } else {
        point_rate
    };
    if at_least_one > max {
        max
    } else {
        at_least_one
    }
}

/// What a device with this profile and highest rate can do.
pub open spec fn capabilities_of(profile: ConnectionProfile, pps_max: u32) -> DacCapabilities {
    DacCapabilities {
        pps_min: 1,
        pps_max,
        max_points_per_chunk: profile.max_udp_samples_per_packet,
        output_model: OutputModel::NetworkFifo,
    }
}

/// Returns capabilities for a LaserCube network DAC using the selected profile.
pub fn capabilities_for_profile(profile: ConnectionProfile) -> (r: DacCapabilities)
    ensures
        r == capabilities_of(profile, 30_000),
{
    capabilities_for_profile_and_rate(profile, DEFAULT_POINT_RATE)
}

pub fn capabilities_for_status(
    profile: ConnectionProfile,
    status: &LaserCubeNetworkStatus,
) -> (r: DacCapabilities)
    ensures
        r == capabilities_of(profile, point_rate_max_of(*status)),
{
    capabilities_for_profile_and_rate(profile, resolved_point_rate_max(status))
}

fn capabilities_for_profile_and_rate(profile: ConnectionProfile, pps_max: u32) -> (r:
    DacCapabilities)
    ensures
        r == capabilities_of(profile, pps_max),
{
    DacCapabilities {
        pps_min: 1,
        pps_max,
        max_points_per_chunk: profile.max_udp_samples_per_packet,
        output_model: OutputModel::NetworkFifo,
    }
}

/// Returns conservative default capabilities before device status is known.
pub fn default_capabilities() -> (r: DacCapabilities)
    ensures
        r == capabilities_of(ConnectionProfile::of(ConnectionType::Unknown(0), 6000), 30_000),
{
    capabilities_for_profile(
        ConnectionProfile::unknown_conservative(DEFAULT_BUFFER_CAPACITY as usize),
    )
}

/// A rate that the device plays is taken as it is; a faster one is held to its highest,
/// and there is always some rate. A device that does not tell its highest plays 30000.
pub proof fn rate_is_held_to_device(status: LaserCubeNetworkStatus, point_rate: u32)
    ensures
        ({
            let max = point_rate_max_of(status);
            let r = clamped_rate(status, point_rate);
            &&& status.point_rate_max > 0 ==> max == status.point_rate_max
            &&& status.point_rate_max == 0 ==> max == 30_000
            &&& 1 <= r <= max
            &&& 1 <= point_rate <= max ==> r == point_rate
            &&& point_rate > max ==> r == max
            &&& point_rate == 0 ==> r == 1
        }),
{
}

/// A device takes a packet of points at a time, at rates from one point per second to its
/// highest.
pub proof fn chunk_fits_a_packet(profile: ConnectionProfile, pps_max: u32)
    ensures
        capabilities_of(profile, pps_max).max_points_per_chunk
            == profile.max_udp_samples_per_packet,
        capabilities_of(profile, pps_max).pps_max == pps_max,
        capabilities_of(profile, pps_max).pps_min == 1,
        capabilities_of(profile, pps_max).output_model is NetworkFifo,
{
}

/// A rate is held to what the device plays, and its limits to what it tells.
pub proof fn device_limits_hold()
    ensures
        forall|s: &LaserCubeNetworkStatus, rate: u32, r: u32| #[trigger]
            call_ensures(clamp_point_rate, (s, rate), r) ==> r == clamped_rate(*s, rate) && 1 <= r
                <= point_rate_max_of(*s),
        forall|s: &LaserCubeNetworkStatus, r: u32| #[trigger]
            call_ensures(resolved_point_rate_max, (s,), r) ==> {
                &&& s.point_rate_max > 0 ==> r == s.point_rate_max
                &&& s.point_rate_max == 0 ==> r == 30_000
            },
        forall|p: ConnectionProfile, s: &LaserCubeNetworkStatus, r: DacCapabilities| #[trigger]
            call_ensures(capabilities_for_status, (p, s), r) ==> {
                &&& r.pps_min == 1
                &&& s.point_rate_max > 0 ==> r.pps_max == s.point_rate_max
                &&& s.point_rate_max == 0 ==> r.pps_max == 30_000
                &&& r.output_model is NetworkFifo
            },
        forall|p: ConnectionProfile, r: DacCapabilities| #[trigger]
            call_ensures(capabilities_for_profile, (p,), r) ==> r.pps_min == 1 && r.pps_max
                == 30_000 && r.output_model is NetworkFifo,
{
}

} // verus!
