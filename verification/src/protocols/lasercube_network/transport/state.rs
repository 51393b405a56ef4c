//! What the sending thread and its handle share.

use vstd::prelude::*;

use crate::arith;
use crate::net::IpAddr;
use crate::protocols::lasercube_network::diagnostics::{self, LaserCubeNetworkDiagnostics};
use crate::protocols::lasercube_network::error::CommunicationError;
use crate::protocols::lasercube_network::pacing;
use crate::protocols::lasercube_network::profiles::{ConnectionProfile, ConnectionType};
use crate::protocols::lasercube_network::protocol::{DEFAULT_BUFFER_CAPACITY, DEFAULT_POINT_RATE};
use crate::protocols::lasercube_network::status::LaserCubeNetworkStatus;
use crate::protocols::lasercube_network::transport::COMMS_STALE_TIMEOUT;
use crate::protocols::lasercube_network::{self, clamp_point_rate};

verus! {

/// The state of a connection. Moments are in nanoseconds of one clock.
#[derive(Debug)]
pub struct SharedTransportState {
    pub profile: ConnectionProfile,
    pub connection_type: ConnectionType,
    pub status: LaserCubeNetworkStatus,
    /// Points that wait on the host.
    pub host_queue_len: usize,
    pub host_queue_capacity: usize,
    /// Points the device had room for at `last_estimate`.
    pub free_estimate: usize,
    pub buffer_total: usize,
    pub point_rate: u32,
    pub last_estimate: u64,
    pub packets_sent: u64,
    pub samples_sent: u64,
    pub acks_received: u64,
    pub command_successes: u64,
    pub command_failures: u64,
    pub send_errors: u64,
    pub last_data_ack_sequence: Option<u8>,
    pub last_ack_free_space: Option<u16>,
    pub last_ack_rtt: Option<u64>,
    pub packet_errors: u8,
    pub last_ack: Option<u64>,
    pub last_full_info: Option<u64>,
    pub last_comms: Option<u64>,
    pub connected: bool,
}

/// A claim on the host queue. It is committed once the points are queued, and
/// released if they never are.
#[derive(Debug)]
pub struct HostQueueReservation {
    pub points: usize,
}

/// Device buffer capacity from the reported `buffer_max`, falling back to the
/// default only when the device reports 0 (unknown).
pub open spec fn buffer_total_of(buffer_max: u16) -> usize {
    if buffer_max > 0 {
        buffer_max as usize
    } else {
        6000
    }
}

pub fn buffer_total_from_max(buffer_max: u16) -> (r: usize)
    ensures
        r == buffer_total_of(buffer_max),
{
    if buffer_max > 0 {
        buffer_max as usize
    } else {
        DEFAULT_BUFFER_CAPACITY as usize
    }
}

/// How many points the device has played in `elapsed` nanoseconds.
pub open spec fn drained(elapsed: u64, rate: u32) -> int {
    elapsed * rate / 1_000_000_000
}

/// The smaller of two counts of points.
fn smaller(a: usize, b: usize) -> (r: usize)
    ensures
        r == arith::least(a as int, b as int),
{
    if a <= b {
        a
    } else {
        b
    }
}

/// `free` and what has been played since, as far as there is a buffer.
pub fn grown_free(free: usize, total: usize, elapsed: u64, rate: u32) -> (r: usize)
    ensures
        r == arith::least(free + drained(elapsed, rate), total as int),
{
    proof {
        lemma_drained_bound(elapsed, rate);
    }
    let played: u128 = elapsed as u128 * rate as u128 / 1_000_000_000;
    let free_then: u128 = free as u128 + played;
    if free_then <= total as u128 {
        free_then as usize
    } else {
        total
    }
}

proof fn lemma_drained_bound(elapsed: u64, rate: u32)
    ensures
        0 <= elapsed * rate <= 0xffff_ffff_ffff_ffff * 0xffff_ffff,
        0 <= drained(elapsed, rate) <= 0xffff_ffff_ffff_ffff * 0xffff_ffff,
{
    assert(0 <= elapsed * rate <= 0xffff_ffff_ffff_ffff * 0xffff_ffff) by (nonlinear_arith)
        requires
            0 <= elapsed <= 0xffff_ffff_ffff_ffff,
            0 <= rate <= 0xffff_ffff,
    ;
}

impl SharedTransportState {
    /// The device is not thought to have more room than it has, nor the host to
    /// hold more than it may.
    pub open spec fn wf(self) -> bool {
        &&& self.free_estimate <= self.buffer_total
        &&& self.host_queue_len <= self.host_queue_capacity
    }

    /// The free space of the device by now.
    pub open spec fn free_at(self, now: u64) -> int {
        arith::least(
            self.free_estimate + drained(
                arith::since(now, self.last_estimate),
                self.point_rate,
            ),
            self.buffer_total as int,
        )
    }

    /// The points in the device's buffer by now.
    pub open spec fn buffered_at(self, now: u64) -> int {
        pacing::buffered(self.buffer_total as int, self.free_at(now))
    }

    /// Whether the device has been silent for too long.
    pub open spec fn stale_at(self, now: u64) -> bool {
        match self.last_comms {
            Some(t) => arith::since(now, t) > 4_000_000_000,
            None => self.connected,
        }
    }

    /// The state of a connection that has just been made.
    pub open spec fn fresh(status: LaserCubeNetworkStatus, profile: ConnectionProfile, now: u64) -> SharedTransportState {
        SharedTransportState {
            profile,
            connection_type: status.connection_type,
            status: status,
            host_queue_len: 0,
            host_queue_capacity: if buffer_total_of(status.buffer_max) * 2
                >= profile.max_udp_samples_per_packet * 8 {
                (buffer_total_of(status.buffer_max) * 2) as usize
            } else {
                (profile.max_udp_samples_per_packet * 8) as usize
            },
            free_estimate: if status.buffer_free <= status.buffer_max {
                status.buffer_free as usize
            } else {
                status.buffer_max as usize
            },
            buffer_total: buffer_total_of(status.buffer_max),
            point_rate: lasercube_network::clamped_rate(
                status,
                if status.point_rate > 0 {
                    status.point_rate
                } else {
                    30_000
                },
            ),
            last_estimate: now,
            packets_sent: 0,
            samples_sent: 0,
            acks_received: 0,
            command_successes: 0,
            command_failures: 0,
            send_errors: 0,
            last_data_ack_sequence: None,
            last_ack_free_space: None,
            last_ack_rtt: None,
            packet_errors: status.packet_errors,
            last_ack: None,
            last_full_info: Some(now),
            last_comms: Some(now),
            connected: true,
        }
    }

    /// The state of a connection that has just been made.
    pub fn new(status: &LaserCubeNetworkStatus, profile: ConnectionProfile, now: u64) -> (r:
        SharedTransportState)
        requires
            profile.max_udp_samples_per_packet * 8 <= usize::MAX,
        ensures
            r.wf(),
            r == SharedTransportState::fresh(*status, profile, now),
    {
        let buffer_total: usize = buffer_total_from_max(status.buffer_max);
        let doubled: usize = buffer_total * 2;
        let eight_packets: usize = profile.max_udp_samples_per_packet * 8;
        let host_queue_capacity: usize = if doubled >= eight_packets {
            doubled
        } else {
            eight_packets
        };
        let point_rate: u32 = if status.point_rate > 0 {
            clamp_point_rate(status, status.point_rate)
        } else {
            clamp_point_rate(status, DEFAULT_POINT_RATE)
        };
        SharedTransportState {
            profile,
            connection_type: status.connection_type,
            status: status.clone(),
            host_queue_len: 0,
            host_queue_capacity,
            free_estimate: smaller(status.buffer_free as usize, status.buffer_max as usize),
            buffer_total,
            point_rate,
            last_estimate: now,
            packets_sent: 0,
            samples_sent: 0,
            acks_received: 0,
            command_successes: 0,
            command_failures: 0,
            send_errors: 0,
            last_data_ack_sequence: None,
            last_ack_free_space: None,
            last_ack_rtt: None,
            packet_errors: status.packet_errors,
            last_ack: None,
            last_full_info: Some(now),
            last_comms: Some(now),
            connected: true,
        }
    }

    /// The state while there is no connection.
    pub fn disconnected(profile: ConnectionProfile, now: u64) -> (r: SharedTransportState)
        ensures
            r.wf(),
            !r.connected,
            r.profile == profile,
            r.connection_type == ConnectionType::Unknown(0),
            r.status.is_minimal(IpAddr::V4(0)),
            r.host_queue_len == 0,
            r.host_queue_capacity == 0,
            r.free_estimate == profile.buffer_total,
            r.buffer_total == profile.buffer_total,
            r.point_rate == 30_000,
            r.last_estimate == now,
            r.packets_sent == 0,
            r.samples_sent == 0,
            r.acks_received == 0,
            r.command_successes == 0,
            r.command_failures == 0,
            r.send_errors == 0,
            r.last_data_ack_sequence is None,
            r.last_ack_free_space is None,
            r.last_ack_rtt is None,
            r.packet_errors == 0,
            r.last_ack is None,
            r.last_full_info is None,
            r.last_comms is None,
    {
        SharedTransportState {
            profile,
            connection_type: ConnectionType::Unknown(0),
            status: LaserCubeNetworkStatus::minimal(IpAddr::V4(0)),
            host_queue_len: 0,
            host_queue_capacity: 0,
            free_estimate: profile.buffer_total,
            buffer_total: profile.buffer_total,
            point_rate: DEFAULT_POINT_RATE,
            last_estimate: now,
            packets_sent: 0,
            samples_sent: 0,
            acks_received: 0,
            command_successes: 0,
            command_failures: 0,
            send_errors: 0,
            last_data_ack_sequence: None,
            last_ack_free_space: None,
            last_ack_rtt: None,
            packet_errors: 0,
            last_ack: None,
            last_full_info: None,
            last_comms: None,
            connected: false,
        }
    }

    /// Claim room for points on the host.
    pub fn reserve_host_points(&mut self, points: usize) -> (r: Result<
        HostQueueReservation,
        CommunicationError,
    >)
        requires
            old(self).wf(),
        ensures
            final(self).wf(),
            r is Ok <==> old(self).host_queue_len + points <= old(self).host_queue_capacity,
            r matches Ok(reservation) ==> {
                &&& reservation.points == points
                &&& *final(self) == (SharedTransportState {
                    host_queue_len: (old(self).host_queue_len + points) as usize,
                    ..*old(self)
                })
            },
            r matches Err(e) ==> e is QueueFull && *final(self) == *old(self),
    {
        if points > self.host_queue_capacity - self.host_queue_len {
            return Err(CommunicationError::QueueFull);
        }
        self.host_queue_len = self.host_queue_len + points;
        Ok(HostQueueReservation { points })
    }

    /// Give up a claim.
    pub fn release_host_points(&mut self, reservation: HostQueueReservation)
        ensures
            *final(self) == (SharedTransportState {
                host_queue_len: pacing::buffered(
                    old(self).host_queue_len as int,
                    reservation.points as int,
                ) as usize,
                ..*old(self)
            }),
            old(self).wf() ==> final(self).wf(),
    {
        self.host_queue_len = self.host_queue_len.saturating_sub(reservation.points);
    }

    pub fn clear_host_queue(&mut self)
        ensures
            *final(self) == (SharedTransportState { host_queue_len: 0, ..*old(self) }),
            old(self).wf() ==> final(self).wf(),
    {
        self.host_queue_len = 0;
    }

    pub fn mark_disconnected(&mut self)
        ensures
            *final(self) == (SharedTransportState { connected: false, ..*old(self) }),
            old(self).wf() ==> final(self).wf(),
            forall|now: u64| !final(self).usable_at(now),
    {
        self.connected = false;
    }

    /// Whether the device answers.
    pub open spec fn usable_at(self, now: u64) -> bool {
        self.connected && !self.stale_at(now)
    }

    /// What is known of the connection by now.
    pub open spec fn snapshot(self, now: u64) -> LaserCubeNetworkDiagnostics {
        LaserCubeNetworkDiagnostics {
            profile: self.profile,
            connection_type: self.connection_type,
            status: self.status,
            connected: self.connected,
            communication_stale: self.stale_at(now),
            host_queue_len: self.host_queue_len,
            host_queue_capacity: self.host_queue_capacity,
            device_free_estimate: self.free_at(now) as usize,
            device_buffered_estimate: self.buffered_at(now) as usize,
            packets_sent: self.packets_sent,
            samples_sent: self.samples_sent,
            acks_received: self.acks_received,
            command_successes: self.command_successes,
            command_failures: self.command_failures,
            send_errors: self.send_errors,
            point_rate: self.point_rate,
            last_data_ack_sequence: self.last_data_ack_sequence,
            last_ack_free_space: self.last_ack_free_space,
            last_ack_rtt: self.last_ack_rtt,
            packet_errors: self.packet_errors,
            last_ack_age: diagnostics::age_of(now, self.last_ack),
            last_full_info_age: diagnostics::age_of(now, self.last_full_info),
            last_comms_age: diagnostics::age_of(now, self.last_comms),
        }
    }

    /// A snapshot for people.
    pub fn diagnostics(&self, now: u64) -> (r: LaserCubeNetworkDiagnostics)
        ensures
            r == self.snapshot(now),
    {
        let free: usize = self.decayed_free(now);
        LaserCubeNetworkDiagnostics {
            profile: self.profile,
            connection_type: self.connection_type,
            status: self.status.clone(),
            connected: self.connected,
            communication_stale: self.communication_stale(now),
            host_queue_len: self.host_queue_len,
            host_queue_capacity: self.host_queue_capacity,
            device_free_estimate: free,
            device_buffered_estimate: self.buffer_total.saturating_sub(free),
            packets_sent: self.packets_sent,
            samples_sent: self.samples_sent,
            acks_received: self.acks_received,
            command_successes: self.command_successes,
            command_failures: self.command_failures,
            send_errors: self.send_errors,
            point_rate: self.point_rate,
            last_data_ack_sequence: self.last_data_ack_sequence,
            last_ack_free_space: self.last_ack_free_space,
            last_ack_rtt: self.last_ack_rtt,
            packet_errors: self.packet_errors,
            last_ack_age: LaserCubeNetworkDiagnostics::age(now, self.last_ack),
            last_full_info_age: LaserCubeNetworkDiagnostics::age(now, self.last_full_info),
            last_comms_age: LaserCubeNetworkDiagnostics::age(now, self.last_comms),
        }
    }

    pub fn is_usable(&self, now: u64) -> (r: bool)
        ensures
            r == self.usable_at(now),
    {
        self.connected && !self.communication_stale(now)
    }

    /// The points that wait on the host and in the device by now.
    pub fn estimated_fullness(&self, now: u64) -> (r: u64)
        ensures
            r == arith::least(
                self.buffered_at(now) + self.host_queue_len,
                usize::MAX as int,
            ),
    {
        let free: usize = self.decayed_free(now);
        let device_buffered: usize = self.buffer_total.saturating_sub(free);
        device_buffered.saturating_add(self.host_queue_len) as u64
    }

    pub fn communication_stale(&self, now: u64) -> (r: bool)
        ensures
            r == self.stale_at(now),
    {
        match self.last_comms {
            Some(last_comms) => now.saturating_sub(last_comms) > COMMS_STALE_TIMEOUT,
            None => self.connected,
        }
    }

    pub fn decayed_free(&self, now: u64) -> (r: usize)
        ensures
            r == self.free_at(now),
    {
        let elapsed: u64 = now.saturating_sub(self.last_estimate);
        grown_free(self.free_estimate, self.buffer_total, elapsed, self.point_rate)
    }

    /// Move the estimate on to `now`, if the device has played a point since.
    pub fn decay_free_estimate(&mut self, now: u64)
        ensures
            *final(self) == if drained(
                arith::since(now, old(self).last_estimate),
                old(self).point_rate,
            ) > 0 {
                SharedTransportState {
                    free_estimate: old(self).free_at(now) as usize,
                    last_estimate: now,
                    ..*old(self)
                }
            } else {
                *old(self)
            },
            old(self).wf() ==> final(self).wf(),
    {
        let elapsed: u64 = now.saturating_sub(self.last_estimate);
        proof {
            lemma_drained_bound(elapsed, self.point_rate);
        }
        if elapsed as u128 * self.point_rate as u128 >= 1_000_000_000 {
            self.free_estimate = self.decayed_free(now);
            self.last_estimate = now;
        }
    }

    /// The state after the device has told its status.
    pub open spec fn with_status(self, status: LaserCubeNetworkStatus, now: u64) -> SharedTransportState {
        SharedTransportState {
            connection_type: status.connection_type,
            packet_errors: status.packet_errors,
            buffer_total: buffer_total_of(status.buffer_max),
            free_estimate: arith::least(
                status.buffer_free as int,
                buffer_total_of(status.buffer_max) as int,
            ) as usize,
            point_rate: if status.point_rate > 0 {
                lasercube_network::clamped_rate(status, status.point_rate)
            } else {
                self.point_rate
            },
            last_estimate: now,
            last_full_info: Some(now),
            last_comms: Some(now),
            status,
            ..self
        }
    }

    pub fn apply_status(&mut self, status: LaserCubeNetworkStatus, now: u64)
        ensures
            *final(self) == old(self).with_status(status, now),
            old(self).wf() ==> final(self).wf(),
    {
        self.connection_type = status.connection_type;
        self.packet_errors = status.packet_errors;
        self.buffer_total = buffer_total_from_max(status.buffer_max);
        self.free_estimate = smaller(status.buffer_free as usize, self.buffer_total);
        if status.point_rate > 0 {
            self.point_rate = clamp_point_rate(&status, status.point_rate);
        }
        self.last_estimate = now;
        self.last_full_info = Some(now);
        self.last_comms = Some(now);
        self.status = status;
    }

    /// The state after a packet of `sent` points has left.
    pub open spec fn after_send(self, now: u64, sent: usize) -> SharedTransportState {
        SharedTransportState {
            free_estimate: pacing::buffered(self.free_estimate as int, sent as int) as usize,
            last_estimate: now,
            host_queue_len: pacing::buffered(self.host_queue_len as int, sent as int) as usize,
            packets_sent: arith::least(self.packets_sent + 1, u64::MAX as int) as u64,
            samples_sent: arith::least(self.samples_sent + sent, u64::MAX as int) as u64,
            ..self
        }
    }

    pub fn record_send(&mut self, now: u64, sent: usize)
        ensures
            *final(self) == old(self).after_send(now, sent),
            old(self).wf() ==> final(self).wf(),
    {
        self.free_estimate = self.free_estimate.saturating_sub(sent);
        self.last_estimate = now;
        self.host_queue_len = self.host_queue_len.saturating_sub(sent);
        self.packets_sent = self.packets_sent.saturating_add(1);
        self.samples_sent = self.samples_sent.saturating_add(sent as u64);
    }

    pub fn record_send_error(&mut self)
        ensures
            *final(self) == (SharedTransportState {
                send_errors: arith::least(old(self).send_errors + 1, u64::MAX as int) as u64,
                ..*old(self)
            }),
            old(self).wf() ==> final(self).wf(),
    {
        self.send_errors = self.send_errors.saturating_add(1);
    }

    /// The state after an answer to a command that is no acknowledgment: its second
    /// byte says whether the command succeeded.
    pub open spec fn after_response(self, now: u64, s: Seq<u8>) -> SharedTransportState {
        if s.len() < 2 {
            self
        } else if s[1] == 0 {
            SharedTransportState {
                command_successes: arith::least(self.command_successes + 1, u64::MAX as int) as u64,
                last_comms: Some(now),
                ..self
            }
        } else {
            SharedTransportState {
                command_failures: arith::least(self.command_failures + 1, u64::MAX as int) as u64,
                last_comms: Some(now),
                ..self
            }
        }
    }

    pub fn record_command_response(&mut self, now: u64, buffer: &[u8])
        ensures
            *final(self) == old(self).after_response(now, buffer@),
            old(self).wf() ==> final(self).wf(),
    {
        if buffer.len() < 2 {
            return;
        }
        if buffer[1] == 0 {
            self.command_successes = self.command_successes.saturating_add(1);
        } else {
            self.command_failures = self.command_failures.saturating_add(1);
        }
        self.last_comms = Some(now);
    }

    pub fn record_output_enabled(&mut self, enabled: bool)
        ensures
            *final(self) == (SharedTransportState {
                status: LaserCubeNetworkStatus { output_enabled: enabled, ..old(self).status },
                ..*old(self)
            }),
            old(self).wf() ==> final(self).wf(),
    {
        self.status.output_enabled = enabled;
    }
}

/// Time only gives room: the later one asks, the freer the device is thought to be,
/// never freer than empty.
pub proof fn free_space_grows(state: SharedTransportState, earlier: u64, later: u64)
    requires
        state.wf(),
        earlier <= later,
    ensures
        state.free_estimate <= state.free_at(earlier) <= state.free_at(later) <= state.buffer_total,
{
    let e = arith::since(earlier, state.last_estimate);
    let l = arith::since(later, state.last_estimate);
    let rate = state.point_rate;
    lemma_drained_bound(e, rate);
    assert(e * rate <= l * rate) by (nonlinear_arith)
        requires
            e <= l,
            rate >= 0,
    ;
}

/// A connection is usable while the device has been heard within the last four
/// seconds, and not after.
pub proof fn silence_makes_unusable(state: SharedTransportState, heard: u64, now: u64)
    requires
        state.connected,
        state.last_comms == Some(heard),
        heard <= now,
    ensures
        state.usable_at(now) <==> now - heard <= 4_000_000_000,
{
}

/// The device is believed about its free space: after it has told its status, the
/// estimate is what it reports, and never more; it holds from then on. What waits in the
/// device is the rest of its buffer.
pub proof fn status_is_believed(state: SharedTransportState, status: LaserCubeNetworkStatus, now: u64)
    ensures
        ({
            let after = state.with_status(status, now);
            &&& after.free_estimate <= status.buffer_free
            &&& after.free_estimate <= after.buffer_total
            &&& status.buffer_max > 0 ==> after.buffer_total == status.buffer_max
            &&& status.buffer_max > 0 && status.buffer_free <= status.buffer_max ==> {
                &&& after.free_estimate == status.buffer_free
                &&& after.free_at(now) == status.buffer_free
                &&& after.buffered_at(now) + status.buffer_free == status.buffer_max
            }
            &&& status.buffer_max > 0 && status.buffer_free > status.buffer_max
                ==> after.free_estimate == status.buffer_max
            &&& after.last_estimate == now
            &&& after.status == status
        }),
{
    lemma_drained_bound(0, state.with_status(status, now).point_rate);
    assert(drained(0, state.with_status(status, now).point_rate) == 0) by {
        assert(0 * state.with_status(status, now).point_rate == 0) by (nonlinear_arith);
    }
}

/// A status shows that the device lives. It changes neither what waits on the host nor
/// what was counted, and the rate only where it tells one, held to what the device plays.
pub proof fn status_shows_life(state: SharedTransportState, status: LaserCubeNetworkStatus, now: u64)
    ensures
        ({
            let after = state.with_status(status, now);
            &&& after.last_comms == Some(now)
            &&& after.last_full_info == Some(now)
            &&& state.connected ==> after.usable_at(now)
            &&& after.connected == state.connected
            &&& after.host_queue_len == state.host_queue_len
            &&& after.host_queue_capacity == state.host_queue_capacity
            &&& after.packets_sent == state.packets_sent
            &&& after.samples_sent == state.samples_sent
            &&& after.acks_received == state.acks_received
            &&& after.last_data_ack_sequence == state.last_data_ack_sequence
            &&& after.profile == state.profile
            &&& after.packet_errors == status.packet_errors
            &&& after.connection_type == status.connection_type
            &&& status.point_rate == 0 ==> after.point_rate == state.point_rate
            &&& status.point_rate > 0 ==> after.point_rate <= status.point_rate
        }),
{
    lasercube_network::rate_is_held_to_device(status, status.point_rate);
}

/// A fresh connection believes the status that the device was found with, is usable, and
/// has room on the host for two device buffers and for eight packets.
pub proof fn fresh_connection_believes_status(
    status: LaserCubeNetworkStatus,
    profile: ConnectionProfile,
    now: u64,
)
    requires
        profile.max_udp_samples_per_packet * 8 <= usize::MAX,
    ensures
        ({
            let state = SharedTransportState::fresh(status, profile, now);
            &&& state.wf()
            &&& state.usable_at(now)
            &&& state.free_estimate <= status.buffer_free
            &&& status.buffer_free <= status.buffer_max ==> state.free_estimate == status.buffer_free
            &&& status.buffer_max > 0 ==> state.buffer_total == status.buffer_max
            &&& status.buffer_max == 0 ==> state.buffer_total == 6000
            &&& state.host_queue_len == 0
            &&& state.host_queue_capacity >= 2 * state.buffer_total
            &&& state.host_queue_capacity >= 8 * profile.max_udp_samples_per_packet
            &&& state.host_queue_capacity == 2 * state.buffer_total || state.host_queue_capacity == 8
                * profile.max_udp_samples_per_packet
            &&& status.point_rate > 0 ==> state.point_rate <= status.point_rate
            &&& state.packets_sent == 0 && state.acks_received == 0
            &&& state.last_data_ack_sequence is None
        }),
{
    lasercube_network::rate_is_held_to_device(status, status.point_rate);
}

/// What has left counts as in the device from the moment it left, and no longer as on the
/// host.
pub proof fn sent_points_move_to_the_device(state: SharedTransportState, now: u64, sent: usize)
    requires
        state.wf(),
        sent <= state.free_estimate,
        sent <= state.host_queue_len,
        state.packets_sent < u64::MAX,
        state.samples_sent + sent <= u64::MAX,
    ensures
        ({
            let after = state.after_send(now, sent);
            &&& after.buffered_at(now) == state.buffer_total - state.free_estimate + sent
            &&& after.buffered_at(now) + after.host_queue_len == state.buffer_total
                - state.free_estimate + state.host_queue_len
            &&& after.packets_sent == state.packets_sent + 1
            &&& after.samples_sent == state.samples_sent + sent
            &&& after.last_comms == state.last_comms
            &&& after.acks_received == state.acks_received
        }),
{
    lemma_drained_bound(0, state.point_rate);
    assert(0 * state.point_rate == 0) by (nonlinear_arith);
}

/// As time passes the device plays what it has: as many whole points as its rate gives
/// since the estimate, as long as it has any.
pub proof fn device_plays_at_its_rate(state: SharedTransportState, now: u64)
    requires
        state.wf(),
        now >= state.last_estimate,
    ensures
        ({
            let played = state.free_at(now) - state.free_estimate;
            let passed = (now - state.last_estimate) * state.point_rate;
            &&& played * 1_000_000_000 <= passed
            &&& state.free_at(now) < state.buffer_total ==> passed < (played + 1) * 1_000_000_000
            &&& state.free_at(now) + state.buffered_at(now) == state.buffer_total
        }),
{
    lemma_drained_bound((now - state.last_estimate) as u64, state.point_rate);
}

/// Moving the estimate on loses nothing: the device is as free right then as it was
/// thought to be before.
pub proof fn decay_keeps_the_estimate()
    ensures
        forall|s: &mut SharedTransportState, now: u64|
            #[trigger] call_ensures(SharedTransportState::decay_free_estimate, (s, now), ()) && s.wf()
                && s.last_estimate <= now ==> {
                &&& final(s).free_estimate == s.free_at(now)
                &&& final(s).last_estimate == now || final(s).last_estimate == s.last_estimate
                &&& final(s).host_queue_len == s.host_queue_len
                &&& final(s).buffer_total == s.buffer_total
            },
{
    assert forall|s: &mut SharedTransportState, now: u64|
        #[trigger] call_ensures(SharedTransportState::decay_free_estimate, (s, now), ()) && s.wf()
            && s.last_estimate <= now implies final(s).free_estimate == s.free_at(now) by {
        lemma_drained_bound((now - s.last_estimate) as u64, s.point_rate);
    }
}

/// All points that are not yet played count as waiting, on the host or in the device.
pub proof fn fullness_counts_host_and_device()
    ensures
        forall|s: &SharedTransportState, now: u64, r: u64|
            #[trigger] call_ensures(SharedTransportState::estimated_fullness, (s, now), r) && s.wf()
                && s.buffer_total + s.host_queue_len <= usize::MAX ==> r + s.free_at(now)
                == s.buffer_total + s.host_queue_len,
{
    assert forall|s: &SharedTransportState, now: u64, r: u64|
        #[trigger] call_ensures(SharedTransportState::estimated_fullness, (s, now), r) && s.wf()
            && s.buffer_total + s.host_queue_len <= usize::MAX implies r + s.free_at(now)
        == s.buffer_total + s.host_queue_len by {
        lemma_drained_bound(arith::since(now, s.last_estimate), s.point_rate);
    }
}

/// Room on the host is given until it is used up, and what is given up is there again.
pub proof fn host_room_is_claimed_and_released()
    ensures
        forall|
            s: &mut SharedTransportState,
            points: usize,
            r: Result<HostQueueReservation, CommunicationError>,
        |
            #[trigger] call_ensures(SharedTransportState::reserve_host_points, (s, points), r)
                && s.wf() ==> {
                &&& r is Ok <==> s.host_queue_len + points <= s.host_queue_capacity
                &&& r matches Ok(claim) ==> claim.points == points && final(s).host_queue_len
                    == s.host_queue_len + points
                &&& r is Err ==> *final(s) == *s
            },
        forall|s: &mut SharedTransportState, claim: HostQueueReservation|
            #[trigger] call_ensures(SharedTransportState::release_host_points, (s, claim), ())
                && claim.points <= s.host_queue_len ==> final(s).host_queue_len + claim.points
                == s.host_queue_len && final(s).free_estimate == s.free_estimate,
{
}

/// The answer to a command counts by its second byte, and shows that the device lives; one
/// without such a byte is none.
pub proof fn answers_are_counted(state: SharedTransportState, now: u64, s: Seq<u8>)
    requires
        state.command_successes < u64::MAX,
        state.command_failures < u64::MAX,
    ensures
        ({
            let after = state.after_response(now, s);
            let counted = after.command_successes + after.command_failures
                - state.command_successes - state.command_failures;
            &&& s.len() < 2 ==> after == state
            &&& s.len() >= 2 ==> counted == 1 && after.last_comms == Some(now)
            &&& s.len() >= 2 ==> (s[1] == 0 <==> after.command_successes == state.command_successes + 1)
            &&& after.free_estimate == state.free_estimate
        }),
{
}

/// A snapshot shows the whole buffer, told apart into free and waiting, and how long ago
/// the device was heard.
pub proof fn snapshot_shows_the_state(state: SharedTransportState, now: u64)
    requires
        state.wf(),
    ensures
        ({
            let d = state.snapshot(now);
            &&& d.device_free_estimate + d.device_buffered_estimate == state.buffer_total
            &&& d.device_free_estimate == state.free_at(now)
            &&& d.host_queue_len == state.host_queue_len
            &&& d.packets_sent == state.packets_sent
            &&& d.samples_sent == state.samples_sent
            &&& d.acks_received == state.acks_received
            &&& d.send_errors == state.send_errors
            &&& state.connected ==> (d.communication_stale <==> !state.usable_at(now))
            &&& state.last_comms matches Some(t) ==> t <= now ==> d.last_comms_age == Some(
                (now - t) as u64,
            )
            &&& state.last_ack matches Some(t) ==> t <= now ==> d.last_ack_age == Some(
                (now - t) as u64,
            )
        }),
{
    lemma_drained_bound(arith::since(now, state.last_estimate), state.point_rate);
}

/// What the calls do to the state is what the device has told, and what was sent to it.
pub proof fn state_follows_the_device()
    ensures
        forall|s: &mut SharedTransportState, status: LaserCubeNetworkStatus, now: u64| #[trigger]
            call_ensures(SharedTransportState::apply_status, (s, status, now), ()) ==> {
                &&& final(s).status == status
                &&& final(s).connection_type == status.connection_type
                &&& status.buffer_max > 0 ==> final(s).buffer_total == status.buffer_max
                &&& status.buffer_max > 0 && status.buffer_free <= status.buffer_max ==> final(s).free_estimate == status.buffer_free
                &&& final(s).free_estimate <= status.buffer_free
                &&& final(s).last_comms == Some(now)
                &&& final(s).last_estimate == now
                &&& final(s).host_queue_len == s.host_queue_len
            },
        forall|s: &mut SharedTransportState, now: u64, sent: usize| #[trigger]
            call_ensures(SharedTransportState::record_send, (s, now, sent), ()) ==> {
                &&& sent <= s.free_estimate ==> final(s).free_estimate + sent == s.free_estimate
                &&& sent > s.free_estimate ==> final(s).free_estimate == 0
                &&& sent <= s.host_queue_len ==> final(s).host_queue_len + sent == s.host_queue_len
                &&& s.packets_sent < u64::MAX ==> final(s).packets_sent == s.packets_sent + 1
                &&& s.samples_sent + sent <= u64::MAX ==> final(s).samples_sent == s.samples_sent
                    + sent
                &&& final(s).last_estimate == now
                &&& final(s).last_comms == s.last_comms
                &&& final(s).status == s.status
            },
        forall|s: &mut SharedTransportState, now: u64, b: &[u8]| #[trigger]
            call_ensures(SharedTransportState::record_command_response, (s, now, b), ()) ==> {
                &&& b@.len() < 2 ==> *final(s) == *s
                &&& b@.len() >= 2 ==> final(s).last_comms == Some(now)
                &&& b@.len() >= 2 && b@[1] == 0 && s.command_successes < u64::MAX ==> final(s).command_successes == s.command_successes + 1 && final(s).command_failures
                    == s.command_failures
                &&& b@.len() >= 2 && b@[1] != 0 && s.command_failures < u64::MAX ==> final(s).command_failures == s.command_failures + 1 && final(s).command_successes
                    == s.command_successes
                &&& final(s).free_estimate == s.free_estimate
            },
        forall|s: &mut SharedTransportState| #[trigger]
            call_ensures(SharedTransportState::record_send_error, (s,), ()) ==> {
                &&& s.send_errors < u64::MAX ==> final(s).send_errors == s.send_errors + 1
                &&& final(s).free_estimate == s.free_estimate
                &&& final(s).host_queue_len == s.host_queue_len
                &&& final(s).last_comms == s.last_comms
            },
        forall|s: &mut SharedTransportState, on: bool| #[trigger]
            call_ensures(SharedTransportState::record_output_enabled, (s, on), ()) ==> {
                &&& final(s).status.output_enabled == on
                &&& final(s).status.buffer_free == s.status.buffer_free
                &&& final(s).free_estimate == s.free_estimate
                &&& final(s).host_queue_len == s.host_queue_len
            },
        forall|s: &mut SharedTransportState| #[trigger]
            call_ensures(SharedTransportState::clear_host_queue, (s,), ()) ==> final(s).host_queue_len == 0 && final(s).free_estimate == s.free_estimate && final(s).connected
                == s.connected,
        forall|s: &mut SharedTransportState| #[trigger]
            call_ensures(SharedTransportState::mark_disconnected, (s,), ()) ==> !final(s).connected
                && final(s).host_queue_len == s.host_queue_len && final(s).free_estimate
                == s.free_estimate,
{
}

/// A connection can be used while the device was heard of in the last four seconds.
pub proof fn silence_ends_the_connection()
    ensures
        forall|s: &SharedTransportState, now: u64, r: bool| #[trigger]
            call_ensures(SharedTransportState::is_usable, (s, now), r) ==> {
                &&& r ==> s.connected
                &&& s.last_comms matches Some(t) ==> (r <==> s.connected && now <= t
                    + 4_000_000_000)
                &&& s.last_comms is None ==> !r
            },
        forall|s: &SharedTransportState, now: u64, r: bool| #[trigger]
            call_ensures(SharedTransportState::communication_stale, (s, now), r) ==> {
                &&& s.last_comms matches Some(t) ==> (r <==> now > t + 4_000_000_000)
                &&& s.last_comms is None ==> r == s.connected
            },
        forall|s: &SharedTransportState, now: u64, r: usize| #[trigger]
            call_ensures(SharedTransportState::decayed_free, (s, now), r) ==> r == s.free_at(now),
        forall|max: u16, r: usize| #[trigger]
            call_ensures(buffer_total_from_max, (max,), r) ==> {
                &&& max > 0 ==> r == max
                &&& max == 0 ==> r == 6000
            },
        forall|p: ConnectionProfile, now: u64, r: SharedTransportState| #[trigger]
            call_ensures(SharedTransportState::disconnected, (p, now), r) ==> {
                &&& !r.connected
                &&& r.profile == p
                &&& r.free_estimate == r.buffer_total && r.buffer_total == p.buffer_total
                &&& r.host_queue_len == 0 && r.packets_sent == 0 && r.acks_received == 0
                &&& r.last_comms is None
            },
{
}

} // verus!
