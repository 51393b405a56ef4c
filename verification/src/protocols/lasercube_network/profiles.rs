//! Source-labeled LaserCube network connection profiles.

use vstd::prelude::*;

verus! {

/// How the device is attached to the network.
#[derive(Copy, Clone, Debug, PartialEq, Eq, Structural)]
pub enum ConnectionType {
    EthernetServer,
    WifiServer,
    EthernetClient,
    WifiClient,
    Unknown(u8),
}

impl ConnectionType {
    /// The connection a status byte stands for.
    pub open spec fn of_byte(raw: u8) -> ConnectionType {
        if raw == 0 {
            ConnectionType::EthernetServer
        } else if raw == 1 {
            ConnectionType::WifiServer
        } else if raw == 2 {
            ConnectionType::EthernetClient
        } else if raw == 3 {
            ConnectionType::WifiClient
        } else {
            ConnectionType::Unknown(raw)
        }
    }

    pub fn from_status_byte(raw: u8) -> (r: ConnectionType)
        ensures
            r == ConnectionType::of_byte(raw),
    {
        match raw {
            0 => ConnectionType::EthernetServer,
            1 => ConnectionType::WifiServer,
            2 => ConnectionType::EthernetClient,
            3 => ConnectionType::WifiClient,
            other => ConnectionType::Unknown(other),
        }
    }
}

/// Where the numbers of a profile come from.
#[derive(Copy, Clone, Debug, PartialEq, Eq, Structural)]
pub enum ProfileSource {
    DesktopNetworkDefault,
    UnknownConservative,
}

/// How to feed a device over one kind of connection. Waits are in nanoseconds.
#[derive(Copy, Clone, Debug, PartialEq, Eq, Structural)]
pub struct ConnectionProfile {
    pub source: ProfileSource,
    pub connection_type: ConnectionType,
    pub source_chunk_samples: usize,
    /// How full the device buffer is kept at most.
    pub remote_buffer_cutoff: usize,
    pub wait_connect_sleep: u64,
    pub wait_buffer_sleep: u64,
    pub post_send_sleep: u64,
    pub max_udp_samples_per_packet: usize,
    pub configured_packets_per_transfer: usize,
    pub buffer_total: usize,
}

impl ConnectionProfile {
    /// The profile for a connection to a device with this buffer. Over a WiFi
    /// server connection packets are larger and the buffer is kept fuller; for an
    /// unknown connection the cautious numbers are taken.
    pub open spec fn of(connection_type: ConnectionType, buffer_total: usize) -> ConnectionProfile {
        let wifi = connection_type is WifiServer;
        let known = !(connection_type is Unknown);
        let cutoff: usize = if wifi {
            2000
        } else {
            1800
        };
        ConnectionProfile {
            source: if known {
                ProfileSource::DesktopNetworkDefault
            } else {
                ProfileSource::UnknownConservative
            },
            connection_type: if known {
                connection_type
            } else {
                ConnectionType::Unknown(0)
            },
            source_chunk_samples: if wifi {
                600
            } else {
                700
            },
            remote_buffer_cutoff: if cutoff <= buffer_total {
                cutoff
            } else {
                buffer_total
            },
            wait_connect_sleep: 12_000_000,
            wait_buffer_sleep: if wifi {
                4_000_000
            } else {
                6_000_000
            },
            post_send_sleep: if wifi {
                10_000_000
            } else {
                4_000_000
            },
            max_udp_samples_per_packet: if wifi {
                140
            } else {
                80
            },
            configured_packets_per_transfer: 20,
            buffer_total,
        }
    }

    pub fn for_connection(connection_type: ConnectionType, buffer_total: usize) -> (r:
        ConnectionProfile)
        ensures
            r == ConnectionProfile::of(connection_type, buffer_total),
    {
        match connection_type {
            ConnectionType::WifiServer => {
                Self::desktop(connection_type, 600, 2000, 12, 4, 10, 140, 20, buffer_total)
            },
            ConnectionType::EthernetServer | ConnectionType::EthernetClient
            | ConnectionType::WifiClient => {
                Self::desktop(connection_type, 700, 1800, 12, 6, 4, 80, 20, buffer_total)
            },
            ConnectionType::Unknown(_) => Self::unknown_conservative(buffer_total),
        }
    }

    pub fn unknown_conservative(buffer_total: usize) -> (r: ConnectionProfile)
        ensures
            r == ConnectionProfile::of(ConnectionType::Unknown(0), buffer_total),
    {
        ConnectionProfile {
            source: ProfileSource::UnknownConservative,
            connection_type: ConnectionType::Unknown(0),
            source_chunk_samples: 700,
            remote_buffer_cutoff: if 1800 <= buffer_total {
                1800
            } else {
                buffer_total
            },
            wait_connect_sleep: 12_000_000,
            wait_buffer_sleep: 6_000_000,
            post_send_sleep: 4_000_000,
            max_udp_samples_per_packet: 80,
            configured_packets_per_transfer: 20,
            buffer_total,
        }
    }

    fn desktop(
        connection_type: ConnectionType,
        source_chunk_samples: usize,
        remote_buffer_cutoff: usize,
        wait_connect_sleep_ms: u64,
        wait_buffer_sleep_ms: u64,
        post_send_sleep_ms: u64,
        max_udp_samples_per_packet: usize,
        configured_packets_per_transfer: usize,
        buffer_total: usize,
    ) -> (r: ConnectionProfile)
        requires
            wait_connect_sleep_ms <= 1000,
            wait_buffer_sleep_ms <= 1000,
            post_send_sleep_ms <= 1000,
        ensures
            r == (ConnectionProfile {
                source: ProfileSource::DesktopNetworkDefault,
                connection_type,
                source_chunk_samples,
                remote_buffer_cutoff: if remote_buffer_cutoff <= buffer_total {
                    remote_buffer_cutoff
                } else {
                    buffer_total
                },
                wait_connect_sleep: (wait_connect_sleep_ms * 1_000_000) as u64,
                wait_buffer_sleep: (wait_buffer_sleep_ms * 1_000_000) as u64,
                post_send_sleep: (post_send_sleep_ms * 1_000_000) as u64,
                max_udp_samples_per_packet,
                configured_packets_per_transfer,
                buffer_total,
            }),
    {
        ConnectionProfile {
            source: ProfileSource::DesktopNetworkDefault,
            connection_type,
            source_chunk_samples,
            remote_buffer_cutoff: if remote_buffer_cutoff <= buffer_total {
                remote_buffer_cutoff
            } else {
                buffer_total
            },
            wait_connect_sleep: wait_connect_sleep_ms * 1_000_000,
            wait_buffer_sleep: wait_buffer_sleep_ms * 1_000_000,
            post_send_sleep: post_send_sleep_ms * 1_000_000,
            max_udp_samples_per_packet,
            configured_packets_per_transfer,
            buffer_total,
        }
    }
}

/// Whatever the connection, a packet of the profile is not empty and fits one
/// sample packet, and the device is not filled past its buffer.
pub proof fn profile_packets_fit(connection_type: ConnectionType, buffer_total: usize)
    ensures
        ({
            let p = ConnectionProfile::of(connection_type, buffer_total);
            &&& 1 <= p.max_udp_samples_per_packet <= 140
            &&& p.remote_buffer_cutoff <= buffer_total
        }),
{
}

/// A device on a WiFi server connection gets the largest packets and is kept fullest; on
/// any other, known or not, packets and buffer are the same. Either is held to the buffer.
pub proof fn wifi_server_is_kept_fullest(connection_type: ConnectionType, buffer_total: usize)
    ensures
        ({
            let p = ConnectionProfile::of(connection_type, buffer_total);
            let limit: int = if connection_type is WifiServer {
                2000
            } else {
                1800
            };
            &&& p.remote_buffer_cutoff <= limit
            &&& p.remote_buffer_cutoff == limit || p.remote_buffer_cutoff == buffer_total
            &&& connection_type is WifiServer <==> p.max_udp_samples_per_packet == 140
            &&& !(connection_type is WifiServer) <==> p.max_udp_samples_per_packet == 80
            &&& connection_type is WifiServer ==> p.wait_buffer_sleep == 4_000_000
            &&& !(connection_type is WifiServer) ==> p.wait_buffer_sleep == 6_000_000
            &&& p.buffer_total == buffer_total
            &&& connection_type is Unknown <==> p.source is UnknownConservative
            &&& !(connection_type is Unknown) ==> p.connection_type == connection_type
        }),
{
}

/// The four known connections have a byte each; any other byte is kept.
pub proof fn connection_byte_is_known(raw: u8)
    ensures
        ConnectionType::of_byte(raw) is EthernetServer <==> raw == 0,
        ConnectionType::of_byte(raw) is WifiServer <==> raw == 1,
        ConnectionType::of_byte(raw) is EthernetClient <==> raw == 2,
        ConnectionType::of_byte(raw) is WifiClient <==> raw == 3,
        raw > 3 ==> ConnectionType::of_byte(raw) == ConnectionType::Unknown(raw),
{
}

} // verus!
