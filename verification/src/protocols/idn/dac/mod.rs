//! IDN servers and the services they offer.

pub mod stream;

use vstd::prelude::*;

use crate::bytes;
use crate::net::SocketAddr;
use crate::protocols::idn::protocol::{
    IDNFLG_SCAN_STATUS_EXCLUDED, IDNFLG_SCAN_STATUS_MALFUNCTION, IDNFLG_SCAN_STATUS_OCCUPIED,
    IDNFLG_SCAN_STATUS_OFFLINE, IDNFLG_SCAN_STATUS_REALTIME, IDNFLG_SERVICEMAP_DSID,
    IDNVAL_STYPE_DMX512, IDNVAL_STYPE_LAPRO, IDNVAL_STYPE_UART,
};
use crate::text::utf8_text;

verus! {

/// The type of service offered by an IDN server.
#[derive(Clone, Copy, Debug, PartialEq, Eq, Structural)]
pub enum ServiceType {
    /// Standard laser projector (IDNVAL_STYPE_LAPRO)
    LaserProjector,
    /// Generic UART interface
    Uart,
    /// DMX512 interface
    Dmx512,
    /// Unknown service type
    Unknown(u8),
}

impl ServiceType {
    /// The type a service type byte stands for. All of `0x80..=0xBF` are laser
    /// projectors.
    pub open spec fn of_byte(value: u8) -> ServiceType {
        if 0x80 <= value <= 0xBF {
            ServiceType::LaserProjector
        } else if value == IDNVAL_STYPE_UART {
            ServiceType::Uart
        } else if value == IDNVAL_STYPE_DMX512 {
            ServiceType::Dmx512
        } else {
            ServiceType::Unknown(value)
        }
    }

    /// The byte a service type is written as.
    pub open spec fn to_byte(self) -> u8 {
        match self {
            ServiceType::LaserProjector => IDNVAL_STYPE_LAPRO,
            ServiceType::Uart => IDNVAL_STYPE_UART,
            ServiceType::Dmx512 => IDNVAL_STYPE_DMX512,
            ServiceType::Unknown(v) => v,
        }
    }
}

impl From<u8> for ServiceType {
    fn from(value: u8) -> (r: ServiceType) {
        if value >= 0x80 && value <= 0xBF {
            ServiceType::LaserProjector
        } else if value == IDNVAL_STYPE_UART {
            ServiceType::Uart
        } else if value == IDNVAL_STYPE_DMX512 {
            ServiceType::Dmx512
        } else {
            ServiceType::Unknown(value)
        }
    }
}

impl vstd::std_specs::convert::FromSpecImpl<u8> for ServiceType {
    open spec fn obeys_from_spec() -> bool {
        true
    }

    open spec fn from_spec(value: u8) -> ServiceType {
        ServiceType::of_byte(value)
    }
}

impl From<ServiceType> for u8 {
    fn from(value: ServiceType) -> (r: u8) {
        match value {
            ServiceType::LaserProjector => IDNVAL_STYPE_LAPRO,
            ServiceType::Uart => IDNVAL_STYPE_UART,
            ServiceType::Dmx512 => IDNVAL_STYPE_DMX512,
            ServiceType::Unknown(v) => v,
        }
    }
}

impl vstd::std_specs::convert::FromSpecImpl<ServiceType> for u8 {
    open spec fn obeys_from_spec() -> bool {
        true
    }

    open spec fn from_spec(value: ServiceType) -> u8 {
        value.to_byte()
    }
}

/// Writing a service type that was read keeps its meaning.
pub proof fn service_type_round_trip(value: u8)
    ensures
        ServiceType::of_byte(ServiceType::of_byte(value).to_byte()) == ServiceType::of_byte(value),
{
}

/// An entry of a service map (24 bytes).
#[derive(Clone, Copy, Debug)]
pub struct ServiceMapEntry {
    pub service_id: u8,
    pub service_type: u8,
    pub flags: u8,
    pub relay_number: u8,
    pub name: [u8; 20],
}

/// The text in a zero-terminated field: empty if it is not valid UTF-8.
pub open spec fn field_text(s: Seq<u8>) -> Seq<char> {
    if vstd::utf8::valid_utf8(bytes::until_zero(s)) {
        vstd::utf8::decode_utf8(bytes::until_zero(s))
    } else {
        seq![]
    }
}

/// Read the text in a zero-terminated field.
pub fn read_field(field: &[u8]) -> (r: String)
    ensures
        r@ == field_text(field@),
{
    let mut head: Vec<u8> = Vec::new();
    let mut i: usize = 0;
    assert(field@.skip(0) =~= field@);
    assert(head@ + bytes::until_zero(field@) =~= bytes::until_zero(field@));
    while i < field.len() && field[i] != 0
        invariant
            i <= field.len(),
            head@ + bytes::until_zero(field@.skip(i as int)) == bytes::until_zero(field@),
        decreases field.len() - i,
    {
        let ghost before = head@;
        proof {
            let rest = field@.skip(i as int);
            assert(rest[0] == field@[i as int]);
            assert(rest.skip(1) =~= field@.skip(i + 1));
            assert(before.push(rest[0]) + bytes::until_zero(rest.skip(1)) =~= before + (seq![rest[0]]
                + bytes::until_zero(rest.skip(1))));
        }
        head.push(field[i]);
        i += 1;
    }
    proof {
        let rest = field@.skip(i as int);
        assert(rest.len() == 0 || rest[0] == field@[i as int]);
        assert(bytes::until_zero(rest) =~= seq![]);
        assert(head@ =~= bytes::until_zero(field@));
    }
    let ghost encoded = head@;
    match utf8_text(head) {
        Some(s) => {
            proof {
                vstd::utf8::encode_utf8_decode_utf8(s@);
            }
            s
        },
        None => {
            let empty = String::new();
            assert(empty@ =~= seq![]);
            empty
        },
    }
}

impl ServiceMapEntry {
    pub const SIZE_BYTES: usize = 24;

    /// The name without its padding.
    pub fn name_str(&self) -> (r: String)
        ensures
            r@ == field_text(self.name@),
    {
        read_field(self.name.as_slice())
    }
}

/// Information about a relay device that can route to multiple services.
#[derive(Debug)]
pub struct RelayInfo {
    /// The relay number (1-based)
    pub relay_number: u8,
    /// The relay's name
    pub name: String,
    /// The network address of the relay (if different from main server)
    pub address: Option<SocketAddr>,
}

impl RelayInfo {
    /// Create a new relay info from a service map entry.
    pub fn from_entry(entry: &ServiceMapEntry) -> (r: RelayInfo)
        ensures
            r.relay_number == entry.relay_number,
            r.name@ == field_text(entry.name@),
            r.address is None,
    {
        RelayInfo { relay_number: entry.relay_number, name: entry.name_str(), address: None }
    }
}

impl Clone for RelayInfo {
    fn clone(&self) -> (r: RelayInfo)
        ensures
            r == *self,
    {
        RelayInfo {
            relay_number: self.relay_number,
            name: self.name.clone(),
            address: self.address,
        }
    }
}

/// Information about a service offered by an IDN server.
#[derive(Debug)]
pub struct ServiceInfo {
    /// The service ID (used when connecting)
    pub service_id: u8,
    /// The type of service
    pub service_type: ServiceType,
    /// The service's name
    pub name: String,
    /// Status flags
    pub flags: u8,
    /// The relay number this service is attached to (0 = root/direct)
    pub relay_number: u8,
}

impl ServiceInfo {
    /// Create a new service info from a service map entry.
    pub fn from_entry(entry: &ServiceMapEntry) -> (r: ServiceInfo)
        ensures
            r.service_id == entry.service_id,
            r.service_type == ServiceType::of_byte(entry.service_type),
            r.name@ == field_text(entry.name@),
            r.flags == entry.flags,
            r.relay_number == entry.relay_number,
    {
        ServiceInfo {
            service_id: entry.service_id,
            service_type: ServiceType::from(entry.service_type),
            name: entry.name_str(),
            flags: entry.flags,
            relay_number: entry.relay_number,
        }
    }

    /// Check if this service is a laser projector.
    pub fn is_laser_projector(&self) -> (r: bool)
        ensures
            r == (self.service_type == ServiceType::LaserProjector),
    {
        self.service_type == ServiceType::LaserProjector
    }

    /// Check if this is the default service for its type (DSID flag).
    pub fn is_default(&self) -> (r: bool)
        ensures
            r == (self.flags & IDNFLG_SERVICEMAP_DSID != 0),
    {
        self.flags & IDNFLG_SERVICEMAP_DSID != 0
    }
}

impl Clone for ServiceInfo {
    fn clone(&self) -> (r: ServiceInfo)
        ensures
            r == *self,
    {
        ServiceInfo {
            service_id: self.service_id,
            service_type: self.service_type,
            name: self.name.clone(),
            flags: self.flags,
            relay_number: self.relay_number,
        }
    }
}

/// Information about a discovered IDN server.
#[derive(Debug)]
pub struct ServerInfo {
    /// The unique 16-byte unit ID
    pub unit_id: [u8; 16],
    /// The server's hostname
    pub hostname: String,
    /// Protocol version (major.minor)
    pub protocol_version: (u8, u8),
    /// Status flags from scan response
    pub status: u8,
    /// Network addresses where the server can be reached
    pub addresses: Vec<SocketAddr>,
    /// Relay devices on this server
    pub relays: Vec<RelayInfo>,
    /// Services offered by this server
    pub services: Vec<ServiceInfo>,
}

impl ServerInfo {
    /// Create a new server info with basic information from a scan response.
    pub fn new(unit_id: [u8; 16], hostname: String, protocol_version: (u8, u8), status: u8) -> (r:
        ServerInfo)
        ensures
            r.unit_id == unit_id,
            r.hostname == hostname,
            r.protocol_version == protocol_version,
            r.status == status,
            r.addresses@ == Seq::<SocketAddr>::empty(),
            r.relays@ == Seq::<RelayInfo>::empty(),
            r.services@ == Seq::<ServiceInfo>::empty(),
    {
        ServerInfo {
            unit_id,
            hostname,
            protocol_version,
            status,
            addresses: Vec::new(),
            relays: Vec::new(),
            services: Vec::new(),
        }
    }

    /// Get the primary network address (first in the list).
    pub fn primary_address(&self) -> (r: Option<SocketAddr>)
        ensures
            r == (if self.addresses@.len() == 0 {
                None
            } else {
                Some(self.addresses@[0])
            }),
    {
        if self.addresses.len() == 0 {
            None
        } else {
            Some(self.addresses[0])
        }
    }

    /// Find a laser projector service on this server: the first one.
    pub fn find_laser_projector(&self) -> (r: Option<&ServiceInfo>)
        ensures
            match r {
                Some(s) => exists|i: int|
                    0 <= i < self.services@.len() && *s == #[trigger] self.services@[i] && s.service_type
                        == ServiceType::LaserProjector && forall|j: int|
                        0 <= j < i ==> (#[trigger] self.services@[j]).service_type
                            != ServiceType::LaserProjector,
                None => forall|j: int|
                    0 <= j < self.services@.len() ==> (#[trigger] self.services@[j]).service_type
                        != ServiceType::LaserProjector,
            },
    {
        let mut i: usize = 0;
        while i < self.services.len()
            invariant
                i <= self.services.len(),
                forall|j: int|
                    0 <= j < i ==> (#[trigger] self.services@[j]).service_type
                        != ServiceType::LaserProjector,
            decreases self.services.len() - i,
        {
            if self.services[i].is_laser_projector() {
                return Some(&self.services[i]);
            }
            i += 1;
        }
        None
    }

    /// Find a service by ID: the first with it.
    pub fn find_service(&self, service_id: u8) -> (r: Option<&ServiceInfo>)
        ensures
            match r {
                Some(s) => exists|i: int|
                    0 <= i < self.services@.len() && *s == #[trigger] self.services@[i] && s.service_id
                        == service_id && forall|j: int|
                        0 <= j < i ==> (#[trigger] self.services@[j]).service_id != service_id,
                None => forall|j: int|
                    0 <= j < self.services@.len() ==> (#[trigger] self.services@[j]).service_id
                        != service_id,
            },
    {
        let mut i: usize = 0;
        while i < self.services.len()
            invariant
                i <= self.services.len(),
                forall|j: int| 0 <= j < i ==> (#[trigger] self.services@[j]).service_id != service_id,
            decreases self.services.len() - i,
        {
            if self.services[i].service_id == service_id {
                return Some(&self.services[i]);
            }
            i += 1;
        }
        None
    }

    /// Check if the server has a malfunction.
    pub fn has_malfunction(&self) -> (r: bool)
        ensures
            r == (self.status & IDNFLG_SCAN_STATUS_MALFUNCTION != 0),
    {
        self.status & IDNFLG_SCAN_STATUS_MALFUNCTION != 0
    }

    /// Check if the server is offline.
    pub fn is_offline(&self) -> (r: bool)
        ensures
            r == (self.status & IDNFLG_SCAN_STATUS_OFFLINE != 0),
    {
        self.status & IDNFLG_SCAN_STATUS_OFFLINE != 0
    }

    /// Check if the server is occupied (all sessions in use).
    pub fn is_occupied(&self) -> (r: bool)
        ensures
            r == (self.status & IDNFLG_SCAN_STATUS_OCCUPIED != 0),
    {
        self.status & IDNFLG_SCAN_STATUS_OCCUPIED != 0
    }

    /// Check if the server is excluded from scanning.
    pub fn is_excluded(&self) -> (r: bool)
        ensures
            r == (self.status & IDNFLG_SCAN_STATUS_EXCLUDED != 0),
    {
        self.status & IDNFLG_SCAN_STATUS_EXCLUDED != 0
    }

    /// Check if the server supports realtime streaming.
    pub fn supports_realtime(&self) -> (r: bool)
        ensures
            r == (self.status & IDNFLG_SCAN_STATUS_REALTIME != 0),
    {
        self.status & IDNFLG_SCAN_STATUS_REALTIME != 0
    }
}

impl ServerInfo {
    /// Whether two servers have the same description.
    pub open spec fn same(&self, other: &ServerInfo) -> bool {
        &&& self.unit_id == other.unit_id
        &&& self.hostname == other.hostname
        &&& self.protocol_version == other.protocol_version
        &&& self.status == other.status
        &&& self.addresses@ == other.addresses@
        &&& self.relays@ == other.relays@
        &&& self.services@ == other.services@
    }
}

impl Clone for ServerInfo {
    fn clone(&self) -> (r: ServerInfo)
        ensures
            r.same(self),
    {
        let r = ServerInfo {
            unit_id: self.unit_id,
            hostname: self.hostname.clone(),
            protocol_version: (self.protocol_version.0, self.protocol_version.1),
            status: self.status,
            addresses: self.addresses.clone(),
            relays: self.relays.clone(),
            services: self.services.clone(),
        };
        assert(r.addresses@ =~= self.addresses@);
        assert(r.relays@ =~= self.relays@);
        assert(r.services@ =~= self.services@);
        r
    }
}

/// An IDN server with a selected service, ready for streaming.
#[derive(Debug)]
pub struct Addressed {
    /// The server information
    pub server: ServerInfo,
    /// The selected service
    pub service: ServiceInfo,
    /// The address to connect to
    pub address: SocketAddr,
}

impl Addressed {
    /// Create a new addressed DAC.
    pub fn new(server: ServerInfo, service: ServiceInfo, address: SocketAddr) -> (r: Addressed)
        ensures
            r == (Addressed { server, service, address }),
    {
        Addressed { server, service, address }
    }

    /// Get the service ID.
    pub fn service_id(&self) -> (r: u8)
        ensures
            r == self.service.service_id,
    {
        self.service.service_id
    }

    /// Get the server hostname.
    pub fn hostname(&self) -> (r: &str)
        ensures
            r@ == self.server.hostname@,
    {
        self.server.hostname.as_str()
    }
}

/// The bits of a status tell the state of a server, each on its own.
pub proof fn status_bits_are_independent()
    ensures
        forall|s: &ServerInfo, r: bool| #[trigger]
            call_ensures(ServerInfo::has_malfunction, (s,), r) ==> r == (s.status >= 128),
        forall|s: &ServerInfo, r: bool| #[trigger]
            call_ensures(ServerInfo::is_offline, (s,), r) ==> r == ((s.status / 64) % 2 == 1),
        forall|s: &ServerInfo, r: bool| #[trigger]
            call_ensures(ServerInfo::is_excluded, (s,), r) ==> r == ((s.status / 32) % 2 == 1),
        forall|s: &ServerInfo, r: bool| #[trigger]
            call_ensures(ServerInfo::is_occupied, (s,), r) ==> r == ((s.status / 16) % 2 == 1),
        forall|s: &ServerInfo, r: bool| #[trigger]
            call_ensures(ServerInfo::supports_realtime, (s,), r) ==> r == (s.status % 2 == 1),
        forall|s: &ServiceInfo, r: bool| #[trigger]
            call_ensures(ServiceInfo::is_default, (s,), r) ==> r == (s.flags % 2 == 1),
{
    assert forall|b: u8| #![trigger b & 0x80u8]
        (b & 0x80u8 != 0) == (b >= 128) by {
        assert((b & 0x80u8 != 0) == (b >= 128)) by (bit_vector);
    }
    assert forall|b: u8| #![trigger b & 0x40u8]
        (b & 0x40u8 != 0) == ((b / 64) % 2 == 1) by {
        assert((b & 0x40u8 != 0) == ((b / 64) % 2 == 1)) by (bit_vector);
    }
    assert forall|b: u8| #![trigger b & 0x20u8]
        (b & 0x20u8 != 0) == ((b / 32) % 2 == 1) by {
        assert((b & 0x20u8 != 0) == ((b / 32) % 2 == 1)) by (bit_vector);
    }
    assert forall|b: u8| #![trigger b & 0x10u8]
        (b & 0x10u8 != 0) == ((b / 16) % 2 == 1) by {
        assert((b & 0x10u8 != 0) == ((b / 16) % 2 == 1)) by (bit_vector);
    }
    assert forall|b: u8| #![trigger b & 0x01u8]
        (b & 0x01u8 != 0) == (b % 2 == 1) by {
        assert((b & 0x01u8 != 0) == (b % 2 == 1)) by (bit_vector);
    }
}

/// A service or a relay is what its entry says; a type of the upper half below `0xC0` is
/// a laser projector.
pub proof fn entry_describes_its_service()
    ensures
        forall|e: &ServiceMapEntry, r: ServiceInfo| #[trigger]
            call_ensures(ServiceInfo::from_entry, (e,), r) ==> {
                &&& r.service_id == e.service_id
                &&& r.service_type == ServiceType::LaserProjector <==> 128 <= e.service_type < 192
                &&& r.service_type == ServiceType::Uart <==> e.service_type == 4
                &&& r.service_type == ServiceType::Dmx512 <==> e.service_type == 5
                &&& r.service_type matches ServiceType::Unknown(t) ==> t == e.service_type
                &&& r.flags == e.flags
                &&& r.relay_number == e.relay_number
                &&& r.name@ == field_text(e.name@)
            },
        forall|e: &ServiceMapEntry, r: RelayInfo| #[trigger]
            call_ensures(RelayInfo::from_entry, (e,), r) ==> r.relay_number == e.relay_number
                && r.name@ == field_text(e.name@) && r.address is None,
{
}

/// The service that is found is one of the server's, the first that was asked for; and the
/// address of a server is its first.
pub proof fn first_service_is_found()
    ensures
        forall|s: &ServerInfo, id: u8, r: Option<&ServiceInfo>| #[trigger]
            call_ensures(ServerInfo::find_service, (s, id), r) ==> match r {
                Some(found) => found.service_id == id && s.services@.contains(*found),
                None => forall|j: int|
                    0 <= j < s.services@.len() ==> (#[trigger] s.services@[j]).service_id != id,
            },
        forall|s: &ServerInfo, r: Option<&ServiceInfo>| #[trigger]
            call_ensures(ServerInfo::find_laser_projector, (s,), r) ==> match r {
                Some(found) => found.service_type == ServiceType::LaserProjector
                    && s.services@.contains(*found),
                None => forall|j: int|
                    0 <= j < s.services@.len() ==> (#[trigger] s.services@[j]).service_type
                        != ServiceType::LaserProjector,
            },
        forall|s: &ServerInfo, r: Option<SocketAddr>| #[trigger]
            call_ensures(ServerInfo::primary_address, (s,), r) ==> {
                &&& r is None <==> s.addresses@.len() == 0
                &&& r matches Some(a) ==> a == s.addresses@[0]
            },
{
}

} // verus!
