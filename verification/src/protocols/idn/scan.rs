//! Scanning for IDN servers: requests, responses and what was found.

use vstd::prelude::*;

use crate::bytes;
use crate::error::{IoError, IoErrorKind};
use crate::net::SocketAddr;
use crate::protocols::idn::dac::{self, RelayInfo, ServerInfo, ServiceInfo, ServiceMapEntry};
use crate::protocols::idn::protocol::{
    PacketHeader, IDNCMD_SCAN_REQUEST, IDNCMD_SCAN_RESPONSE, IDNCMD_SERVICEMAP_REQUEST,
    IDNCMD_SERVICEMAP_RESPONSE,
};
use crate::text::{self, push_decimal, push_text};

verus! {

/// Default client group for IDN communication.
pub const DEFAULT_CLIENT_GROUP: u8 = 0;

/// The bits of the packet flags that hold the client group.
pub const IDNMSK_PKTFLAGS_GROUP: u8 = 0x0F;

/// Number of scan-request bursts spread across the scan window.
pub const SCAN_BURSTS: u32 = 3;

/// Number of attempts for a service-map query before giving up on a server.
pub const SERVICEMAP_ATTEMPTS: u32 = 3;

/// Per-attempt timeout for a service-map response, in nanoseconds.
pub const SERVICEMAP_TIMEOUT_NS: u64 = 400_000_000;

/// What a server answers to a scan request (40 bytes).
#[derive(Clone, Copy, Debug)]
pub struct ScanResponse {
    pub struct_size: u8,
    pub protocol_version: u8,
    pub status: u8,
    pub unit_id: [u8; 16],
    pub hostname: [u8; 20],
}

impl ScanResponse {
    pub const SIZE_BYTES: usize = 40;

    /// Whether this is the scan response that follows the packet header.
    pub open spec fn is_in(self, s: Seq<u8>) -> bool {
        &&& self.struct_size == s[4]
        &&& self.protocol_version == s[5]
        &&& self.status == s[6]
        &&& self.unit_id@ == s.subrange(8, 24)
        &&& self.hostname@ == s.subrange(24, 44)
    }

    pub fn read(data: &[u8]) -> (r: ScanResponse)
        requires
            data@.len() >= 44,
        ensures
            r.is_in(data@),
    {
        let mut unit_id: [u8; 16] = [0; 16];
        let mut i: usize = 0;
        while i < 16
            invariant
                i <= 16,
                data@.len() >= 44,
                forall|j: int| 0 <= j < i ==> unit_id@[j] == data@[8 + j],
            decreases 16 - i,
        {
            unit_id[i] = data[8 + i];
            i += 1;
        }
        assert(unit_id@ =~= data@.subrange(8, 24));
        let mut hostname: [u8; 20] = [0; 20];
        let mut k: usize = 0;
        while k < 20
            invariant
                k <= 20,
                data@.len() >= 44,
                forall|j: int| 0 <= j < k ==> hostname@[j] == data@[24 + j],
            decreases 20 - k,
        {
            hostname[k] = data[24 + k];
            k += 1;
        }
        assert(hostname@ =~= data@.subrange(24, 44));
        ScanResponse {
            struct_size: data[4],
            protocol_version: data[5],
            status: data[6],
            unit_id,
            hostname,
        }
    }

    /// The hostname without its padding.
    pub fn hostname_str(&self) -> (r: String)
        ensures
            r@ == dac::field_text(self.hostname@),
    {
        dac::read_field(self.hostname.as_slice())
    }
}

/// Whether a packet is a scan response.
pub open spec fn is_scan_response(s: Seq<u8>) -> bool {
    s.len() >= 44 && s[0] == IDNCMD_SCAN_RESPONSE
}

/// Parse a scan response from a raw packet. Only servers on IPv4 are supported.
pub fn process_scan_response(data: &[u8], src_addr: &SocketAddr) -> (r: Option<
    (ScanResponse, SocketAddr),
>)
    ensures
        match r {
            Some(p) => is_scan_response(data@) && src_addr.ip is V4 && p.0.is_in(data@) && p.1
                == *src_addr,
            None => !is_scan_response(data@) || !(src_addr.ip is V4),
        },
{
    if data.len() < PacketHeader::SIZE_BYTES + ScanResponse::SIZE_BYTES {
        return None;
    }
    let header = PacketHeader::read(data);
    if header.command != IDNCMD_SCAN_RESPONSE {
        return None;
    }
    let response = ScanResponse::read(data);
    if !src_addr.ip.is_ipv4() {
        return None;
    }
    Some((response, *src_addr))
}

/// Parse a scan response from a server at any address, with the reason why a
/// packet is none.
pub fn parse_scan_response(data: &[u8]) -> (r: Result<ScanResponse, IoError>)
    ensures
        match r {
            Ok(response) => is_scan_response(data@) && response.is_in(data@),
            Err(e) => !is_scan_response(data@) && e.kind == IoErrorKind::InvalidData && e.message@
                == (if data@.len() < 44 {
                "packet too small: "@ + text::decimal(data@.len()) + " bytes"@
            } else {
                "unexpected command: 0x"@ + text::hex_lower_of(seq![data@[0]])
            }),
        },
{
    if data.len() < PacketHeader::SIZE_BYTES + ScanResponse::SIZE_BYTES {
        let mut message = "packet too small: ".to_owned();
        push_decimal(&mut message, data.len() as u64);
        push_text(&mut message, " bytes");
        return Err(IoError { kind: IoErrorKind::InvalidData, message });
    }
    let header = PacketHeader::read(data);
    if header.command != IDNCMD_SCAN_RESPONSE {
        let mut message = "unexpected command: 0x".to_owned();
        let command: [u8; 1] = [header.command];
        assert(command@ =~= seq![data@[0]]);
        let hex = text::hex_lower(command.as_slice());
        push_text(&mut message, hex.as_str());
        return Err(IoError { kind: IoErrorKind::InvalidData, message });
    }
    Ok(ScanResponse::read(data))
}

// ---------------------------------------------------------------------------
// Service maps
// ---------------------------------------------------------------------------

/// The 24 bytes of the service map entry at `at`, which is `entry_size` bytes
/// long: cut off or filled up with zeros.
pub open spec fn entry_bytes(s: Seq<u8>, at: int, entry_size: int) -> Seq<u8> {
    Seq::new(24, |i: int| if i < entry_size { s[at + i] } else { 0u8 })
}

/// How many entries of a size stand in the bytes from `at` on, if `count` are
/// announced.
pub open spec fn entries_present(s: Seq<u8>, at: int, count: int, entry_size: int) -> int {
    if entry_size == 0 || (s.len() - at) / entry_size >= count {
        count
    } else {
        (s.len() - at) / entry_size
    }
}

/// Where the entries of a service map response start: after the headers, with
/// what the map header declares beyond its known size skipped if it is there.
pub open spec fn entries_start(s: Seq<u8>) -> int {
    let extra = if s[4] > 4 { s[4] - 4 } else { 0 };
    if s.len() - 8 >= extra {
        8 + extra
    } else {
        8
    }
}

/// Whether an entry of 24 bytes describes this relay.
pub open spec fn describes_relay(entry: Seq<u8>, relay: RelayInfo) -> bool {
    &&& relay.relay_number == entry[3]
    &&& relay.name@ == dac::field_text(entry.subrange(4, 24))
    &&& relay.address is None
}

/// Whether an entry of 24 bytes describes this service.
pub open spec fn describes_service(entry: Seq<u8>, service: ServiceInfo) -> bool {
    &&& service.service_id == entry[0]
    &&& service.service_type == dac::ServiceType::of_byte(entry[1])
    &&& service.flags == entry[2]
    &&& service.relay_number == entry[3]
    &&& service.name@ == dac::field_text(entry.subrange(4, 24))
}

/// Read the entry at `at`.
fn read_entry(data: &[u8], at: usize, entry_size: usize) -> (r: ServiceMapEntry)
    requires
        at + entry_size <= data.len(),
        entry_size <= 255,
    ensures
        ({
            let e = entry_bytes(data@, at as int, entry_size as int);
            &&& r.service_id == e[0]
            &&& r.service_type == e[1]
            &&& r.flags == e[2]
            &&& r.relay_number == e[3]
            &&& r.name@ == e.subrange(4, 24)
        }),
{
    let mut buf: [u8; 24] = [0; 24];
    let mut i: usize = 0;
    while i < 24 && i < entry_size
        invariant
            i <= 24,
            i <= entry_size,
            at + entry_size <= data.len(),
            entry_size <= 255,
            forall|j: int| 0 <= j < i ==> buf@[j] == data@[at + j],
            forall|j: int| i <= j < 24 ==> buf@[j] == 0,
        decreases 24 - i,
    {
        buf[i] = data[at + i];
        i += 1;
    }
    let ghost e = entry_bytes(data@, at as int, entry_size as int);
    assert(buf@ =~= e);
    let mut name: [u8; 20] = [0; 20];
    let mut k: usize = 0;
    while k < 20
        invariant
            k <= 20,
            forall|j: int| 0 <= j < k ==> name@[j] == buf@[4 + j],
        decreases 20 - k,
    {
        name[k] = buf[4 + k];
        k += 1;
    }
    assert(name@ =~= e.subrange(4, 24));
    ServiceMapEntry {
        service_id: buf[0],
        service_type: buf[1],
        flags: buf[2],
        relay_number: buf[3],
        name,
    }
}

/// How many entries can be read, and where they end.
fn count_entries(data: &[u8], at: usize, count: u8, entry_size: u8) -> (r: usize)
    requires
        at <= data.len(),
    ensures
        r == entries_present(data@, at as int, count as int, entry_size as int),
        r <= 255,
        at + r * entry_size <= data.len(),
{
    if entry_size == 0 {
        assert(count as usize * 0 == 0);
        return count as usize;
    }
    let size: usize = entry_size as usize;
    let room: usize = (data.len() - at) / size;
    let ghost left = data.len() - at;
    assert(room * size <= left) by (nonlinear_arith)
        requires
            room == left / size as int,
            size > 0,
            left >= 0,
    ;
    if room >= count as usize {
        assert(count * size <= room * size) by (nonlinear_arith)
            requires
                count <= room,
                size >= 0,
        ;
        count as usize
    } else {
        room
    }
}

/// Read the relays of a service map.
fn parse_relay_entries(data: &[u8], at: usize, count: usize, entry_size: u8) -> (r: Vec<RelayInfo>)
    requires
        count <= 255,
        at + count * entry_size <= data.len(),
    ensures
        r@.len() == count,
        forall|k: int|
            0 <= k < count ==> describes_relay(
                entry_bytes(data@, at + k * entry_size, entry_size as int),
                #[trigger] r@[k],
            ),
{
    let mut result: Vec<RelayInfo> = Vec::new();
    let size: usize = entry_size as usize;
    let mut k: usize = 0;
    while k < count
        invariant
            k <= count <= 255,
            size == entry_size,
            at + count * size <= data.len(),
            result@.len() == k,
            forall|j: int|
                0 <= j < k ==> describes_relay(
                    entry_bytes(data@, at + j * size, size as int),
                    #[trigger] result@[j],
                ),
        decreases count - k,
    {
        assert(k * size + size <= count * size && 0 <= k * size) by (nonlinear_arith)
            requires
                0 <= k < count,
                size >= 0,
        ;
        let entry = read_entry(data, at + k * size, size);
        result.push(RelayInfo::from_entry(&entry));
        k += 1;
    }
    result
}

/// Read the services of a service map.
fn parse_service_entries(data: &[u8], at: usize, count: usize, entry_size: u8) -> (r: Vec<
    ServiceInfo,
>)
    requires
        count <= 255,
        at + count * entry_size <= data.len(),
    ensures
        r@.len() == count,
        forall|k: int|
            0 <= k < count ==> describes_service(
                entry_bytes(data@, at + k * entry_size, entry_size as int),
                #[trigger] r@[k],
            ),
{
    let mut result: Vec<ServiceInfo> = Vec::new();
    let size: usize = entry_size as usize;
    let mut k: usize = 0;
    while k < count
        invariant
            k <= count <= 255,
            size == entry_size,
            at + count * size <= data.len(),
            result@.len() == k,
            forall|j: int|
                0 <= j < k ==> describes_service(
                    entry_bytes(data@, at + j * size, size as int),
                    #[trigger] result@[j],
                ),
        decreases count - k,
    {
        assert(k * size + size <= count * size && 0 <= k * size) by (nonlinear_arith)
            requires
                0 <= k < count,
                size >= 0,
        ;
        let entry = read_entry(data, at + k * size, size);
        result.push(ServiceInfo::from_entry(&entry));
        k += 1;
    }
    result
}

/// The relays and services of a server.
pub struct ServiceMap {
    pub relays: Vec<RelayInfo>,
    pub services: Vec<ServiceInfo>,
}

/// Whether a packet is the service map response with this sequence number.
pub open spec fn is_service_map(s: Seq<u8>, expected_seq: u16) -> bool {
    s.len() >= 8 && s[0] == IDNCMD_SERVICEMAP_RESPONSE && bytes::be_u16(s, 2) == expected_seq
}

impl ServiceMap {
    /// Whether this is what a service map response holds: the relays first, then
    /// the services, as far as their entries are there.
    pub open spec fn is_in(self, s: Seq<u8>) -> bool {
        let size = s[5] as int;
        let start = entries_start(s);
        let relays = entries_present(s, start, s[6] as int, size);
        let start2 = start + relays * size;
        let services = entries_present(s, start2, s[7] as int, size);
        &&& self.relays@.len() == relays
        &&& self.services@.len() == services
        &&& forall|k: int|
            0 <= k < relays ==> describes_relay(
                entry_bytes(s, start + k * size, size),
                #[trigger] self.relays@[k],
            )
        &&& forall|k: int|
            0 <= k < services ==> describes_service(
                entry_bytes(s, start2 + k * size, size),
                #[trigger] self.services@[k],
            )
    }
}

/// Read a datagram as the service map response with the given sequence number.
/// `None` for any other datagram, which is to be skipped.
pub fn recv_service_map(data: &[u8], expected_seq: u16) -> (r: Option<ServiceMap>)
    ensures
        match r {
            Some(map) => is_service_map(data@, expected_seq) && map.is_in(data@),
            None => !is_service_map(data@, expected_seq),
        },
{
    if data.len() < 8 {
        return None;
    }
    let header = PacketHeader::read(data);
    if header.command != IDNCMD_SERVICEMAP_RESPONSE || header.sequence != expected_seq {
        return None;
    }
    let struct_size: u8 = data[4];
    let entry_size: u8 = data[5];
    let extra: usize = struct_size.saturating_sub(4) as usize;
    let start: usize = if data.len() - 8 >= extra {
        8 + extra
    } else {
        8
    };
    let relay_count: usize = count_entries(data, start, data[6], entry_size);
    let relays: Vec<RelayInfo> = parse_relay_entries(data, start, relay_count, entry_size);
    assert(relay_count * entry_size <= 255 * 255) by (nonlinear_arith)
        requires
            0 <= relay_count <= 255,
            0 <= entry_size <= 255,
    ;
    let start2: usize = start + relay_count * entry_size as usize;
    let service_count: usize = count_entries(data, start2, data[7], entry_size);
    let services: Vec<ServiceInfo> = parse_service_entries(data, start2, service_count, entry_size);
    Some(ServiceMap { relays, services })
}

// ---------------------------------------------------------------------------
// Found servers
// ---------------------------------------------------------------------------

/// Whether two unit ids are the same.
pub fn same_unit(a: &[u8; 16], b: &[u8; 16]) -> (r: bool)
    ensures
        r == (a@ == b@),
{
    let mut i: usize = 0;
    while i < 16
        invariant
            i <= 16,
            forall|j: int| 0 <= j < i ==> a@[j] == b@[j],
        decreases 16 - i,
    {
        if a[i] != b[i] {
            return false;
        }
        i += 1;
    }
    assert(a@ =~= b@);
    true
}

/// The servers a scan has found so far, and which server each source address
/// belongs to.
pub struct FoundServers {
    pub servers: Vec<ServerInfo>,
    pub sources: Vec<(SocketAddr, [u8; 16])>,
}

/// Where the server with a unit id stands, if it was found.
pub open spec fn is_unit_at(servers: Seq<ServerInfo>, unit_id: Seq<u8>, i: int) -> bool {
    0 <= i < servers.len() && servers[i].unit_id@ == unit_id
}

/// Whether a source address is known.
pub open spec fn knows(sources: Seq<(SocketAddr, [u8; 16])>, addr: SocketAddr) -> bool {
    exists|i: int| 0 <= i < sources.len() && (#[trigger] sources[i]).0 == addr
}

impl FoundServers {
    /// No server is listed twice, no source is listed twice, no address stands twice,
    /// neither in one server nor in two, and the sources are the addresses of the
    /// servers they belong to.
    pub open spec fn wf(self) -> bool {
        &&& forall|i: int, j: int|
            0 <= i < j < self.servers@.len() ==> (#[trigger] self.servers@[i]).unit_id@ != (
            #[trigger] self.servers@[j]).unit_id@
        &&& forall|i: int, j: int|
            0 <= i < j < self.sources@.len() ==> (#[trigger] self.sources@[i]).0 != (
            #[trigger] self.sources@[j]).0
        &&& forall|i: int|
            0 <= i < self.servers@.len() ==> (#[trigger] self.servers@[i]).addresses@.no_duplicates()
        &&& forall|k: int|
            0 <= k < self.sources@.len() ==> exists|i: int|
                is_unit_at(self.servers@, (#[trigger] self.sources@[k]).1@, i) && (
                #[trigger] self.servers@[i]).addresses@.contains(self.sources@[k].0)
        &&& forall|i: int, addr: SocketAddr|
            0 <= i < self.servers@.len() && #[trigger] self.servers@[i].addresses@.contains(addr)
                ==> knows(self.sources@, addr)
        &&& forall|i: int, j: int, addr: SocketAddr|
            0 <= i < j < self.servers@.len() && #[trigger] self.servers@[i].addresses@.contains(
                addr,
            ) ==> !#[trigger] self.servers@[j].addresses@.contains(addr)
    }

    pub fn new() -> (r: FoundServers)
        ensures
            r.wf(),
            r.servers@.len() == 0,
            r.sources@.len() == 0,
    {
        FoundServers { servers: Vec::new(), sources: Vec::new() }
    }

    fn find_source(&self, addr: SocketAddr) -> (r: bool)
        ensures
            r == knows(self.sources@, addr),
    {
        let mut i: usize = 0;
        while i < self.sources.len()
            invariant
                i <= self.sources.len(),
                forall|j: int| 0 <= j < i ==> (#[trigger] self.sources@[j]).0 != addr,
            decreases self.sources.len() - i,
        {
            if self.sources[i].0 == addr {
                assert(self.sources@[i as int].0 == addr);
                return true;
            }
            i += 1;
        }
        false
    }

    fn find_unit(&self, unit_id: &[u8; 16]) -> (r: Option<usize>)
        ensures
            match r {
                Some(i) => is_unit_at(self.servers@, unit_id@, i as int),
                None => forall|i: int|
                    0 <= i < self.servers@.len() ==> (#[trigger] self.servers@[i]).unit_id@
                        != unit_id@,
            },
    {
        let mut i: usize = 0;
        while i < self.servers.len()
            invariant
                i <= self.servers.len(),
                forall|j: int|
                    0 <= j < i ==> (#[trigger] self.servers@[j]).unit_id@ != unit_id@,
            decreases self.servers.len() - i,
        {
            if same_unit(&self.servers[i].unit_id, unit_id) {
                return Some(i);
            }
            i += 1;
        }
        None
    }

    /// Record a scan response.
    ///
    /// The actual source address (IP + port) is kept, so servers on other than
    /// the standard port are found too. A source that is known adds nothing.
    pub fn record_server(&mut self, response: &ScanResponse, src_addr: SocketAddr)
        requires
            old(self).wf(),
        ensures
            final(self).wf(),
            recorded(*old(self), *final(self), response, src_addr),
    {
        if self.find_source(src_addr) {
            return;
        }
        let ghost before = *self;
        match self.find_unit(&response.unit_id) {
            Some(i) => {
                let mut server = take_server(&mut self.servers, i);
                push_address(&mut server, src_addr);
                self.servers.set(i, server);
                self.sources.push((src_addr, response.unit_id));
                proof {
                    assert(is_unit_at(before.servers@, response.unit_id@, i as int));
                    assert(with_address(before.servers@[i as int], self.servers@[i as int], src_addr));
                    lemma_recorded(before, *self, i as int, response.unit_id, src_addr);
                }
            },
            None => {
                let mut server = ServerInfo::new(
                    response.unit_id,
                    response.hostname_str(),
                    (response.protocol_version / 16, response.protocol_version % 16),
                    response.status,
                );
                server.addresses.push(src_addr);
                let ghost at = self.servers@.len() as int;
                self.servers.push(server);
                self.sources.push((src_addr, response.unit_id));
                proof {
                    assert(self.servers@[at].addresses@ =~= seq![src_addr]);
                    assert(self.servers@.drop_last() =~= before.servers@);
                    assert(introduced(self.servers@.last(), response, src_addr));
                    assert forall|i: int| !#[trigger] is_unit_at(before.servers@, response.unit_id@, i) by {
                        if 0 <= i < before.servers@.len() {
                            assert(before.servers@[i].unit_id@ != response.unit_id@);
                        }
                    }
                    lemma_recorded(before, *self, at, response.unit_id, src_addr);
                }
            },
        }
    }
}

/// A server with one more address.
pub open spec fn with_address(before: ServerInfo, after: ServerInfo, addr: SocketAddr) -> bool {
    &&& after.unit_id == before.unit_id
    &&& after.hostname == before.hostname
    &&& after.protocol_version == before.protocol_version
    &&& after.status == before.status
    &&& after.relays == before.relays
    &&& after.services == before.services
    &&& after.addresses@ == (if before.addresses@.contains(addr) {
        before.addresses@
    } else {
        before.addresses@.push(addr)
    })
}

/// A server as a scan response introduces it.
pub open spec fn introduced(server: ServerInfo, response: &ScanResponse, addr: SocketAddr) -> bool {
    &&& server.unit_id == response.unit_id
    &&& server.hostname@ == dac::field_text(response.hostname@)
    &&& server.protocol_version == (
        (response.protocol_version / 16) as u8,
        (response.protocol_version % 16) as u8,
    )
    &&& server.status == response.status
    &&& server.addresses@ == seq![addr]
    &&& server.relays@.len() == 0
    &&& server.services@.len() == 0
}

/// What recording a scan response changes: nothing if its source is known; else
/// the server with its unit id gets the address, and is introduced if it is new.
pub open spec fn recorded(
    before: FoundServers,
    after: FoundServers,
    response: &ScanResponse,
    addr: SocketAddr,
) -> bool {
    if knows(before.sources@, addr) {
        after == before
    } else {
        &&& after.sources@ == before.sources@.push((addr, response.unit_id))
        &&& ({
            ||| exists|i: int| #[trigger]
                is_unit_at(before.servers@, response.unit_id@, i) && after.servers@.len()
                    == before.servers@.len() && with_address(
                    before.servers@[i],
                    after.servers@[i],
                    addr,
                ) && forall|j: int|
                    0 <= j < before.servers@.len() && j != i ==> after.servers@[j]
                        == before.servers@[j]
            ||| (forall|i: int| !#[trigger] is_unit_at(before.servers@, response.unit_id@, i))
                && after.servers@.len() == before.servers@.len() + 1 && after.servers@.drop_last()
                == before.servers@ && introduced(after.servers@.last(), response, addr)
        })
    }
}

fn take_server(servers: &mut Vec<ServerInfo>, i: usize) -> (r: ServerInfo)
    requires
        i < old(servers)@.len(),
    ensures
        r == old(servers)@[i as int],
        final(servers)@.len() == old(servers)@.len(),
        forall|j: int|
            0 <= j < old(servers)@.len() && j != i ==> final(servers)@[j] == old(servers)@[j],
{
    let blank = ServerInfo::new([0; 16], String::new(), (0, 0), 0);
    servers.push(blank);
    servers.swap_remove(i)
}

fn push_address(server: &mut ServerInfo, addr: SocketAddr)
    ensures
        with_address(*old(server), *final(server), addr),
{
    let mut i: usize = 0;
    while i < server.addresses.len()
        invariant
            i <= server.addresses.len(),
            *server == *old(server),
            forall|j: int| 0 <= j < i ==> server.addresses@[j] != addr,
        decreases server.addresses.len() - i,
    {
        if server.addresses[i] == addr {
            return;
        }
        i += 1;
    }
    server.addresses.push(addr);
}

proof fn lemma_recorded(
    before: FoundServers,
    after: FoundServers,
    at: int,
    unit_id: [u8; 16],
    addr: SocketAddr,
)
    requires
        before.wf(),
        !knows(before.sources@, addr),
        0 <= at < after.servers@.len(),
        at <= before.servers@.len(),
        after.servers@.len() == (if at < before.servers@.len() {
            before.servers@.len()
        } else {
            before.servers@.len() + 1
        }),
        at < before.servers@.len() ==> with_address(
            before.servers@[at],
            after.servers@[at],
            addr,
        ),
        at == before.servers@.len() ==> after.servers@[at].addresses@ == seq![addr] && forall|i: int|
            0 <= i < before.servers@.len() ==> (#[trigger] before.servers@[i]).unit_id@ != unit_id@,
        after.servers@[at].unit_id@ == unit_id@,
        forall|j: int|
            0 <= j < before.servers@.len() && j != at ==> after.servers@[j] == before.servers@[j],
        after.sources@ == before.sources@.push((addr, unit_id)),
    ensures
        after.wf(),
{
    assert(after.servers@[at].addresses@.contains(addr)) by {
        if at == before.servers@.len() {
            assert(after.servers@[at].addresses@[0] == addr);
        } else if !before.servers@[at].addresses@.contains(addr) {
            assert(after.servers@[at].addresses@.last() == addr);
        }
    }
    assert forall|i: int| 0 <= i < after.servers@.len() implies (
    #[trigger] after.servers@[i]).addresses@.no_duplicates() by {
        if i != at {
            assert(after.servers@[i] == before.servers@[i]);
        } else if at < before.servers@.len() {
            assert(before.servers@[at].addresses@.no_duplicates());
        }
    }
    assert forall|i: int, j: int| 0 <= i < j < after.servers@.len() implies (
    #[trigger] after.servers@[i]).unit_id@ != (#[trigger] after.servers@[j]).unit_id@ by {
        if i != at {
            assert(after.servers@[i] == before.servers@[i]);
        }
        if j != at {
            assert(after.servers@[j] == before.servers@[j]);
        }
        if at < before.servers@.len() {
            assert(before.servers@[i].unit_id@ != before.servers@[j].unit_id@);
        }
    }
    assert forall|k: int| 0 <= k < after.sources@.len() implies exists|i: int|
        is_unit_at(after.servers@, (#[trigger] after.sources@[k]).1@, i) && (
        #[trigger] after.servers@[i]).addresses@.contains(after.sources@[k].0) by {
        if k == before.sources@.len() {
            assert(is_unit_at(after.servers@, after.sources@[k].1@, at));
        } else {
            assert(after.sources@[k] == before.sources@[k]);
            let i = choose|i: int|
                is_unit_at(before.servers@, before.sources@[k].1@, i) && (
                #[trigger] before.servers@[i]).addresses@.contains(before.sources@[k].0);
            let a = before.sources@[k].0;
            if i == at && !before.servers@[at].addresses@.contains(addr) {
                let p = choose|p: int|
                    0 <= p < before.servers@[at].addresses@.len()
                        && before.servers@[at].addresses@[p] == a;
                assert(after.servers@[at].addresses@[p] == a);
            }
            assert(is_unit_at(after.servers@, after.sources@[k].1@, i));
            assert(after.servers@[i].addresses@.contains(a));
        }
    }
    assert forall|i: int, a: SocketAddr|
        0 <= i < after.servers@.len() && #[trigger] after.servers@[i].addresses@.contains(
            a,
        ) implies a == addr && i == at || i < before.servers@.len()
        && before.servers@[i].addresses@.contains(a) by {
        if i == at && a != addr {
            let p = choose|p: int|
                0 <= p < after.servers@[at].addresses@.len() && after.servers@[at].addresses@[p] == a;
            assert(after.servers@[at].addresses@[p] == a);
            if at < before.servers@.len() {
                assert(before.servers@[at].addresses@[p] == a);
            }
        }
    }
    assert forall|a: SocketAddr| knows(before.sources@, a) || a == addr implies #[trigger] knows(
        after.sources@,
        a,
    ) by {
        if a == addr {
            assert(after.sources@[before.sources@.len() as int].0 == addr);
        } else {
            let k = choose|k: int| 0 <= k < before.sources@.len() && before.sources@[k].0 == a;
            assert(after.sources@[k].0 == a);
        }
    }
}

// ---------------------------------------------------------------------------
// Scanner
// ---------------------------------------------------------------------------

/// Numbering of the requests of a scan.
pub struct ServerScanner {
    /// Client group (0-15)
    pub client_group: u8,
    /// Sequence number counter
    pub sequence: u16,
}

impl ServerScanner {
    /// Create a new server scanner.
    pub fn new(client_group: u8) -> (r: ServerScanner)
        ensures
            r.client_group == client_group & 0x0F,
            r.sequence == 0,
    {
        ServerScanner { client_group: client_group & IDNMSK_PKTFLAGS_GROUP, sequence: 0 }
    }

    /// Get the next sequence number.
    pub fn next_sequence(&mut self) -> (r: u16)
        ensures
            r == old(self).sequence,
            final(self).sequence == (old(self).sequence + 1) % 0x1_0000,
            final(self).client_group == old(self).client_group,
    {
        let seq: u16 = self.sequence;
        self.sequence = if seq == 0xFFFF { 0 } else { seq + 1 };
        seq
    }

    /// Build a scan request.
    pub fn scan_request(&mut self) -> (r: Vec<u8>)
        ensures
            r@ == (PacketHeader {
                command: IDNCMD_SCAN_REQUEST,
                flags: old(self).client_group,
                sequence: old(self).sequence,
            }).bytes(),
            final(self).sequence == (old(self).sequence + 1) % 0x1_0000,
            final(self).client_group == old(self).client_group,
    {
        let header = PacketHeader {
            command: IDNCMD_SCAN_REQUEST,
            flags: self.client_group,
            sequence: self.next_sequence(),
        };
        let mut packet: Vec<u8> = Vec::new();
        header.write(&mut packet);
        assert(packet@ =~= header.bytes());
        packet
    }

    /// Build a service map request, with the sequence number that its response
    /// has to carry.
    pub fn service_map_request(&mut self) -> (r: (Vec<u8>, u16))
        ensures
            r.0@ == (PacketHeader {
                command: IDNCMD_SERVICEMAP_REQUEST,
                flags: old(self).client_group,
                sequence: old(self).sequence,
            }).bytes(),
            r.1 == old(self).sequence,
            final(self).sequence == (old(self).sequence + 1) % 0x1_0000,
            final(self).client_group == old(self).client_group,
    {
        let sequence: u16 = self.next_sequence();
        let header = PacketHeader {
            command: IDNCMD_SERVICEMAP_REQUEST,
            flags: self.client_group,
            sequence,
        };
        let mut packet: Vec<u8> = Vec::new();
        header.write(&mut packet);
        assert(packet@ =~= header.bytes());
        (packet, sequence)
    }
}

/// Whether the next scan request is due. The bursts are spread evenly over the
/// scan window; burst 0 is sent when it opens.
pub fn scan_burst_due(next_burst: u32, elapsed_ns: u64, timeout_ns: u64) -> (r: bool)
    ensures
        r == (next_burst < SCAN_BURSTS && elapsed_ns >= (timeout_ns / 3) * next_burst),
{
    if next_burst >= SCAN_BURSTS {
        return false;
    }
    let interval: u64 = timeout_ns / 3;
    assert(interval * next_burst <= interval * 2) by (nonlinear_arith)
        requires
            next_burst <= 2,
            interval >= 0,
    ;
    elapsed_ns >= interval * next_burst as u64
}

/// A scan under way.
pub struct Scan {
    pub found: FoundServers,
    /// The scan request that is sent next; the first is sent when the scan starts.
    pub next_burst: u32,
    /// How long to wait for responses, in nanoseconds.
    pub timeout_ns: u64,
}

/// One round of a scan.
#[derive(Clone, Copy, Debug, PartialEq, Eq, Structural)]
pub enum ScanRound {
    /// The scan is over; the service maps follow.
    Over,
    /// Send the scan request once more, then look for responses.
    Resend,
    /// Look for responses.
    Poll,
}

impl Scan {
    pub fn start(timeout_ns: u64) -> (r: Scan)
        ensures
            r.found.wf(),
            r.found.servers@.len() == 0,
            r.found.sources@.len() == 0,
            r.next_burst == 1,
            r.timeout_ns == timeout_ns,
    {
        Scan { found: FoundServers::new(), next_burst: 1, timeout_ns }
    }

    /// Start a round, so long after the start. The request is sent three times over
    /// the window, so that a single lost broadcast does not hide a device.
    pub fn round(&mut self, elapsed_ns: u64) -> (r: ScanRound)
        ensures
            r == if elapsed_ns >= old(self).timeout_ns {
                ScanRound::Over
            } else if old(self).next_burst < 3 && elapsed_ns >= (old(self).timeout_ns / 3)
                * old(self).next_burst {
                ScanRound::Resend
            } else {
                ScanRound::Poll
            },
            *final(self) == (Scan {
                next_burst: if r is Resend {
                    (old(self).next_burst + 1) as u32
                } else {
                    old(self).next_burst
                },
                ..*old(self)
            }),
    {
        if elapsed_ns >= self.timeout_ns {
            return ScanRound::Over;
        }
        if scan_burst_due(self.next_burst, elapsed_ns, self.timeout_ns) {
            self.next_burst = self.next_burst + 1;
            return ScanRound::Resend;
        }
        ScanRound::Poll
    }

    /// Take a datagram. The result says whether it was a scan response.
    pub fn receive(&mut self, data: &[u8], src_addr: SocketAddr) -> (r: bool)
        requires
            old(self).found.wf(),
        ensures
            final(self).found.wf(),
            final(self).next_burst == old(self).next_burst,
            final(self).timeout_ns == old(self).timeout_ns,
            r == (is_scan_response(data@) && src_addr.ip is V4),
            r ==> exists|response: ScanResponse|
                #![auto]
                response.is_in(data@) && recorded(
                    old(self).found,
                    final(self).found,
                    &response,
                    src_addr,
                ),
            !r ==> final(self).found == old(self).found,
    {
        match process_scan_response(data, &src_addr) {
            Some((response, addr)) => {
                self.found.record_server(&response, addr);
                true
            },
            None => false,
        }
    }
}

/// The requests for the service map of a server.
#[derive(Clone, Copy, Debug, PartialEq, Eq, Structural)]
pub struct ServiceMapQuery {
    /// Requests that may still be sent after the one under way.
    pub attempts_left: u32,
}

impl ServiceMapQuery {
    /// Start with the first request.
    pub fn start() -> (r: ServiceMapQuery)
        ensures
            r.attempts_left == 2,
    {
        ServiceMapQuery { attempts_left: SERVICEMAP_ATTEMPTS - 1 }
    }

    /// A request has failed. The result is the error to give up with; without one,
    /// the map is asked for again.
    pub fn failed(&mut self, error: IoError) -> (r: Option<IoError>)
        ensures
            old(self).attempts_left > 0 ==> r is None && final(self).attempts_left
                == old(self).attempts_left - 1,
            old(self).attempts_left == 0 ==> r == Some(error) && *final(self) == *old(self),
    {
        if self.attempts_left > 0 {
            self.attempts_left = self.attempts_left - 1;
            None
        } else {
            Some(error)
        }
    }
}

/// The error of a receive that failed: one that has waited long enough is told as the
/// timeout of the request.
pub fn service_map_error(error: IoError) -> (r: IoError)
    ensures
        error.kind is WouldBlock || error.kind is TimedOut ==> r.kind is TimedOut && r.message@
            == "service map response timeout"@,
        !(error.kind is WouldBlock || error.kind is TimedOut) ==> r == error,
{
    if error.kind == IoErrorKind::WouldBlock || error.kind == IoErrorKind::TimedOut {
        IoError::new(IoErrorKind::TimedOut, "service map response timeout")
    } else {
        error
    }
}

/// How long to wait on for the response to a request, or the error once the time is
/// up.
pub fn service_map_wait(now_ns: u64, deadline_ns: u64) -> (r: Result<u64, IoError>)
    ensures
        r is Ok <==> now_ns < deadline_ns,
        r matches Ok(remaining) ==> remaining == deadline_ns - now_ns,
        r matches Err(e) ==> e.kind == IoErrorKind::TimedOut && e.message@
            == "service map response timeout"@,
{
    if now_ns >= deadline_ns {
        return Err(IoError::new(IoErrorKind::TimedOut, "service map response timeout"));
    }
    Ok(deadline_ns - now_ns)
}

/// A scan response is a packet of its command, with the head of forty bytes whole, from a
/// server on IPv4. Its parts stand at fixed places.
pub proof fn scan_answer_is_read_at_its_places()
    ensures
        forall|data: &[u8], src: &SocketAddr, r: Option<(ScanResponse, SocketAddr)>| #[trigger]
            call_ensures(process_scan_response, (data, src), r) ==> {
                &&& r is Some <==> data@.len() >= 44 && data@[0] == 0x11 && src.ip is V4
                &&& r matches Some(p) ==> {
                    &&& p.1 == *src
                    &&& p.0.struct_size == data@[4]
                    &&& p.0.protocol_version == data@[5]
                    &&& p.0.status == data@[6]
                    &&& forall|i: int| 0 <= i < 16 ==> #[trigger] p.0.unit_id@[i] == data@[8 + i]
                    &&& forall|i: int| 0 <= i < 20 ==> #[trigger] p.0.hostname@[i] == data@[24 + i]
                }
            },
        forall|data: &[u8], r: Result<ScanResponse, IoError>| #[trigger]
            call_ensures(parse_scan_response, (data,), r) ==> {
                &&& r is Ok <==> data@.len() >= 44 && data@[0] == 0x11
                &&& r matches Err(e) ==> e.kind is InvalidData
                &&& r matches Ok(p) ==> p.protocol_version == data@[5] && p.status == data@[6]
                    && forall|i: int| 0 <= i < 16 ==> #[trigger] p.unit_id@[i] == data@[8 + i]
            },
{
}

/// The entries of a service map follow its head of the size that it tells, where that is
/// there; as many are read as were announced and are there whole.
pub proof fn whole_entries_are_read(s: Seq<u8>, at: int, count: int, size: int)
    requires
        0 <= at <= s.len(),
        count >= 0,
        size > 0,
    ensures
        ({
            let n = entries_present(s, at, count, size);
            &&& 0 <= n <= count
            &&& at + n * size <= s.len()
            &&& n < count ==> s.len() < at + (n + 1) * size
        }),
        s.len() >= 8 ==> {
            &&& s[4] <= 4 ==> entries_start(s) == 8
            &&& s[4] > 4 && 4 + s[4] <= s.len() ==> entries_start(s) == 4 + s[4]
            &&& s[4] > 4 && 4 + s[4] > s.len() ==> entries_start(s) == 8
        },
        forall|i: int|
            0 <= i < 24 && i < size ==> #[trigger] entry_bytes(s, at, size)[i] == s[at + i],
        forall|i: int| size <= i < 24 ==> #[trigger] entry_bytes(s, at, size)[i] == 0,
{
    let q = (s.len() - at) / size;
    assert(q * size <= s.len() - at < (q + 1) * size && q >= 0) by (nonlinear_arith)
        requires
            q == (s.len() - at) / size,
            size > 0,
            s.len() - at >= 0,
    ;
    if q >= count {
        assert(count * size <= q * size) by (nonlinear_arith)
            requires
                count <= q,
                size > 0,
        ;
    }
}

/// An entry of a service map has the id, the type, the flags and the relay of a service in
/// its first four bytes, and the name in the twenty after them.
pub proof fn entry_is_read_at_its_places(entry: Seq<u8>, service: ServiceInfo, relay: RelayInfo)
    requires
        entry.len() == 24,
        describes_service(entry, service),
        describes_relay(entry, relay),
    ensures
        service.service_id == entry[0],
        service.service_type == dac::ServiceType::LaserProjector <==> 0x80 <= entry[1] < 0xC0,
        service.flags == entry[2],
        service.relay_number == entry[3],
        service.name@ == dac::field_text(entry.skip(4)),
        relay.relay_number == entry[3],
        relay.name@ == dac::field_text(entry.skip(4)),
{
    assert(entry.skip(4) =~= entry.subrange(4, 24));
}

/// A service map is taken if it is whole up to its entries, of its command, and numbered
/// as the request was.
pub proof fn only_the_awaited_map_is_taken()
    ensures
        forall|data: &[u8], seq: u16, r: Option<ServiceMap>| #[trigger]
            call_ensures(recv_service_map, (data, seq), r) ==> {
                &&& r is Some <==> data@.len() >= 8 && data@[0] == 0x13 && 256 * data@[2] + data@[3]
                    == seq
                &&& r matches Some(map) ==> map.is_in(data@) && map.relays@.len() <= data@[6]
                    && map.services@.len() <= data@[7]
            },
{
    assert forall|data: &[u8], seq: u16, r: Option<ServiceMap>| #[trigger]
        call_ensures(recv_service_map, (data, seq), r) implies (r matches Some(map)
        ==> map.relays@.len() <= data@[6] && map.services@.len() <= data@[7]) by {
        if let Some(map) = r {
            let s = data@;
            if s[5] > 0 {
                let start = entries_start(s);
                let n = entries_present(s, start, s[6] as int, s[5] as int);
                whole_entries_are_read(s, start, s[6] as int, s[5] as int);
                whole_entries_are_read(s, start + n * s[5], s[7] as int, s[5] as int);
            }
        }
    }
}

/// A server that answers is listed with its unit id and the address that it answers from.
/// Those that were listed stay where they are, and keep their addresses and names; an
/// answer from an address that is known adds nothing.
pub proof fn answering_server_is_listed(
    before: FoundServers,
    after: FoundServers,
    response: &ScanResponse,
    addr: SocketAddr,
)
    requires
        before.wf(),
        after.wf(),
        recorded(before, after, response, addr),
    ensures
        knows(before.sources@, addr) ==> after == before,
        knows(after.sources@, addr),
        before.servers@.len() <= after.servers@.len() <= before.servers@.len() + 1,
        forall|i: int|
            0 <= i < before.servers@.len() ==> {
                &&& (#[trigger] after.servers@[i]).unit_id == before.servers@[i].unit_id
                &&& after.servers@[i].hostname == before.servers@[i].hostname
                &&& after.servers@[i].status == before.servers@[i].status
                &&& before.servers@[i].addresses@.is_prefix_of(after.servers@[i].addresses@)
            },
        !knows(before.sources@, addr) ==> exists|i: int|
            0 <= i < after.servers@.len() && (#[trigger] after.servers@[i]).unit_id@
                == response.unit_id@ && after.servers@[i].addresses@.last() == addr,
        after.servers@.len() > before.servers@.len() ==> {
            let server = after.servers@.last();
            &&& server.unit_id@ == response.unit_id@
            &&& server.hostname@ == dac::field_text(response.hostname@)
            &&& 16 * server.protocol_version.0 + server.protocol_version.1
                == response.protocol_version
            &&& server.protocol_version.1 < 16
            &&& server.status == response.status
            &&& server.addresses@ == seq![addr]
        },
{
    if !knows(before.sources@, addr) {
        let n = before.sources@.len() as int;
        assert(after.sources@[n].0 == addr);
        if exists|i: int| #[trigger]
            is_unit_at(before.servers@, response.unit_id@, i) && after.servers@.len()
                == before.servers@.len() && with_address(
                before.servers@[i],
                after.servers@[i],
                addr,
            ) && forall|j: int|
                0 <= j < before.servers@.len() && j != i ==> after.servers@[j]
                    == before.servers@[j] {
            let i = choose|i: int| #[trigger]
                is_unit_at(before.servers@, response.unit_id@, i) && after.servers@.len()
                    == before.servers@.len() && with_address(
                    before.servers@[i],
                    after.servers@[i],
                    addr,
                ) && forall|j: int|
                    0 <= j < before.servers@.len() && j != i ==> after.servers@[j]
                        == before.servers@[j];
            assert(!before.servers@[i].addresses@.contains(addr));
            assert(after.servers@[i].unit_id@ == response.unit_id@);
            assert(after.servers@[i].addresses@.last() == addr);
        } else {
            let at = before.servers@.len() as int;
            assert(after.servers@[at] == after.servers@.last());
            assert(after.servers@[at].unit_id@ == response.unit_id@);
            assert forall|i: int| 0 <= i < before.servers@.len() implies #[trigger] after.servers@[i]
                == before.servers@[i] by {
                assert(after.servers@.drop_last()[i] == after.servers@[i]);
            }
        }
    }
}

/// The requests of a scan are four bytes: a command, the client group and a number, the
/// next one with each request.
pub proof fn scan_requests_are_numbered()
    ensures
        forall|group: u8, r: ServerScanner| #[trigger]
            call_ensures(ServerScanner::new, (group,), r) ==> r.client_group == group % 16
                && r.sequence == 0,
        forall|s: &mut ServerScanner, r: Vec<u8>| #[trigger]
            call_ensures(ServerScanner::scan_request, (s,), r) ==> {
                &&& r@.len() == 4
                &&& r@[0] == 0x10
                &&& r@[1] == s.client_group
                &&& bytes::be_u16(r@, 2) == s.sequence
                &&& final(s).client_group == s.client_group
                &&& final(s).sequence == if s.sequence == 0xFFFF {
                    0int
                } else {
                    s.sequence + 1
                }
            },
        forall|s: &mut ServerScanner, r: (Vec<u8>, u16)| #[trigger]
            call_ensures(ServerScanner::service_map_request, (s,), r) ==> {
                &&& r.0@.len() == 4
                &&& r.0@[0] == 0x12
                &&& r.0@[1] == s.client_group
                &&& bytes::be_u16(r.0@, 2) == r.1
                &&& r.1 == s.sequence
                &&& final(s).client_group == s.client_group
                &&& final(s).sequence == if s.sequence == 0xFFFF {
                    0int
                } else {
                    s.sequence + 1
                }
            },
{
    assert forall|group: u8| #[trigger] (group & 0x0Fu8) == group % 16 by {
        assert(group & 0x0Fu8 == group % 16) by (bit_vector);
    }
    assert forall|s: &mut ServerScanner, r: Vec<u8>| #[trigger]
        call_ensures(ServerScanner::scan_request, (s,), r) implies bytes::be_u16(r@, 2)
        == s.sequence by {
        assert(r@.subrange(2, 4) =~= bytes::be_u16_bytes(s.sequence));
        bytes::be_u16_round_trip(r@, 2, s.sequence);
    }
    assert forall|s: &mut ServerScanner, r: (Vec<u8>, u16)| #[trigger]
        call_ensures(ServerScanner::service_map_request, (s,), r) implies bytes::be_u16(r.0@, 2)
        == s.sequence by {
        assert(r.0@.subrange(2, 4) =~= bytes::be_u16_bytes(s.sequence));
        bytes::be_u16_round_trip(r.0@, 2, s.sequence);
    }
}

/// A scan asks three times, at the start and after each third of its time, and is over
/// when the time is up.
pub proof fn scan_asks_three_times()
    ensures
        forall|timeout_ns: u64, s: Scan| #[trigger]
            call_ensures(Scan::start, (timeout_ns,), s) ==> s.next_burst == 1 && s.timeout_ns
                == timeout_ns && s.found.servers@.len() == 0,
        forall|s: &mut Scan, elapsed_ns: u64, r: ScanRound| #[trigger]
            call_ensures(Scan::round, (s, elapsed_ns), r) ==> {
                &&& r is Over <==> elapsed_ns >= s.timeout_ns
                &&& r is Resend ==> s.next_burst < 3 && final(s).next_burst == s.next_burst + 1
                &&& !(r is Resend) ==> final(s).next_burst == s.next_burst
                &&& s.next_burst == 1 && elapsed_ns < s.timeout_ns ==> (r is Resend <==> elapsed_ns
                    >= s.timeout_ns as int / 3)
                &&& s.next_burst == 2 && elapsed_ns < s.timeout_ns ==> (r is Resend <==> elapsed_ns
                    >= 2 * (s.timeout_ns as int / 3))
                &&& s.next_burst >= 3 ==> !(r is Resend)
                &&& final(s).timeout_ns == s.timeout_ns
                &&& final(s).found == s.found
            },
{
    assert forall|s: &mut Scan, elapsed_ns: u64, r: ScanRound| #[trigger]
        call_ensures(Scan::round, (s, elapsed_ns), r) implies {
        &&& s.next_burst == 1 && elapsed_ns < s.timeout_ns ==> (r is Resend <==> elapsed_ns
            >= s.timeout_ns as int / 3)
        &&& s.next_burst == 2 && elapsed_ns < s.timeout_ns ==> (r is Resend <==> elapsed_ns >= 2 * (
        s.timeout_ns as int / 3))
    } by {
        let third = s.timeout_ns as int / 3;
        let k = s.next_burst as int;
        assert(k == 1 ==> third * k == third) by (nonlinear_arith);
        assert(k == 2 ==> third * k == 2 * third) by (nonlinear_arith);
    }
}

/// The service map of a server is asked for three times before its last error counts; the
/// wait for an answer ends at its deadline.
pub proof fn map_is_asked_for_three_times()
    ensures
        forall|q: ServiceMapQuery| #[trigger]
            call_ensures(ServiceMapQuery::start, (), q) ==> q.attempts_left + 1 == 3,
        forall|q: &mut ServiceMapQuery, error: IoError, r: Option<IoError>| #[trigger]
            call_ensures(ServiceMapQuery::failed, (q, error), r) ==> {
                &&& r is None <==> q.attempts_left > 0
                &&& r is None ==> final(q).attempts_left + 1 == q.attempts_left
                &&& r is Some ==> r == Some(error)
            },
        forall|now_ns: u64, deadline_ns: u64, r: Result<u64, IoError>| #[trigger]
            call_ensures(service_map_wait, (now_ns, deadline_ns), r) ==> {
                &&& r is Ok <==> now_ns < deadline_ns
                &&& r matches Ok(t) ==> now_ns + t == deadline_ns
                &&& r matches Err(e) ==> e.kind is TimedOut
            },
        forall|error: IoError, r: IoError| #[trigger]
            call_ensures(service_map_error, (error,), r) ==> {
                &&& error.kind is WouldBlock || error.kind is TimedOut ==> r.kind is TimedOut
                &&& !(error.kind is WouldBlock || error.kind is TimedOut) ==> r == error
            },
{
}

} // verus!
