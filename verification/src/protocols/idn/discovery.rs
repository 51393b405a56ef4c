//! IDN device discovery: from servers to devices.

use vstd::prelude::*;
use vstd::string::*;

use crate::device::DacType;
use crate::discovery::DiscoveredDeviceInfo;
use crate::net::{IpAddr, SocketAddr};
use crate::protocols::idn::dac::{ServerInfo, ServiceInfo, ServiceType};
use crate::text::{self, hex_lower, push_decimal, push_text};

verus! {

/// What to scan and for how long.
pub struct IdnDiscoverer {
    /// How long to wait for responses, in nanoseconds.
    pub scan_timeout_ns: u64,
    /// Addresses to scan instead of broadcasting, if there are any.
    pub scan_addresses: Vec<SocketAddr>,
}

impl IdnDiscoverer {
    pub fn new() -> (r: IdnDiscoverer)
        ensures
            r.scan_timeout_ns == 500_000_000,
            r.scan_addresses@.len() == 0,
    {
        IdnDiscoverer { scan_timeout_ns: 500_000_000, scan_addresses: Vec::new() }
    }

    /// Scan specific addresses instead of using broadcast discovery.
    pub fn with_scan_addresses(addresses: Vec<SocketAddr>) -> (r: IdnDiscoverer)
        ensures
            r.scan_timeout_ns == 500_000_000,
            r.scan_addresses == addresses,
    {
        IdnDiscoverer { scan_timeout_ns: 500_000_000, scan_addresses: addresses }
    }

    /// The prefix of the stable ids.
    pub fn prefix(&self) -> (r: &'static str)
        ensures
            r@ == "idn"@,
    {
        "idn"
    }
}

impl Default for IdnDiscoverer {
    fn default() -> (r: IdnDiscoverer)
        ensures
            r.scan_timeout_ns == 500_000_000,
            r.scan_addresses@.len() == 0,
    {
        IdnDiscoverer::new()
    }
}

/// Format the unit ID as a lowercase hex string.
pub fn unit_id_hex(unit_id: &[u8; 16]) -> (r: String)
    ensures
        r@ == text::hex_lower_of(unit_id@),
{
    hex_lower(unit_id.as_slice())
}

/// The stable id of a service.
pub open spec fn stable_id_text(unit_id: Seq<u8>, service_id: u8) -> Seq<char> {
    "idn:"@ + text::hex_lower_of(unit_id) + ":"@ + text::decimal(service_id as nat)
}

/// Build the stable id for a service.
///
/// The id is derived from the hardware unit ID (stable across IP/port changes)
/// rather than the hostname: factory-default hostnames collide on identical
/// fixtures. The service ID is suffixed so a multi-output server yields a
/// distinct, stable id per laser-projector service.
pub fn format_stable_id(unit_id: &[u8; 16], service_id: u8) -> (r: String)
    ensures
        r@ == stable_id_text(unit_id@, service_id),
{
    let mut out = "idn:".to_owned();
    let hex = unit_id_hex(unit_id);
    push_text(&mut out, hex.as_str());
    push_text(&mut out, ":");
    push_decimal(&mut out, service_id as u64);
    out
}

/// Different services have different stable ids, whatever their hostnames.
pub proof fn stable_ids_are_distinct(a: Seq<u8>, s: u8, b: Seq<u8>, t: u8)
    requires
        a.len() == 16,
        b.len() == 16,
        stable_id_text(a, s) == stable_id_text(b, t),
    ensures
        a == b,
        s == t,
{
    reveal_strlit("idn:");
    reveal_strlit(":");
    let x = stable_id_text(a, s);
    let y = stable_id_text(b, t);
    assert(x.subrange(4, 36) =~= text::hex_lower_of(a));
    assert(y.subrange(4, 36) =~= text::hex_lower_of(b));
    text::hex_lower_is_injective(a, b);
    assert(x.skip(37) =~= text::decimal(s as nat));
    assert(y.skip(37) =~= text::decimal(t as nat));
    text::decimal_is_injective(s as nat, t as nat);
}

/// The positions of the laser projectors among the first `n` services.
pub open spec fn laser_positions(services: Seq<ServiceInfo>, n: int) -> Seq<int>
    decreases n,
{
    if n <= 0 {
        seq![]
    } else if services[n - 1].service_type == ServiceType::LaserProjector {
        laser_positions(services, n - 1).push(n - 1)
    } else {
        laser_positions(services, n - 1)
    }
}

/// The laser projectors of a server.
pub open spec fn lasers_of(server: ServerInfo) -> Seq<int> {
    laser_positions(server.services@, server.services@.len() as int)
}

/// The devices of the first `n` servers, as pairs of a server and a service
/// position: one for each laser projector.
pub open spec fn device_slots(servers: Seq<ServerInfo>, n: int) -> Seq<(int, int)>
    decreases n,
{
    if n <= 0 {
        seq![]
    } else {
        let lasers = lasers_of(servers[n - 1]);
        device_slots(servers, n - 1) + Seq::new(lasers.len(), |i: int| (n - 1, lasers[i]))
    }
}

/// The first address of a server.
pub open spec fn server_ip(server: ServerInfo) -> Option<IpAddr> {
    if server.addresses@.len() == 0 {
        None
    } else {
        Some(server.addresses@[0].ip)
    }
}

/// The name of a server: its address, or its hostname if it has none.
pub open spec fn base_name(server: ServerInfo) -> Seq<char> {
    match server_ip(server) {
        Some(ip) => ip.text(),
        None => server.hostname@,
    }
}

/// A discovered laser service.
pub struct IdnDevice {
    pub info: DiscoveredDeviceInfo,
    /// What a connection needs.
    pub server: ServerInfo,
    pub service: ServiceInfo,
}

impl IdnDevice {
    /// Whether this is the device for a service of a server. The display name is
    /// told apart by the service name only if the server has several lasers.
    pub open spec fn is_for(self, server: ServerInfo, position: int) -> bool {
        let service = server.services@[position];
        &&& self.server.same(&server)
        &&& self.service == service
        &&& self.info.dac_type is Idn
        &&& self.info.stable_id@ == stable_id_text(server.unit_id@, service.service_id)
        &&& self.info.name@ == (if lasers_of(server).len() > 1 {
            base_name(server) + " ("@ + service.name@ + ")"@
        } else {
            base_name(server)
        })
        &&& self.info.ip == server_ip(server)
        &&& self.info.hostname == Some(server.hostname)
        &&& self.info.usb_address is None
        &&& self.info.hardware_name is None
    }
}

fn count_lasers(server: &ServerInfo) -> (r: usize)
    ensures
        r == lasers_of(*server).len(),
{
    let mut n: usize = 0;
    let mut i: usize = 0;
    while i < server.services.len()
        invariant
            i <= server.services.len(),
            n <= i,
            n == laser_positions(server.services@, i as int).len(),
        decreases server.services.len() - i,
    {
        if server.services[i].is_laser_projector() {
            n += 1;
        }
        i += 1;
    }
    n
}

fn make_device(server: &ServerInfo, position: usize, multi: bool) -> (r: IdnDevice)
    requires
        position < server.services@.len(),
        multi == (lasers_of(*server).len() > 1),
    ensures
        r.is_for(*server, position as int),
{
    let service: ServiceInfo = server.services[position].clone();
    let stable_id = format_stable_id(&server.unit_id, service.service_id);
    let ip: Option<IpAddr> = match server.primary_address() {
        Some(addr) => Some(addr.ip),
        None => None,
    };
    let mut name: String = match ip {
        Some(ip) => ip.to_text(),
        None => server.hostname.clone(),
    };
    if multi {
        push_text(&mut name, " (");
        push_text(&mut name, service.name.as_str());
        push_text(&mut name, ")");
    }
    let mut info = DiscoveredDeviceInfo::new(DacType::Idn, stable_id, name).with_hostname(
        server.hostname.clone(),
    );
    match ip {
        Some(ip) => {
            info = info.with_ip(ip);
        },
        None => {},
    }
    IdnDevice { info, server: server.clone(), service }
}

/// The devices of the found servers: one per laser-projector service, so that a
/// multi-output server surfaces as several devices.
pub fn servers_to_devices(servers: &Vec<ServerInfo>) -> (r: Vec<IdnDevice>)
    ensures
        ({
            let slots = device_slots(servers@, servers@.len() as int);
            &&& r@.len() == slots.len()
            &&& forall|k: int|
                0 <= k < slots.len() ==> (#[trigger] r@[k]).is_for(
                    servers@[slots[k].0],
                    slots[k].1,
                )
        }),
{
    let mut devices: Vec<IdnDevice> = Vec::new();
    let mut i: usize = 0;
    while i < servers.len()
        invariant
            i <= servers.len(),
            devices@.len() == device_slots(servers@, i as int).len(),
            forall|k: int|
                0 <= k < devices@.len() ==> (#[trigger] devices@[k]).is_for(
                    servers@[device_slots(servers@, i as int)[k].0],
                    device_slots(servers@, i as int)[k].1,
                ),
        decreases servers.len() - i,
    {
        let server = &servers[i];
        let multi: bool = count_lasers(server) > 1;
        let ghost done = device_slots(servers@, i as int);
        let mut j: usize = 0;
        while j < server.services.len()
            invariant
                i < servers.len(),
                *server == servers@[i as int],
                multi == (lasers_of(*server).len() > 1),
                j <= server.services.len(),
                done == device_slots(servers@, i as int),
                devices@.len() == done.len() + laser_positions(server.services@, j as int).len(),
                forall|k: int|
                    0 <= k < done.len() ==> (#[trigger] devices@[k]).is_for(
                        servers@[done[k].0],
                        done[k].1,
                    ),
                forall|k: int|
                    done.len() <= k < devices@.len() ==> (#[trigger] devices@[k]).is_for(
                        *server,
                        laser_positions(server.services@, j as int)[k - done.len()],
                    ),
            decreases server.services.len() - j,
        {
            if server.services[j].is_laser_projector() {
                devices.push(make_device(server, j, multi));
            }
            j += 1;
        }
        proof {
            let lasers = lasers_of(*server);
            let slots = device_slots(servers@, i + 1);
            assert(slots =~= done + Seq::new(lasers.len(), |k: int| (i as int, lasers[k])));
            assert forall|k: int| 0 <= k < devices@.len() implies (#[trigger] devices@[k]).is_for(
                servers@[slots[k].0],
                slots[k].1,
            ) by {
                if k < done.len() {
                    assert(slots[k] == done[k]);
                } else {
                    assert(slots[k] == (i as int, lasers[k - done.len()]));
                }
            }
        }
        i += 1;
    }
    devices
}

proof fn lemma_laser_positions(services: Seq<ServiceInfo>, n: int)
    requires
        0 <= n <= services.len(),
    ensures
        forall|k: int|
            0 <= k < laser_positions(services, n).len() ==> {
                let p = #[trigger] laser_positions(services, n)[k];
                0 <= p < n && services[p].service_type == ServiceType::LaserProjector
            },
        forall|k: int, l: int|
            0 <= k < l < laser_positions(services, n).len() ==> #[trigger] laser_positions(
                services,
                n,
            )[k] < #[trigger] laser_positions(services, n)[l],
        forall|p: int|
            0 <= p < n && (#[trigger] services[p]).service_type == ServiceType::LaserProjector
                ==> laser_positions(services, n).contains(p),
    decreases n,
{
    if n > 0 {
        lemma_laser_positions(services, n - 1);
        let front = laser_positions(services, n - 1);
        let all = laser_positions(services, n);
        assert forall|p: int|
            0 <= p < n && (#[trigger] services[p]).service_type
                == ServiceType::LaserProjector implies all.contains(p) by {
            if p == n - 1 {
                assert(all.last() == p);
            } else {
                let k = choose|k: int| 0 <= k < front.len() && front[k] == p;
                assert(all[k] == p);
            }
        }
    }
}

proof fn lemma_slots(servers: Seq<ServerInfo>, n: int)
    requires
        0 <= n <= servers.len(),
    ensures
        forall|k: int|
            0 <= k < device_slots(servers, n).len() ==> {
                let slot = #[trigger] device_slots(servers, n)[k];
                &&& 0 <= slot.0 < n
                &&& 0 <= slot.1 < servers[slot.0].services@.len()
                &&& servers[slot.0].services@[slot.1].service_type == ServiceType::LaserProjector
            },
        forall|k: int, l: int|
            0 <= k < l < device_slots(servers, n).len() ==> {
                let a = #[trigger] device_slots(servers, n)[k];
                let b = #[trigger] device_slots(servers, n)[l];
                a.0 < b.0 || (a.0 == b.0 && a.1 < b.1)
            },
        forall|i: int, p: int|
            0 <= i < n && 0 <= p < servers[i].services@.len() && (
            #[trigger] servers[i].services@[p]).service_type == ServiceType::LaserProjector
                ==> device_slots(servers, n).contains((i, p)),
    decreases n,
{
    if n > 0 {
        lemma_slots(servers, n - 1);
        let services = servers[n - 1].services@;
        lemma_laser_positions(services, services.len() as int);
        let front = device_slots(servers, n - 1);
        let lasers = lasers_of(servers[n - 1]);
        let all = device_slots(servers, n);
        assert forall|i: int, p: int|
            0 <= i < n && 0 <= p < servers[i].services@.len() && (
            #[trigger] servers[i].services@[p]).service_type
                == ServiceType::LaserProjector implies all.contains((i, p)) by {
            if i < n - 1 {
                let k = choose|k: int| 0 <= k < front.len() && front[k] == (i, p);
                assert(all[k] == (i, p));
            } else {
                let k = choose|k: int| 0 <= k < lasers.len() && lasers[k] == p;
                assert(all[front.len() + k] == (i, p));
            }
        }
    }
}

/// Each laser projector of each server is a device, once, and nothing else is; the devices
/// come in the order of the servers and of their services.
pub proof fn each_laser_is_one_device(servers: Seq<ServerInfo>)
    ensures
        ({
            let slots = device_slots(servers, servers.len() as int);
            &&& forall|i: int, p: int|
                0 <= i < servers.len() && 0 <= p < servers[i].services@.len() ==> ((
                #[trigger] servers[i].services@[p]).service_type == ServiceType::LaserProjector
                    <==> slots.contains((i, p)))
            &&& forall|k: int|
                0 <= k < slots.len() ==> 0 <= (#[trigger] slots[k]).0 < servers.len() && 0
                    <= slots[k].1 < servers[slots[k].0].services@.len()
            &&& forall|k: int, l: int|
                0 <= k < l < slots.len() ==> (#[trigger] slots[k]).0 < (#[trigger] slots[l]).0 || (
                slots[k].0 == slots[l].0 && slots[k].1 < slots[l].1)
        }),
{
    let slots = device_slots(servers, servers.len() as int);
    lemma_slots(servers, servers.len() as int);
    assert forall|i: int, p: int|
        0 <= i < servers.len() && 0 <= p < servers[i].services@.len() && slots.contains(
            (i, p),
        ) implies (#[trigger] servers[i].services@[p]).service_type
        == ServiceType::LaserProjector by {
        let k = choose|k: int| 0 <= k < slots.len() && slots[k] == (i, p);
        assert(slots[k] == (i, p));
    }
}

/// A device carries the unit id and the service id in its stable id, and the first address
/// of its server; a device of a server with several lasers has the service in its name.
pub proof fn device_is_known_by_unit_and_service(d: IdnDevice, server: ServerInfo, p: int)
    requires
        d.is_for(server, p),
        0 <= p < server.services@.len(),
    ensures
        d.info.stable_id@ == "idn:"@ + text::hex_lower_of(server.unit_id@) + ":"@ + text::decimal(
            server.services@[p].service_id as nat,
        ),
        d.service == server.services@[p],
        d.server.unit_id == server.unit_id,
        d.server.addresses@ == server.addresses@,
        d.info.dac_type is Idn,
        d.info.hostname == Some(server.hostname),
        server.addresses@.len() > 0 ==> d.info.ip == Some(server.addresses@[0].ip),
        server.addresses@.len() == 0 ==> d.info.ip is None,
        lasers_of(server).len() == 1 && server.addresses@.len() > 0 ==> d.info.name@
            == server.addresses@[0].ip.text(),
        lasers_of(server).len() == 1 && server.addresses@.len() == 0 ==> d.info.name@
            == server.hostname@,
        lasers_of(server).len() > 1 && server.addresses@.len() > 0 ==> d.info.name@
            == server.addresses@[0].ip.text() + " ("@ + server.services@[p].name@ + ")"@,
{
}

} // verus!
