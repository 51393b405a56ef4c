//! LaserCube network discovery.

use vstd::prelude::*;
use vstd::string::*;

use crate::device::{DacCapabilities, DacType};
use crate::discovery::DiscoveredDeviceInfo;
use crate::error::IoErrorKind;
use crate::net::{IpAddr, SocketAddr};
use crate::protocols::lasercube_network::command::get_full_info;
use crate::protocols::lasercube_network::profiles::ConnectionProfile;
use crate::protocols::lasercube_network::protocol::{ALIVE_PORT, CMD_ALIVE, CMD_PORT};
use crate::protocols::lasercube_network::status::{self, LaserCubeNetworkStatus};
use crate::protocols::lasercube_network::transport::AddressedDevice;
use crate::protocols::lasercube_network::{self, capabilities_for_status};
use crate::text::{self, push_text, trim};

verus! {

/// How long a discovery without another timeout waits, in nanoseconds.
pub const DEFAULT_DISCOVERY_TIMEOUT: u64 = 1_000_000_000;

/// Answers that one scan waits for.
pub const SCAN_ATTEMPTS: u32 = 10;

pub struct LaserCubeNetworkDiscoverer {
    /// How long to wait for each answer, in nanoseconds.
    pub timeout: u64,
}

impl LaserCubeNetworkDiscoverer {
    pub fn new() -> (r: LaserCubeNetworkDiscoverer)
        ensures
            r.timeout == 100_000_000,
    {
        LaserCubeNetworkDiscoverer { timeout: 100_000_000 }
    }

    pub fn dac_type(&self) -> (r: DacType)
        ensures
            r is LaserCubeNetwork,
    {
        DacType::LaserCubeNetwork
    }

    /// The prefix of the stable ids.
    pub fn prefix(&self) -> (r: &'static str)
        ensures
            r@ == "lasercube-network"@,
    {
        "lasercube-network"
    }
}

impl Default for LaserCubeNetworkDiscoverer {
    fn default() -> (r: LaserCubeNetworkDiscoverer)
        ensures
            r.timeout == 100_000_000,
    {
        LaserCubeNetworkDiscoverer::new()
    }
}

// ---------------------------------------------------------------------------
// Requests
// ---------------------------------------------------------------------------

/// An IPv4 interface of this host.
#[derive(Clone, Copy, Debug, PartialEq, Eq, Structural)]
pub struct NetworkInterface {
    pub ip: u32,
    pub netmask: u32,
}

impl NetworkInterface {
    /// The address of all hosts on the interface's subnet.
    pub fn broadcast_address(&self) -> (r: u32)
        ensures
            r == self.ip | !self.netmask,
    {
        self.ip | !self.netmask
    }
}

/// Which socket a request leaves from.
#[derive(Clone, Copy, Debug, PartialEq, Eq, Structural)]
pub enum ProbeSocket {
    Main,
    /// The listener on the alive port, or the main socket where it could not be
    /// bound.
    Passive,
    /// The socket that is bound to an interface.
    Interface(usize),
}

/// What a request asks for.
#[derive(Clone, Copy, Debug, PartialEq, Eq, Structural)]
pub enum ProbeKind {
    FullInfo,
    Alive,
}

/// One datagram of a discovery.
#[derive(Clone, Copy, Debug, PartialEq, Eq, Structural)]
pub struct Probe {
    pub socket: ProbeSocket,
    pub kind: ProbeKind,
    pub ip: u32,
    pub port: u16,
}

impl Probe {
    /// The bytes to send.
    pub fn datagram(&self) -> (r: [u8; 1])
        ensures
            r@ == if self.kind is FullInfo {
                seq![0x77u8]
            } else {
                seq![0x27u8]
            },
    {
        match self.kind {
            ProbeKind::FullInfo => get_full_info(),
            ProbeKind::Alive => {
                let r: [u8; 1] = [CMD_ALIVE];
                assert(r@ =~= seq![0x27u8]);
                r
            },
        }
    }
}

/// Both requests to one address, each sent twice.
pub open spec fn address_probes(first: ProbeSocket, second: ProbeSocket, ip: u32) -> Seq<Probe> {
    let full_info = Probe { socket: first, kind: ProbeKind::FullInfo, ip, port: 45457 };
    let alive = Probe { socket: second, kind: ProbeKind::Alive, ip, port: 45456 };
    seq![full_info, alive, full_info, alive]
}

/// The requests to the subnets of the first `n` interfaces.
pub open spec fn directed_probes(interfaces: Seq<NetworkInterface>, n: int) -> Seq<Probe>
    decreases n,
{
    if n <= 0 {
        seq![]
    } else {
        directed_probes(interfaces, n - 1) + address_probes(
            ProbeSocket::Main,
            ProbeSocket::Passive,
            interfaces[n - 1].ip | !interfaces[n - 1].netmask,
        )
    }
}

/// The limited broadcasts from the first `n` interface sockets.
pub open spec fn interface_probes(n: int) -> Seq<Probe>
    decreases n,
{
    if n <= 0 {
        seq![]
    } else {
        interface_probes(n - 1) + address_probes(
            ProbeSocket::Interface((n - 1) as usize),
            ProbeSocket::Interface((n - 1) as usize),
            0xffff_ffff,
        )
    }
}

fn push_probes(out: &mut Vec<Probe>, first: ProbeSocket, second: ProbeSocket, ip: u32)
    ensures
        final(out)@ == old(out)@ + address_probes(first, second, ip),
{
    let full_info = Probe { socket: first, kind: ProbeKind::FullInfo, ip, port: CMD_PORT };
    let alive = Probe { socket: second, kind: ProbeKind::Alive, ip, port: ALIVE_PORT };
    out.push(full_info);
    out.push(alive);
    out.push(full_info);
    out.push(alive);
    assert(out@ =~= old(out)@ + address_probes(first, second, ip));
}

/// The datagrams that start a discovery, in order: to each interface's subnet, to
/// everyone from the main sockets, and to everyone from each interface socket.
///
/// A limited broadcast from the main socket only leaves on the interface that the
/// routing table picks. The interface sockets also reach devices whose subnet does
/// not match the interface's netmask.
pub fn discovery_probes(interfaces: &[NetworkInterface], interface_sockets: usize) -> (r: Vec<Probe>)
    ensures
        r@ == directed_probes(interfaces@, interfaces@.len() as int) + address_probes(
            ProbeSocket::Main,
            ProbeSocket::Passive,
            0xffff_ffff,
        ) + interface_probes(interface_sockets as int),
{
    let mut out: Vec<Probe> = Vec::new();
    let mut i: usize = 0;
    assert(out@ =~= directed_probes(interfaces@, 0));
    while i < interfaces.len()
        invariant
            i <= interfaces@.len(),
            out@ == directed_probes(interfaces@, i as int),
        decreases interfaces.len() - i,
    {
        push_probes(
            &mut out,
            ProbeSocket::Main,
            ProbeSocket::Passive,
            interfaces[i].broadcast_address(),
        );
        i += 1;
    }
    push_probes(&mut out, ProbeSocket::Main, ProbeSocket::Passive, 0xffff_ffff);
    let ghost start = out@;
    let mut k: usize = 0;
    assert(out@ =~= start + interface_probes(0));
    while k < interface_sockets
        invariant
            k <= interface_sockets,
            out@ == start + interface_probes(k as int),
        decreases interface_sockets - k,
    {
        push_probes(
            &mut out,
            ProbeSocket::Interface(k),
            ProbeSocket::Interface(k),
            0xffff_ffff,
        );
        k += 1;
        assert(out@ =~= start + interface_probes(k as int));
    }
    out
}

// ---------------------------------------------------------------------------
// Answers
// ---------------------------------------------------------------------------

pub fn is_alive_response(buffer: &[u8]) -> (r: bool)
    ensures
        r == (buffer@ == seq![0x27u8, 0x00u8]),
{
    let r: bool = buffer.len() == 2 && buffer[0] == CMD_ALIVE && buffer[1] == 0x00;
    assert(r ==> buffer@ =~= seq![0x27u8, 0x00u8]);
    r
}

/// Whether an address is one of this host's own, whose broadcasts come back to the
/// passive socket.
pub fn is_local_ip(local: &[IpAddr], ip: IpAddr) -> (r: bool)
    ensures
        r == local@.contains(ip),
{
    let mut i: usize = 0;
    while i < local.len()
        invariant
            i <= local@.len(),
            forall|j: int| 0 <= j < i ==> local@[j] != ip,
        decreases local.len() - i,
    {
        if local[i] == ip {
            assert(local@[i as int] == ip);
            return true;
        }
        i += 1;
    }
    false
}

/// The devices that a discovery has found so far, by address.
#[derive(Debug)]
pub struct DiscoverDacs {
    pub seen_ips: Vec<IpAddr>,
}

/// What to do with an answer.
#[derive(Debug)]
pub enum DiscoveryStep {
    /// Nothing.
    Ignore,
    /// Ask the sender for its full info, from the socket the answer came to.
    RequestFullInfo,
    /// It comes from a device that was not known.
    Found(AddressedDevice),
}

impl DiscoverDacs {
    /// No address is listed twice.
    pub open spec fn wf(self) -> bool {
        self.seen_ips@.no_duplicates()
    }

    /// Whether a device was found at an address.
    pub open spec fn knows(self, ip: IpAddr) -> bool {
        self.seen_ips@.contains(ip)
    }

    pub fn new() -> (r: DiscoverDacs)
        ensures
            r.wf(),
            r.seen_ips@.len() == 0,
    {
        DiscoverDacs { seen_ips: Vec::new() }
    }

    /// Take a datagram. A device is found by its full info, once for each address;
    /// a sign of life from another address is followed up.
    pub fn receive(&mut self, source_addr: SocketAddr, data: &[u8]) -> (r: DiscoveryStep)
        requires
            old(self).wf(),
        ensures
            final(self).wf(),
            r is RequestFullInfo <==> data@ == seq![0x27u8, 0x00u8] && !old(self).knows(
                source_addr.ip,
            ),
            r is Found <==> status::is_full_info(data@) && !old(self).knows(source_addr.ip),
            r matches DiscoveryStep::Found(found) ==> {
                &&& found.source_addr == source_addr
                &&& found.status.reports(data@, source_addr.ip)
                &&& found.profile == ConnectionProfile::of(
                    found.status.connection_type,
                    found.status.buffer_max as usize,
                )
                &&& final(self).seen_ips@ == old(self).seen_ips@.push(source_addr.ip)
            },
            !(r is Found) ==> *final(self) == *old(self),
            old(self).knows(source_addr.ip) ==> r is Ignore,
    {
        let known: bool = is_local_ip(self.seen_ips.as_slice(), source_addr.ip);
        if is_alive_response(data) {
            return if known {
                DiscoveryStep::Ignore
            } else {
                DiscoveryStep::RequestFullInfo
            };
        }
        if known {
            return DiscoveryStep::Ignore;
        }
        match LaserCubeNetworkStatus::parse(data, source_addr.ip) {
            Err(_) => DiscoveryStep::Ignore,
            Ok(status) => {
                self.seen_ips.push(source_addr.ip);
                let profile = ConnectionProfile::for_connection(
                    status.connection_type,
                    status.buffer_max as usize,
                );
                DiscoveryStep::Found(AddressedDevice { source_addr, status, profile })
            },
        }
    }
}

/// What to do when the main socket fails.
#[derive(Clone, Copy, Debug, PartialEq, Eq, Structural)]
pub enum ReceiveErrorStep {
    /// Look at the other sockets once more; report the error if they have nothing.
    LookAgain,
    /// Receive again.
    Retry,
    /// Report the error.
    Report,
}

/// Nothing has arrived in time, an earlier broadcast was rejected, or the socket
/// fails.
pub fn on_receive_error(kind: IoErrorKind) -> (r: ReceiveErrorStep)
    ensures
        r == if kind is WouldBlock || kind is TimedOut {
            ReceiveErrorStep::LookAgain
        } else if kind is ConnectionReset {
            ReceiveErrorStep::Retry
        } else {
            ReceiveErrorStep::Report
        },
{
    match kind {
        IoErrorKind::WouldBlock | IoErrorKind::TimedOut => ReceiveErrorStep::LookAgain,
        IoErrorKind::ConnectionReset => ReceiveErrorStep::Retry,
        _ => ReceiveErrorStep::Report,
    }
}

/// Whether a scan waits for another answer after an error.
pub fn scan_goes_on(kind: IoErrorKind) -> (r: bool)
    ensures
        r == !(kind is WouldBlock || kind is TimedOut),
{
    !(kind == IoErrorKind::WouldBlock || kind == IoErrorKind::TimedOut)
}

// ---------------------------------------------------------------------------
// Devices
// ---------------------------------------------------------------------------

/// Whether a serial number tells devices apart: there is one, and not all zeros.
pub open spec fn usable_serial(serial: Seq<char>) -> bool {
    exists|i: int| 0 <= i < serial.len() && serial[i] != '0'
}

/// The stable id of a device.
pub open spec fn stable_id_text(status: LaserCubeNetworkStatus) -> Seq<char> {
    let serial = text::trimmed(status.serial_number@);
    if usable_serial(serial) {
        "lasercube-network:"@ + serial
    } else {
        "lasercube-network:"@ + status.ip.text()
    }
}

fn has_usable_serial(serial: &str) -> (r: bool)
    ensures
        r == usable_serial(serial@),
{
    let n: usize = serial.unicode_len();
    let mut i: usize = 0;
    while i < n
        invariant
            n == serial@.len(),
            i <= n,
            forall|j: int| 0 <= j < i ==> serial@[j] == '0',
        decreases n - i,
    {
        if serial.get_char(i) != '0' {
            assert(serial@[i as int] != '0');
            return true;
        }
        i += 1;
    }
    false
}

/// Stable id from the hardware serial number, which survives DHCP lease
/// changes. Falls back to the IP form when the serial is unavailable (empty or
/// all-zero). The IP is retained separately as an identifier hint on the
/// discovered device info.
pub fn stable_id_for(status: &LaserCubeNetworkStatus) -> (r: String)
    ensures
        r@ == stable_id_text(*status),
{
    let serial = trim(status.serial_number.as_str());
    if has_usable_serial(serial.as_str()) {
        let mut out = "lasercube-network:".to_owned();
        push_text(&mut out, serial.as_str());
        out
    } else {
        format_stable_id_ip(status.ip)
    }
}

pub fn format_stable_id_ip(ip: IpAddr) -> (r: String)
    ensures
        r@ == "lasercube-network:"@ + ip.text(),
{
    let mut out = "lasercube-network:".to_owned();
    let text = ip.to_text();
    push_text(&mut out, text.as_str());
    out
}

/// The display name of a device.
pub open spec fn device_name_text(status: LaserCubeNetworkStatus, ip: IpAddr) -> Seq<char> {
    if status.model_name@.len() == 0 {
        "LaserCube "@ + ip.text()
    } else {
        status.model_name@ + " "@ + ip.text()
    }
}

/// Human-readable device name, preferring the advertised model name and always
/// disambiguating by IP.
pub fn device_name(status: &LaserCubeNetworkStatus, ip: IpAddr) -> (r: String)
    ensures
        r@ == device_name_text(*status, ip),
{
    let address = ip.to_text();
    let mut out = String::new();
    if status.model_name.as_str().unicode_len() == 0 {
        push_text(&mut out, "LaserCube ");
        assert(out@ =~= "LaserCube "@);
    } else {
        push_text(&mut out, status.model_name.as_str());
        push_text(&mut out, " ");
        assert(out@ =~= status.model_name@ + " "@);
    }
    push_text(&mut out, address.as_str());
    out
}

/// How a device is presented to users, and what it can do.
pub fn describe_device(addressed: &AddressedDevice) -> (r: (DiscoveredDeviceInfo, DacCapabilities))
    ensures
        r.0.dac_type is LaserCubeNetwork,
        r.0.stable_id@ == stable_id_text(addressed.status),
        r.0.name@ == device_name_text(addressed.status, addressed.source_addr.ip),
        r.0.ip == Some(addressed.source_addr.ip),
        r.0.hostname is None,
        r.0.usb_address is None,
        r.0.hardware_name == Some(addressed.status.serial_number),
        r.1 == lasercube_network::capabilities_of(
            addressed.profile,
            lasercube_network::point_rate_max_of(addressed.status),
        ),
{
    let ip: IpAddr = addressed.source_addr.ip;
    let stable_id = stable_id_for(&addressed.status);
    let name = device_name(&addressed.status, ip);
    let caps = capabilities_for_status(addressed.profile, &addressed.status);
    let info = DiscoveredDeviceInfo::new(DacType::LaserCubeNetwork, stable_id, name).with_ip(
        ip,
    ).with_hardware_name(addressed.status.serial_number.clone());
    (info, caps)
}

/// A device keeps its stable id wherever it is found, as long as it tells a usable
/// serial number, and two such devices share an id only if they share the number.
pub proof fn stable_id_follows_serial(a: LaserCubeNetworkStatus, b: LaserCubeNetworkStatus)
    requires
        usable_serial(text::trimmed(a.serial_number@)),
        usable_serial(text::trimmed(b.serial_number@)),
    ensures
        stable_id_text(a) == stable_id_text(b) <==> text::trimmed(a.serial_number@)
            == text::trimmed(b.serial_number@),
{
    let prefix = "lasercube-network:"@;
    let n = prefix.len() as int;
    assert(stable_id_text(a).skip(n) =~= text::trimmed(a.serial_number@));
    assert(stable_id_text(b).skip(n) =~= text::trimmed(b.serial_number@));
}

/// Each subnet that this host is on is asked twice, for full info and for a sign of life.
pub proof fn every_subnet_is_asked(interfaces: Seq<NetworkInterface>, n: int, i: int)
    requires
        0 <= i < n <= interfaces.len(),
    ensures
        ({
            let all = directed_probes(interfaces, n);
            let everyone = interfaces[i].ip | !interfaces[i].netmask;
            &&& all.len() == 4 * n
            &&& forall|k: int|
                4 * i <= k < 4 * i + 4 ==> {
                    let p = #[trigger] all[k];
                    &&& p.ip == everyone
                    &&& p.kind is FullInfo <==> k % 2 == 0
                    &&& p.kind is FullInfo ==> p.port == 45457 && p.socket is Main
                    &&& p.kind is Alive ==> p.port == 45456 && p.socket is Passive
                }
        }),
    decreases n,
{
    if n > 1 {
        every_subnet_is_asked(interfaces, n - 1, if i < n - 1 {
            i
        } else {
            0
        });
    } else {
        assert(directed_probes(interfaces, 0).len() == 0);
    }
    let head = directed_probes(interfaces, n - 1);
    let all = directed_probes(interfaces, n);
    let last = address_probes(
        ProbeSocket::Main,
        ProbeSocket::Passive,
        interfaces[n - 1].ip | !interfaces[n - 1].netmask,
    );
    assert(all =~= head + last);
    let everyone = interfaces[i].ip | !interfaces[i].netmask;
    assert forall|k: int| 4 * i <= k < 4 * i + 4 implies {
        let p = #[trigger] all[k];
        &&& p.ip == everyone
        &&& p.kind is FullInfo <==> k % 2 == 0
        &&& p.kind is FullInfo ==> p.port == 45457 && p.socket is Main
        &&& p.kind is Alive ==> p.port == 45456 && p.socket is Passive
    } by {
        if i < n - 1 {
            assert(all[k] == head[k]);
        } else {
            assert(all[k] == last[k - 4 * (n - 1)]);
        }
    }
}

/// A device is found by its full info, once at each address, and a sign of life is
/// followed up until then. What is found is what the device told.
pub proof fn device_is_found_once()
    ensures
        forall|d: &mut DiscoverDacs, source: SocketAddr, data: &[u8], r: DiscoveryStep|
            #[trigger] call_ensures(DiscoverDacs::receive, (d, source, data), r) ==> {
                &&& d.knows(source.ip) ==> r is Ignore && *final(d) == *d
                &&& r is Found ==> !d.knows(source.ip) && final(d).knows(source.ip)
                &&& !d.knows(source.ip) && status::is_full_info(data@) ==> r is Found
                &&& !d.knows(source.ip) && data@ == seq![0x27u8, 0x00u8] ==> r is RequestFullInfo
                &&& r matches DiscoveryStep::Found(device) ==> {
                    &&& device.source_addr == source
                    &&& device.status.reports(data@, source.ip)
                    &&& device.profile.buffer_total == device.status.buffer_max
                }
            },
{
    assert forall|d: &mut DiscoverDacs, source: SocketAddr, data: &[u8], r: DiscoveryStep|
        #[trigger] call_ensures(DiscoverDacs::receive, (d, source, data), r) && r is Found implies (
    final(d).knows(source.ip)) by {
        let ips = final(d).seen_ips@;
        assert(ips[ips.len() - 1] == source.ip);
    }
}

/// A device without a usable serial number is known by its address.
pub proof fn stable_id_falls_back_to_address(status: LaserCubeNetworkStatus)
    requires
        !usable_serial(text::trimmed(status.serial_number@)),
    ensures
        stable_id_text(status).skip("lasercube-network:"@.len() as int) =~= status.ip.text(),
        stable_id_text(status).take("lasercube-network:"@.len() as int) =~= "lasercube-network:"@,
{
}

/// The broadcast address of a network has the bits of the network as they are and all
/// others set; an answer that shows a living device is its two bytes.
pub proof fn broadcast_reaches_the_whole_network()
    ensures
        forall|i: &NetworkInterface, r: u32| #[trigger]
            call_ensures(NetworkInterface::broadcast_address, (i,), r) ==> r & i.netmask == i.ip
                & i.netmask && r | i.netmask == 0xFFFF_FFFF,
        forall|p: &Probe, r: [u8; 1]| #[trigger]
            call_ensures(Probe::datagram, (p,), r) ==> {
                &&& p.kind is FullInfo ==> r@[0] == 0x77
                &&& p.kind is Alive ==> r@[0] == 0x27
            },
        forall|b: &[u8], r: bool| #[trigger]
            call_ensures(is_alive_response, (b,), r) ==> (r <==> b@.len() == 2 && b@[0] == 0x27
                && b@[1] == 0),
        forall|kind: IoErrorKind, r: ReceiveErrorStep| #[trigger]
            call_ensures(on_receive_error, (kind,), r) ==> {
                &&& r is LookAgain <==> kind is WouldBlock || kind is TimedOut
                &&& r is Retry <==> kind is ConnectionReset
            },
{
    assert forall|i: &NetworkInterface, r: u32| #[trigger]
        call_ensures(NetworkInterface::broadcast_address, (i,), r) implies r & i.netmask == i.ip
        & i.netmask && r | i.netmask == 0xFFFF_FFFF by {
        let ip = i.ip;
        let mask = i.netmask;
        assert((ip | !mask) & mask == ip & mask && (ip | !mask) | mask == 0xFFFF_FFFFu32)
            by (bit_vector);
    }
    assert forall|b: &[u8], r: bool| #[trigger] call_ensures(is_alive_response, (b,), r) implies (r
        <==> b@.len() == 2 && b@[0] == 0x27 && b@[1] == 0) by {
        if b@.len() == 2 && b@[0] == 0x27 && b@[1] == 0 {
            assert(b@ =~= seq![0x27u8, 0x00u8]);
        }
    }
}

/// Each interface socket asks all it can reach for both answers, twice, from itself.
pub proof fn every_interface_socket_asks(n: int, k: int)
    requires
        0 <= k < n <= usize::MAX,
    ensures
        interface_probes(n).len() == 4 * n,
        forall|j: int|
            4 * k <= j < 4 * k + 4 ==> {
                let p = #[trigger] interface_probes(n)[j];
                &&& p.socket == ProbeSocket::Interface(k as usize)
                &&& p.ip == 0xFFFF_FFFF
                &&& p.kind is FullInfo <==> j % 2 == 0
                &&& p.kind is FullInfo ==> p.port == 45457
                &&& p.kind is Alive ==> p.port == 45456
            },
    decreases n,
{
    lemma_interface_probes(n - 1);
    if k < n - 1 {
        every_interface_socket_asks(n - 1, k);
        assert forall|j: int| 4 * k <= j < 4 * k + 4 implies #[trigger] interface_probes(n)[j]
            == interface_probes(n - 1)[j] by {}
    }
}

proof fn lemma_interface_probes(n: int)
    requires
        0 <= n,
    ensures
        interface_probes(n).len() == 4 * n,
    decreases n,
{
    if n > 0 {
        lemma_interface_probes(n - 1);
    }
}

/// A device is told by its model, or else as a LaserCube, and by its address.
pub proof fn name_ends_with_the_address()
    ensures
        forall|s: &LaserCubeNetworkStatus, ip: IpAddr, r: String| #[trigger]
            call_ensures(device_name, (s, ip), r) ==> {
                &&& s.model_name@.len() > 0 ==> r@ == s.model_name@ + " "@ + ip.text()
                &&& s.model_name@.len() == 0 ==> r@ == "LaserCube "@ + ip.text()
            },
        forall|s: &LaserCubeNetworkStatus, r: String| #[trigger]
            call_ensures(stable_id_for, (s,), r) ==> r@ == stable_id_text(*s),
{
}

} // verus!
