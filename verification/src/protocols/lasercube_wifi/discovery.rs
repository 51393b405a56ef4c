//! LaserCube WiFi DAC discovery.

use vstd::prelude::*;
use vstd::string::*;

use crate::device::DacType;
use crate::discovery::DiscoveredDeviceInfo;
use crate::error::IoErrorKind;
use crate::net::IpAddr;
use crate::text::push_text;

verus! {

/// Answers that one scan waits for.
pub const SCAN_ATTEMPTS: u32 = 10;

pub struct LasercubeWifiDiscoverer {
    /// How long to wait for each answer, in nanoseconds.
    pub timeout: u64,
}

impl LasercubeWifiDiscoverer {
    pub fn new() -> (r: LasercubeWifiDiscoverer)
        ensures
            r.timeout == 100_000_000,
    {
        LasercubeWifiDiscoverer { timeout: 100_000_000 }
    }

    pub fn dac_type(&self) -> (r: DacType)
        ensures
            r is LasercubeWifi,
    {
        DacType::LasercubeWifi
    }

    /// The prefix of the stable ids.
    pub fn prefix(&self) -> (r: &'static str)
        ensures
            r@ == "lasercube-wifi"@,
    {
        "lasercube-wifi"
    }

    /// How a device is presented to users: by its address.
    pub fn describe_device(&self, ip: IpAddr) -> (r: DiscoveredDeviceInfo)
        ensures
            r.dac_type is LasercubeWifi,
            r.stable_id@ == "lasercube-wifi:"@ + ip.text(),
            r.name@ == ip.text(),
            r.ip == Some(ip),
            r.hostname is None,
            r.usb_address is None,
            r.hardware_name is None,
    {
        let name = ip.to_text();
        let mut stable_id = "lasercube-wifi:".to_owned();
        push_text(&mut stable_id, name.as_str());
        DiscoveredDeviceInfo::new(DacType::LasercubeWifi, stable_id, name).with_ip(ip)
    }

    /// Whether a scan waits for another answer after an error.
    pub fn scan_goes_on(kind: IoErrorKind) -> (r: bool)
        ensures
            r == !(kind is WouldBlock || kind is TimedOut),
    {
        !(kind == IoErrorKind::WouldBlock || kind == IoErrorKind::TimedOut)
    }
}

impl Default for LasercubeWifiDiscoverer {
    fn default() -> (r: LasercubeWifiDiscoverer)
        ensures
            r.timeout == 100_000_000,
    {
        LasercubeWifiDiscoverer::new()
    }
}

/// A device is known by its address, and a scan waits on unless nothing came in time.
pub proof fn address_identifies_the_device()
    ensures
        forall|d: &LasercubeWifiDiscoverer, ip: IpAddr, r: DiscoveredDeviceInfo| #[trigger]
            call_ensures(LasercubeWifiDiscoverer::describe_device, (d, ip), r) ==> {
                &&& r.dac_type is LasercubeWifi
                &&& r.stable_id@ == "lasercube-wifi:"@ + ip.text()
                &&& r.name@ == ip.text()
                &&& r.ip == Some(ip)
                &&& r.hostname is None && r.usb_address is None && r.hardware_name is None
            },
        forall|kind: IoErrorKind, r: bool| #[trigger]
            call_ensures(LasercubeWifiDiscoverer::scan_goes_on, (kind,), r) ==> (!r
                <==> kind is WouldBlock || kind is TimedOut),
{
}

} // verus!
