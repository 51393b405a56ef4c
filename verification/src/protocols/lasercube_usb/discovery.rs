//! LaserCube USB (LaserDock) DAC discovery.

use vstd::prelude::*;
use vstd::string::*;

use crate::device::DacType;
use crate::discovery::DiscoveredDeviceInfo;
use crate::text::{self, push_decimal, push_text};

verus! {

/// Where a device sits on the bus.
pub open spec fn address_text(bus_number: u8, address: u8) -> Seq<char> {
    text::decimal(bus_number as nat) + ":"@ + text::decimal(address as nat)
}

/// How a device is presented to users: by its serial number, or else by its place on
/// the bus.
pub fn describe_device(bus_number: u8, address: u8, serial: Option<String>) -> (r:
    DiscoveredDeviceInfo)
    ensures
        r.dac_type is LaserCubeUsb,
        r.usb_address matches Some(a) && a@ == address_text(bus_number, address),
        r.hardware_name == serial,
        r.ip is None,
        r.hostname is None,
        match serial {
            Some(s) => r.stable_id@ == "lasercube-usb:"@ + s@ && r.name@ == s@,
            None => r.stable_id@ == "lasercube-usb:"@ + address_text(bus_number, address)
                && r.name@ == address_text(bus_number, address),
        },
{
    let mut usb_address = String::new();
    push_decimal(&mut usb_address, bus_number as u64);
    assert(usb_address@ =~= text::decimal(bus_number as nat));
    push_text(&mut usb_address, ":");
    push_decimal(&mut usb_address, address as u64);
    let mut stable_id = "lasercube-usb:".to_owned();
    match serial {
        Some(s) => {
            push_text(&mut stable_id, s.as_str());
            DiscoveredDeviceInfo::new(DacType::LaserCubeUsb, stable_id, s.clone()).with_usb_address(
                usb_address,
            ).with_hardware_name(s)
        },
        None => {
            push_text(&mut stable_id, usb_address.as_str());
            DiscoveredDeviceInfo::new(
                DacType::LaserCubeUsb,
                stable_id,
                usb_address.clone(),
            ).with_usb_address(usb_address)
        },
    }
}

/// The prefix of the stable ids.
pub fn prefix() -> (r: &'static str)
    ensures
        r@ == "lasercube-usb"@,
{
    "lasercube-usb"
}

/// A device that tells its serial number is known by it wherever it is plugged in; one
/// that tells none is known by its place on the bus.
pub proof fn serial_number_identifies_the_device()
    ensures
        forall|bus: u8, address: u8, serial: Option<String>, r: DiscoveredDeviceInfo| #[trigger]
            call_ensures(describe_device, (bus, address, serial), r) ==> {
                let place = text::decimal(bus as nat) + ":"@ + text::decimal(address as nat);
                &&& r.dac_type is LaserCubeUsb
                &&& r.usb_address is Some && r.usb_address->0@ == place
                &&& r.hardware_name == serial
                &&& r.ip is None && r.hostname is None
                &&& serial matches Some(s) ==> r.stable_id@ == "lasercube-usb:"@ + s@ && r.name@
                    == s@
                &&& serial is None ==> r.stable_id@ == "lasercube-usb:"@ + place && r.name@ == place
            },
{
}

} // verus!
