//! LaserCube/LaserDock USB DAC protocol.

use vstd::prelude::*;

use crate::device::{DacCapabilities, OutputModel};
use crate::protocols::lasercube_usb::protocol::{LASERDOCK_PID, LASERDOCK_VID};

pub mod backend;
pub mod dac;
pub mod discovery;
pub mod error;
pub mod protocol;

verus! {

/// What a LaserCube USB DAC can do at most at a rate.
pub open spec fn capabilities_at(pps_max: u32) -> DacCapabilities {
    DacCapabilities {
        pps_min: 1,
        pps_max,
        max_points_per_chunk: 4096,
        output_model: OutputModel::NetworkFifo,
    }
}

/// Returns the default capabilities for LaserCube USB DACs.
pub fn default_capabilities() -> (r: DacCapabilities)
    ensures
        r == capabilities_at(35_000),
{
    DacCapabilities {
        pps_min: 1,
        pps_max: 35_000,
        max_points_per_chunk: 4096,
        output_model: OutputModel::NetworkFifo,
    }
}

/// Whether a USB device is a LaserCube or LaserDock, by its vendor and product.
pub fn is_laserdock(vendor_id: u16, product_id: u16) -> (r: bool)
    ensures
        r == (vendor_id == 0x1FC9 && product_id == 0x04D8),
{
    vendor_id == LASERDOCK_VID && product_id == LASERDOCK_PID
}

/// A device is a LaserCube by its vendor and its product, both of them.
pub proof fn vendor_and_product_identify()
    ensures
        forall|vendor: u16, product: u16, r: bool| #[trigger]
            call_ensures(is_laserdock, (vendor, product), r) ==> (r <==> vendor == 0x1FC9
                && product == 0x04D8),
        forall|r: DacCapabilities| #[trigger]
            call_ensures(default_capabilities, (), r) ==> r.pps_min == 1 && r.pps_max == 35_000
                && r.max_points_per_chunk == 4096 && r.output_model is NetworkFifo,
{
}

} // verus!
