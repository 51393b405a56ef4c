//! ILDA Digital Network (IDN) protocol.

pub mod backend;
pub mod dac;
pub mod discovery;
pub mod error;
pub mod protocol;
pub mod scan;

use vstd::prelude::*;

use crate::device::{DacCapabilities, OutputModel};

verus! {

/// Returns the default capabilities for IDN DACs.
///
/// These are conservative defaults for unknown devices. IDN has no
/// protocol-defined pps_min (rate is derived from sampleCount/chunkDuration).
pub fn default_capabilities() -> (r: DacCapabilities)
    ensures
        r == (DacCapabilities {
            pps_min: 1,
            pps_max: 100_000,
            max_points_per_chunk: 179,
            output_model: OutputModel::UdpTimed,
        }),
{
    DacCapabilities {
        pps_min: 1,
        pps_max: 100_000,
        max_points_per_chunk: 179,
        output_model: OutputModel::UdpTimed,
    }
}

/// What is said of an unknown device fits a packet: its chunks are as large as a packet
/// of the smallest samples allows.
pub proof fn unknown_device_fills_a_packet()
    ensures
        forall|r: DacCapabilities| #[trigger]
            call_ensures(default_capabilities, (), r) ==> {
                &&& 1 <= r.pps_min <= r.pps_max
                &&& 16 + 8 * r.max_points_per_chunk <= 1454 < 16 + 8 * (r.max_points_per_chunk + 1)
                &&& r.output_model is UdpTimed
            },
{
}

} // verus!
