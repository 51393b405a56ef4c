//! Oscilloscope XY mode backend via audio output.
//!
//! Laser points are mapped to stereo audio channels: `x` to the left one, `y` to the
//! right one. A DC-coupled audio interface shows them on an oscilloscope in XY mode.

use vstd::prelude::*;

use crate::device::{DacCapabilities, OutputModel};

pub mod backend;
pub mod discovery;
pub mod queue;

verus! {

/// The length of the ring buffer: 100 ms of audio, 4096 samples at least.
pub open spec fn capacity_at(sample_rate: u32) -> usize {
    if sample_rate / 10 >= 4096 {
        (sample_rate / 10) as usize
    } else {
        4096
    }
}

/// Returns capabilities for an oscilloscope device at the given sample rate.
///
/// PPS is unconstrained because the backend resamples from the user's PPS
/// to the audio device sample rate.
///
/// `max_points_per_chunk` is set to the ring-buffer capacity (~100ms of
/// audio) so the scheduler can submit up to a full buffer's worth at once.
pub fn capabilities(sample_rate: u32) -> (r: DacCapabilities)
    ensures
        r == (DacCapabilities {
            pps_min: 1,
            pps_max: 100_000,
            max_points_per_chunk: capacity_at(sample_rate),
            output_model: OutputModel::NetworkFifo,
        }),
{
    DacCapabilities {
        pps_min: 1,
        pps_max: 100_000,
        max_points_per_chunk: buffer_capacity(sample_rate),
        output_model: OutputModel::NetworkFifo,
    }
}

/// Ring buffer capacity: ~100ms of audio at the given sample rate (min 4096).
pub fn buffer_capacity(sample_rate: u32) -> (r: usize)
    ensures
        r == capacity_at(sample_rate),
        r >= 4096,
{
    let tenth: u32 = sample_rate / 10;
    if tenth >= 4096 {
        tenth as usize
    } else {
        4096
    }
}

/// The buffer holds a tenth of a second, and 4096 samples at least.
pub proof fn buffer_holds_a_tenth_second(sample_rate: u32)
    ensures
        capacity_at(sample_rate) >= 4096,
        10 * capacity_at(sample_rate) + 10 > sample_rate,
        capacity_at(sample_rate) == 4096 || 10 * capacity_at(sample_rate) <= sample_rate,
{
}

/// A device can do what its buffer and any rate allow.
pub proof fn limits_follow_the_sample_rate()
    ensures
        forall|rate: u32, r: DacCapabilities| #[trigger]
            call_ensures(capabilities, (rate,), r) ==> r.pps_min == 1 && r.pps_max == 100_000
                && r.max_points_per_chunk == capacity_at(rate) && r.output_model is NetworkFifo,
        forall|rate: u32, r: usize| #[trigger]
            call_ensures(buffer_capacity, (rate,), r) ==> r == capacity_at(rate) && r >= 4096,
{
}

} // verus!
