//! Pure pacing calculations for the LaserCube network transport.

use vstd::prelude::*;

use crate::arith;

verus! {

#[derive(Copy, Clone, Debug, PartialEq, Eq, Structural)]
pub struct PacerInputs {
    pub queue_len: usize,
    pub free_estimate: usize,
    pub buffer_total: usize,
    pub remote_buffer_cutoff: usize,
    pub per_tick_packet_budget: usize,
}

/// How many of `total` are not free.
pub open spec fn buffered(total: int, free: int) -> int {
    if free <= total {
        total - free
    } else {
        0
    }
}

/// How many points the device takes until it is filled to its cutoff.
pub open spec fn remote_room(inputs: PacerInputs) -> int {
    let target = arith::least(inputs.remote_buffer_cutoff as int, inputs.buffer_total as int);
    let held = buffered(inputs.buffer_total as int, inputs.free_estimate as int);
    if held <= target {
        target - held
    } else {
        0
    }
}

/// How many points may be sent now: what is queued, up to a packet, and up to
/// what the device takes until its cutoff.
pub fn send_budget(inputs: PacerInputs) -> (r: usize)
    ensures
        r == arith::least(
            arith::least(inputs.queue_len as int, remote_room(inputs)),
            inputs.per_tick_packet_budget as int,
        ),
{
    let device_target: usize = if inputs.remote_buffer_cutoff <= inputs.buffer_total {
        inputs.remote_buffer_cutoff
    } else {
        inputs.buffer_total
    };
    let device_buffered: usize = inputs.buffer_total.saturating_sub(inputs.free_estimate);
    let remote_budget: usize = device_target.saturating_sub(device_buffered);
    let mut budget: usize = inputs.queue_len;
    if remote_budget < budget {
        budget = remote_budget;
    }
    if inputs.per_tick_packet_budget < budget {
        budget = inputs.per_tick_packet_budget;
    }
    budget
}

/// How long `samples` last at a point rate, in nanoseconds: the nearest whole
/// number, the larger one half way between two.
pub open spec fn samples_ns(samples: int, rate: int) -> int {
    (2 * samples * 1_000_000_000 + rate) / (2 * rate)
}

/// How long a packet lasts, in nanoseconds, as far as the clock can count them.
pub fn packet_interval(packet_samples: usize, point_rate: u32) -> (r: u64)
    requires
        point_rate > 0 ==> samples_ns(packet_samples as int, point_rate as int) <= u64::MAX,
    ensures
        (packet_samples == 0 || point_rate == 0) ==> r == 0,
        packet_samples > 0 && point_rate > 0 ==> r == samples_ns(
            packet_samples as int,
            point_rate as int,
        ),
{
    if packet_samples == 0 || point_rate == 0 {
        return 0;
    }
    let doubled: u128 = 2 * (packet_samples as u128) * 1_000_000_000 + point_rate as u128;
    let divisor: u128 = 2 * (point_rate as u128);
    let ns: u128 = doubled / divisor;
    ns as u64
}

/// What is sent within the budget never fills the device past its cutoff.
pub proof fn budget_keeps_cutoff(inputs: PacerInputs, sent: int)
    requires
        0 < sent <= arith::least(
            arith::least(inputs.queue_len as int, remote_room(inputs)),
            inputs.per_tick_packet_budget as int,
        ),
    ensures
        buffered(inputs.buffer_total as int, inputs.free_estimate as int) + sent
            <= inputs.remote_buffer_cutoff,
        buffered(inputs.buffer_total as int, inputs.free_estimate as int) + sent
            <= inputs.buffer_total,
{
}

/// The budget is as large as it may be: it is spent by the queue, by the packet, or by
/// reaching the cutoff or the end of the device's buffer.
pub proof fn budget_is_used_up()
    ensures
        forall|inputs: PacerInputs, r: usize|
            #[trigger] call_ensures(send_budget, (inputs,), r) && inputs.free_estimate
                <= inputs.buffer_total ==> {
                let held = inputs.buffer_total - inputs.free_estimate;
                &&& r <= inputs.queue_len
                &&& r <= inputs.per_tick_packet_budget
                &&& r > 0 ==> held + r <= inputs.remote_buffer_cutoff && held + r
                    <= inputs.buffer_total
                &&& {
                    ||| r == inputs.queue_len
                    ||| r == inputs.per_tick_packet_budget
                    ||| held + r >= inputs.remote_buffer_cutoff
                    ||| held + r >= inputs.buffer_total
                }
            },
{
}

/// A packet lasts as long as its points at the rate, to the nearest nanosecond.
pub proof fn interval_is_nearest(samples: int, rate: int)
    requires
        0 <= samples,
        1 <= rate,
    ensures
        2 * samples_ns(samples, rate) * rate <= 2 * samples * 1_000_000_000 + rate,
        2 * samples * 1_000_000_000 < 2 * samples_ns(samples, rate) * rate + rate,
{
    let n = 2 * samples * 1_000_000_000 + rate;
    let d = 2 * rate;
    let q = n / d;
    assert(q * d <= n < q * d + d) by (nonlinear_arith)
        requires
            q == n / d,
            d > 0,
    ;
    assert(q * d == 2 * q * rate) by (nonlinear_arith)
        requires
            d == 2 * rate,
    ;
}

} // verus!
