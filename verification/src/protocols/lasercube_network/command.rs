//! LaserCube network command encoders.

use vstd::prelude::*;

use crate::bytes::{self, push_le_u32};
use crate::protocols::lasercube_network::protocol::{
    CMD_CLEAR_RINGBUFFER, CMD_ENABLE_BUFFER_SIZE_RESPONSE, CMD_GET_FULL_INFO,
    CMD_SET_DAC_BUFFER_THRESHOLD, CMD_SET_OUTPUT, CMD_SET_RATE,
};
use crate::protocols::lasercube_network::status::LaserCubeNetworkStatus;

verus! {

/// A truth value on the wire.
pub open spec fn flag(on: bool) -> u8 {
    if on {
        1
    } else {
        0
    }
}

/// A command with a number of four bytes, least significant first.
pub open spec fn with_u32(command: u8, n: u32) -> Seq<u8> {
    seq![command] + bytes::le_u32_bytes(n)
}

pub fn get_full_info() -> (r: [u8; 1])
    ensures
        r@ == seq![0x77u8],
{
    let r: [u8; 1] = [CMD_GET_FULL_INFO];
    assert(r@ =~= seq![0x77u8]);
    r
}

pub fn enable_buffer_size_response(enable: bool) -> (r: [u8; 2])
    ensures
        r@ == seq![0x78u8, flag(enable)],
{
    let r: [u8; 2] = [CMD_ENABLE_BUFFER_SIZE_RESPONSE, if enable {
        1
    } else {
        0
    }];
    assert(r@ =~= seq![0x78u8, flag(enable)]);
    r
}

pub fn set_output(enable: bool) -> (r: [u8; 2])
    ensures
        r@ == seq![0x80u8, flag(enable)],
{
    let r: [u8; 2] = [CMD_SET_OUTPUT, if enable {
        1
    } else {
        0
    }];
    assert(r@ =~= seq![0x80u8, flag(enable)]);
    r
}

fn encode_u32(command: u8, n: u32) -> (r: [u8; 5])
    ensures
        r@ == with_u32(command, n),
{
    let mut value: Vec<u8> = Vec::new();
    push_le_u32(&mut value, n);
    let r: [u8; 5] = [command, value[0], value[1], value[2], value[3]];
    assert(r@ =~= with_u32(command, n));
    r
}

pub fn set_rate(rate: u32) -> (r: [u8; 5])
    ensures
        r@ == with_u32(0x82, rate),
{
    encode_u32(CMD_SET_RATE, rate)
}

pub fn clear_ringbuffer() -> (r: [u8; 1])
    ensures
        r@ == seq![0x8Du8],
{
    let r: [u8; 1] = [CMD_CLEAR_RINGBUFFER];
    assert(r@ =~= seq![0x8Du8]);
    r
}

pub fn set_dac_buffer_threshold(threshold: u32) -> (r: [u8; 5])
    ensures
        r@ == with_u32(0xA0, threshold),
{
    encode_u32(CMD_SET_DAC_BUFFER_THRESHOLD, threshold)
}

/// Whether the device takes a buffer threshold: by its model, or by either part of
/// its firmware version.
pub open spec fn takes_threshold(status: LaserCubeNetworkStatus) -> bool {
    status.model_number >= 10 || status.firmware_major > 1 || status.firmware_minor > 23
}

pub fn threshold_supported(status: &LaserCubeNetworkStatus) -> (r: bool)
    ensures
        r == takes_threshold(*status),
{
    status.model_number >= 10 || status.firmware_major > 1 || status.firmware_minor > 23
}

/// A device reads from a command just what it was given: its code, and the number or the
/// switch that follows.
pub proof fn commands_carry_their_value()
    ensures
        forall|rate: u32, r: [u8; 5]|
            #[trigger] call_ensures(set_rate, (rate,), r) ==> r@[0] == 0x82 && bytes::le_u32(r@, 1)
                == rate,
        forall|threshold: u32, r: [u8; 5]|
            #[trigger] call_ensures(set_dac_buffer_threshold, (threshold,), r) ==> r@[0] == 0xA0
                && bytes::le_u32(r@, 1) == threshold,
        forall|on: bool, r: [u8; 2]|
            #[trigger] call_ensures(set_output, (on,), r) ==> r@[0] == 0x80 && (on <==> r@[1] == 1)
                && (!on <==> r@[1] == 0),
        forall|on: bool, r: [u8; 2]|
            #[trigger] call_ensures(enable_buffer_size_response, (on,), r) ==> r@[0] == 0x78 && (on
                <==> r@[1] == 1) && (!on <==> r@[1] == 0),
{
    assert forall|rate: u32, r: [u8; 5]| #[trigger] call_ensures(set_rate, (rate,), r) implies r@[0]
        == 0x82 && bytes::le_u32(r@, 1) == rate by {
        assert(r@.subrange(1, 5) =~= bytes::le_u32_bytes(rate));
        bytes::le_u32_round_trip(r@, 1, rate);
    }
    assert forall|threshold: u32, r: [u8; 5]| #[trigger]
        call_ensures(set_dac_buffer_threshold, (threshold,), r) implies r@[0] == 0xA0
        && bytes::le_u32(r@, 1) == threshold by {
        assert(r@.subrange(1, 5) =~= bytes::le_u32_bytes(threshold));
        bytes::le_u32_round_trip(r@, 1, threshold);
    }
}

/// Only devices from model ten or from firmware 1.24 on take a threshold. Either part of
/// the version alone decides.
pub proof fn old_devices_take_no_threshold(status: LaserCubeNetworkStatus)
    ensures
        status.model_number < 10 && status.firmware_major <= 1 && status.firmware_minor < 24
            <==> !takes_threshold(status),
{
}

} // verus!
