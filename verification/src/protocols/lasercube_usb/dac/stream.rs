//! USB streaming interface for LaserCube/LaserDock DAC communication.
//!
//! Each control command is a packet that is sent and a response that is checked;
//! samples are sent in bulk transfers. The transfers themselves are up to the caller.

use vstd::prelude::*;
use vstd::slice::slice_subrange;

use crate::bytes::{self, push_le_u32, read_le_u32};
use crate::protocols::lasercube_usb::dac::{DeviceInfo, DeviceStatus, FirmwareVersion};
use crate::protocols::lasercube_usb::error::Error;
use crate::protocols::lasercube_usb::protocol::{
    Sample, CMD_CLEAR_RINGBUFFER, CMD_GET_BULK_PACKET_SAMPLE_COUNT, CMD_GET_DAC_RATE,
    CMD_GET_MAX_DAC_RATE, CMD_GET_MAX_DAC_VALUE, CMD_GET_MIN_DAC_VALUE, CMD_GET_OUTPUT,
    CMD_GET_RINGBUFFER_EMPTY_SAMPLE_COUNT, CMD_GET_RINGBUFFER_SAMPLE_COUNT,
    CMD_GET_SAMPLE_ELEMENT_COUNT, CMD_GET_VERSION_MAJOR, CMD_GET_VERSION_MINOR, CMD_RUNNER_MODE,
    CMD_SET_DAC_RATE, CMD_SET_OUTPUT, RUNNER_MODE_SUB_ENABLE, RUNNER_MODE_SUB_RUN,
};

verus! {

/// Default X flip: flip X, not Y. Flipping both would mirror the output.
pub const DEFAULT_FLIP_X: bool = true;

/// Default Y flip (see [`DEFAULT_FLIP_X`]).
pub const DEFAULT_FLIP_Y: bool = false;

/// How many values [`Stream::info_command`] asks the device for.
pub const INFO_QUERIES: usize = 11;

// ---------------------------------------------------------------------------
// Control packets
// ---------------------------------------------------------------------------

/// The packets that clear a stuck runner mode of a previous session, in order: both
/// switches on and off again. Older firmware may not know the command, so errors do
/// not matter.
pub fn runner_mode_packets() -> (r: [[u8; 3]; 4])
    ensures
        r@[0]@ == seq![0xC0u8, 1u8, 1u8],
        r@[1]@ == seq![0xC0u8, 1u8, 0u8],
        r@[2]@ == seq![0xC0u8, 2u8, 1u8],
        r@[3]@ == seq![0xC0u8, 2u8, 0u8],
{
    let r: [[u8; 3]; 4] = [
        [CMD_RUNNER_MODE, RUNNER_MODE_SUB_ENABLE, 1],
        [CMD_RUNNER_MODE, RUNNER_MODE_SUB_ENABLE, 0],
        [CMD_RUNNER_MODE, RUNNER_MODE_SUB_RUN, 1],
        [CMD_RUNNER_MODE, RUNNER_MODE_SUB_RUN, 0],
    ];
    assert(r@[0]@ =~= seq![0xC0u8, 1u8, 1u8]);
    assert(r@[1]@ =~= seq![0xC0u8, 1u8, 0u8]);
    assert(r@[2]@ =~= seq![0xC0u8, 2u8, 1u8]);
    assert(r@[3]@ =~= seq![0xC0u8, 2u8, 0u8]);
    r
}

/// The packet that sets a byte.
pub fn set_u8_packet(command: u8, value: u8) -> (r: [u8; 2])
    ensures
        r@ == seq![command, value],
{
    let r: [u8; 2] = [command, value];
    assert(r@ =~= seq![command, value]);
    r
}

/// The packet that sets a number of four bytes, least significant first.
pub fn set_u32_packet(command: u8, value: u32) -> (r: [u8; 5])
    ensures
        r@ == seq![command] + bytes::le_u32_bytes(value),
{
    let mut bytes: Vec<u8> = Vec::new();
    push_le_u32(&mut bytes, value);
    let r: [u8; 5] = [command, bytes[0], bytes[1], bytes[2], bytes[3]];
    assert(r@ =~= seq![command] + bytes::le_u32_bytes(value));
    r
}

/// Whether a transfer has taken all of its bytes.
pub fn check_transfer(transferred: usize, len: usize) -> (r: Result<(), Error>)
    ensures
        r is Ok <==> transferred == len,
        r matches Err(e) ==> e.is_short_write(),
{
    if transferred != len {
        return Err(Error::short_write());
    }
    Ok(())
}

/// Whether a response of `transferred` bytes is a whole packet that says that the
/// command succeeded.
pub open spec fn is_success(response: Seq<u8>, transferred: usize) -> bool {
    transferred == 64 && response[1] == 0
}

/// Check the response to a command that sets something.
pub fn check_response(response: &[u8; 64], transferred: usize) -> (r: Result<(), Error>)
    ensures
        r is Ok <==> is_success(response@, transferred),
        r matches Err(e) ==> e is InvalidResponse,
{
    if transferred != 64 || response[1] != 0 {
        return Err(Error::InvalidResponse);
    }
    Ok(())
}

/// The byte that a response carries.
pub fn response_u8(response: &[u8; 64], transferred: usize) -> (r: Result<u8, Error>)
    ensures
        r is Ok <==> is_success(response@, transferred),
        r matches Ok(value) ==> value == response@[2],
        r matches Err(e) ==> e is InvalidResponse,
{
    if transferred != 64 || response[1] != 0 {
        return Err(Error::InvalidResponse);
    }
    Ok(response[2])
}

/// The number of four bytes that a response carries, least significant first.
pub fn response_u32(response: &[u8; 64], transferred: usize) -> (r: Result<u32, Error>)
    ensures
        r is Ok <==> is_success(response@, transferred),
        r matches Ok(value) ==> value == bytes::le_u32(response@, 2),
        r matches Err(e) ==> e is InvalidResponse,
{
    if transferred != 64 || response[1] != 0 {
        return Err(Error::InvalidResponse);
    }
    Ok(read_le_u32(response.as_slice(), 2))
}

// ---------------------------------------------------------------------------
// Samples
// ---------------------------------------------------------------------------

/// The wire form of samples, flipped as told, one after the other.
pub open spec fn samples_wire(samples: Seq<Sample>, flip_x: bool, flip_y: bool) -> Seq<u8>
    decreases samples.len(),
{
    if samples.len() == 0 {
        seq![]
    } else {
        samples_wire(samples.drop_last(), flip_x, flip_y) + samples.last().flipped(
            flip_x,
            flip_y,
        ).wire()
    }
}

/// The bytes of transfers, one after the other.
pub open spec fn joined(transfers: Seq<Vec<u8>>) -> Seq<u8>
    decreases transfers.len(),
{
    if transfers.len() == 0 {
        seq![]
    } else {
        joined(transfers.drop_last()) + transfers.last()@
    }
}

/// Whether these are the transfers of some bytes: full ones of `size` bytes and a
/// last one that is not empty; a single one where there is no size.
pub open spec fn is_split(transfers: Seq<Vec<u8>>, data: Seq<u8>, size: int) -> bool {
    &&& joined(transfers) == data
    &&& size == 0 ==> transfers.len() == 1
    &&& size > 0 ==> {
        &&& forall|i: int| 0 <= i < transfers.len() - 1 ==> (#[trigger] transfers[i])@.len() == size
        &&& transfers.len() > 0 ==> 0 < transfers.last()@.len() <= size
    }
}

fn split(data: &[u8], size: usize) -> (r: Vec<Vec<u8>>)
    requires
        size > 0,
    ensures
        is_split(r@, data@, size as int),
{
    let mut out: Vec<Vec<u8>> = Vec::new();
    let mut at: usize = 0;
    assert(joined(out@) =~= data@.take(0));
    while at < data.len()
        invariant
            at <= data@.len(),
            size > 0,
            joined(out@) == data@.take(at as int),
            at < data@.len() ==> forall|i: int|
                0 <= i < out@.len() ==> (#[trigger] out@[i])@.len() == size,
            forall|i: int| 0 <= i < out@.len() - 1 ==> (#[trigger] out@[i])@.len() == size,
            out@.len() > 0 ==> 0 < out@.last()@.len() <= size,
        decreases data.len() - at,
    {
        let left: usize = data.len() - at;
        let n: usize = if size <= left {
            size
        } else {
            left
        };
        let mut chunk: Vec<u8> = Vec::new();
        chunk.extend_from_slice(slice_subrange(data, at, at + n));
        assert(chunk@ =~= data@.subrange(at as int, at + n));
        let ghost before = out@;
        out.push(chunk);
        at = at + n;
        proof {
            assert(out@.drop_last() =~= before);
            assert(joined(out@) =~= data@.take(at as int));
        }
    }
    assert(data@.take(at as int) =~= data@);
    out
}

// ---------------------------------------------------------------------------
// The stream
// ---------------------------------------------------------------------------

/// What is known of an open LaserCube/LaserDock DAC.
#[derive(Clone, Copy, Debug, PartialEq, Eq, Structural)]
pub struct Stream {
    /// Device information and status.
    pub info: DeviceInfo,
    /// The major firmware version, while the minor one is being asked for.
    pub told_major: u32,
    /// Device initialization status.
    pub status: DeviceStatus,
    /// Whether X coordinates should be flipped.
    pub flip_x: bool,
    /// Whether Y coordinates should be flipped.
    pub flip_y: bool,
}

/// The device information once the answer to the query at `step` is in. The firmware
/// version counts as known once both its parts are, of which the first was `major`.
pub open spec fn info_with(info: DeviceInfo, major: u32, step: usize, value: u32) -> DeviceInfo {
    if step == 0 {
        info
    } else if step == 1 {
        DeviceInfo { firmware_version: FirmwareVersion { major, minor: value }, ..info }
    } else if step == 2 {
        DeviceInfo { max_dac_rate: value, ..info }
    } else if step == 3 {
        DeviceInfo { min_dac_value: value, ..info }
    } else if step == 4 {
        DeviceInfo { max_dac_value: value, ..info }
    } else if step == 5 {
        DeviceInfo { sample_element_count: value, ..info }
    } else if step == 6 {
        DeviceInfo { bulk_packet_sample_count: value, ..info }
    } else if step == 7 {
        DeviceInfo { current_rate: value, ..info }
    } else if step == 8 {
        DeviceInfo { ringbuffer_capacity: value, ..info }
    } else if step == 9 {
        DeviceInfo { ringbuffer_free_space: value, ..info }
    } else {
        DeviceInfo { output_enabled: value == 1, ..info }
    }
}

impl Stream {
    /// A device whose interfaces have been claimed; it has yet to tell its
    /// information.
    pub fn open() -> (r: Stream)
        ensures
            r.status is Unknown,
            r.flip_x,
            !r.flip_y,
            r.info == DeviceInfo::unknown(),
            r.told_major == 0,
    {
        Stream {
            info: DeviceInfo::default(),
            told_major: 0,
            status: DeviceStatus::Unknown,
            flip_x: DEFAULT_FLIP_X,
            flip_y: DEFAULT_FLIP_Y,
        }
    }

    /// The command that asks for the value at `step`. The last one, whether the
    /// output is on, is answered with a byte, the others with four.
    pub fn info_command(step: usize) -> (r: u8)
        requires
            step < 11,
        ensures
            r == seq![
                0x8Bu8,
                0x8Cu8,
                0x84u8,
                0x87u8,
                0x88u8,
                0x85u8,
                0x8Eu8,
                0x83u8,
                0x89u8,
                0x8Au8,
                0x81u8,
            ][step as int],
    {
        match step {
            0 => CMD_GET_VERSION_MAJOR,
            1 => CMD_GET_VERSION_MINOR,
            2 => CMD_GET_MAX_DAC_RATE,
            3 => CMD_GET_MIN_DAC_VALUE,
            4 => CMD_GET_MAX_DAC_VALUE,
            5 => CMD_GET_SAMPLE_ELEMENT_COUNT,
            6 => CMD_GET_BULK_PACKET_SAMPLE_COUNT,
            7 => CMD_GET_DAC_RATE,
            8 => CMD_GET_RINGBUFFER_SAMPLE_COUNT,
            9 => CMD_GET_RINGBUFFER_EMPTY_SAMPLE_COUNT,
            _ => CMD_GET_OUTPUT,
        }
    }

    /// Take the answer to the query at `step`. With the last one the device is
    /// known. A query that fails leaves what was known before.
    pub fn refresh_device_info(&mut self, step: usize, value: u32)
        requires
            step < 11,
        ensures
            *final(self) == (Stream {
                info: info_with(old(self).info, old(self).told_major, step, value),
                told_major: if step == 0 {
                    value
                } else {
                    old(self).told_major
                },
                ..*old(self)
            }),
    {
        match step {
            0 => self.told_major = value,
            1 => {
                self.info.firmware_version = FirmwareVersion {
                    major: self.told_major,
                    minor: value,
                };
            },
            2 => self.info.max_dac_rate = value,
            3 => self.info.min_dac_value = value,
            4 => self.info.max_dac_value = value,
            5 => self.info.sample_element_count = value,
            6 => self.info.bulk_packet_sample_count = value,
            7 => self.info.current_rate = value,
            8 => self.info.ringbuffer_capacity = value,
            9 => self.info.ringbuffer_free_space = value,
            _ => self.info.output_enabled = value == 1,
        }
    }

    /// The device has told its information.
    pub fn initialized(&mut self)
        ensures
            *final(self) == (Stream { status: DeviceStatus::Initialized, ..*old(self) }),
    {
        self.status = DeviceStatus::Initialized;
    }

    /// Get the device information.
    pub fn info(&self) -> (r: &DeviceInfo)
        ensures
            *r == self.info,
    {
        &self.info
    }

    /// Get the device status.
    pub fn status(&self) -> (r: DeviceStatus)
        ensures
            r == self.status,
    {
        self.status
    }

    /// The packet that enables laser output.
    pub fn enable_output(&self) -> (r: [u8; 2])
        ensures
            r@ == seq![0x80u8, 1u8],
    {
        set_u8_packet(CMD_SET_OUTPUT, 0x01)
    }

    /// The packet that disables laser output.
    pub fn disable_output(&self) -> (r: [u8; 2])
        ensures
            r@ == seq![0x80u8, 0u8],
    {
        set_u8_packet(CMD_SET_OUTPUT, 0x00)
    }

    /// The device has switched its output.
    pub fn output_switched(&mut self, enabled: bool)
        ensures
            *final(self) == (Stream {
                info: DeviceInfo { output_enabled: enabled, ..old(self).info },
                ..*old(self)
            }),
    {
        self.info.output_enabled = enabled;
    }

    /// Check if output is enabled.
    pub fn output_enabled(&self) -> (r: bool)
        ensures
            r == self.info.output_enabled,
    {
        self.info.output_enabled
    }

    /// The packet that sets the DAC sample rate in Hz.
    pub fn set_rate(&self, rate: u32) -> (r: [u8; 5])
        ensures
            r@ == seq![0x82u8] + bytes::le_u32_bytes(rate),
    {
        set_u32_packet(CMD_SET_DAC_RATE, rate)
    }

    /// The device has taken a rate.
    pub fn rate_taken(&mut self, rate: u32)
        ensures
            *final(self) == (Stream {
                info: DeviceInfo { current_rate: rate, ..old(self).info },
                ..*old(self)
            }),
    {
        self.info.current_rate = rate;
    }

    /// Get the current DAC sample rate in Hz.
    pub fn rate(&self) -> (r: u32)
        ensures
            r == self.info.current_rate,
    {
        self.info.current_rate
    }

    /// The packet that clears the ring buffer.
    pub fn clear_ringbuffer(&self) -> (r: [u8; 2])
        ensures
            r@ == seq![0x8Du8, 0u8],
    {
        set_u8_packet(CMD_CLEAR_RINGBUFFER, 0x00)
    }

    /// The device has cleared its ring buffer.
    pub fn ringbuffer_cleared(&mut self)
        ensures
            *final(self) == (Stream {
                info: DeviceInfo {
                    ringbuffer_free_space: old(self).info.ringbuffer_capacity,
                    ..old(self).info
                },
                ..*old(self)
            }),
    {
        self.info.ringbuffer_free_space = self.info.ringbuffer_capacity;
    }

    /// The device has told the free space in its ring buffer.
    pub fn ringbuffer_free_space(&mut self, space: u32) -> (r: u32)
        ensures
            r == space,
            *final(self) == (Stream {
                info: DeviceInfo { ringbuffer_free_space: space, ..old(self).info },
                ..*old(self)
            }),
    {
        self.info.ringbuffer_free_space = space;
        space
    }

    /// The transfers that send samples to the DAC, in order.
    ///
    /// Samples are sent in chunks of `bulk_packet_sample_count` to match
    /// the device's expected USB bulk transfer size.
    pub fn send_samples(&self, samples: &[Sample]) -> (r: Result<Vec<Vec<u8>>, Error>)
        requires
            self.info.bulk_packet_sample_count * 8 <= usize::MAX,
        ensures
            r is Ok <==> self.status is Initialized,
            r matches Ok(transfers) ==> is_split(
                transfers@,
                samples_wire(samples@, self.flip_x, self.flip_y),
                self.info.bulk_packet_sample_count * 8,
            ),
            r matches Err(e) ==> e is DeviceNotOpened,
    {
        if self.status != DeviceStatus::Initialized {
            return Err(Error::DeviceNotOpened);
        }
        let mut data: Vec<u8> = Vec::new();
        let mut i: usize = 0;
        assert(data@ =~= samples_wire(samples@.take(0), self.flip_x, self.flip_y));
        while i < samples.len()
            invariant
                i <= samples@.len(),
                data@ == samples_wire(samples@.take(i as int), self.flip_x, self.flip_y),
            decreases samples.len() - i,
        {
            let mut s: Sample = samples[i];
            if self.flip_x {
                s.flip_x();
            }
            if self.flip_y {
                s.flip_y();
            }
            s.write_to(&mut data);
            i += 1;
            assert(samples@.take(i as int).drop_last() =~= samples@.take(i - 1));
        }
        assert(samples@.take(i as int) =~= samples@);
        let chunk_bytes: usize = self.info.bulk_packet_sample_count as usize * 8;
        if chunk_bytes == 0 {
            let ghost all = data@;
            let mut whole: Vec<Vec<u8>> = Vec::new();
            whole.push(data);
            assert(whole@.drop_last() =~= Seq::<Vec<u8>>::empty());
            assert(joined(whole@.drop_last()) =~= seq![]);
            assert(joined(whole@) =~= all);
            return Ok(whole);
        }
        Ok(split(data.as_slice(), chunk_bytes))
    }

    /// The rate that the device plays at when `rate` is asked for.
    pub open spec fn effective(self, rate: u32) -> u32 {
        if self.info.max_dac_rate > 0 && rate > self.info.max_dac_rate {
            self.info.max_dac_rate
        } else {
            rate
        }
    }

    /// The rate this stream would program the device to for a requested `rate`,
    /// i.e. `rate` clamped to the device's maximum DAC rate. Callers drive their
    /// buffer model at this rate, which the hardware actually runs at.
    pub fn effective_rate(&self, rate: u32) -> (r: u32)
        ensures
            r == self.effective(rate),
    {
        if self.info.max_dac_rate > 0 {
            if rate <= self.info.max_dac_rate {
                rate
            } else {
                self.info.max_dac_rate
            }
        } else {
            rate
        }
    }

    /// Start a frame of samples at the specified rate: the rate that it plays at, and
    /// the packet that sets it where the device is at another one. The samples
    /// follow.
    pub fn write_frame(&self, rate: u32) -> (r: (u32, Option<[u8; 5]>))
        ensures
            r.0 == self.effective(rate),
            r.1 is Some <==> self.info.current_rate != self.effective(rate),
            r.1 matches Some(packet) ==> packet@ == seq![0x82u8] + bytes::le_u32_bytes(
                self.effective(rate),
            ),
    {
        let effective: u32 = self.effective_rate(rate);
        if self.info.current_rate != effective {
            (effective, Some(self.set_rate(effective)))
        } else {
            (effective, None)
        }
    }
}

proof fn lemma_samples_wire_len(samples: Seq<Sample>, flip_x: bool, flip_y: bool)
    ensures
        samples_wire(samples, flip_x, flip_y).len() == 8 * samples.len(),
    decreases samples.len(),
{
    if samples.len() > 0 {
        lemma_samples_wire_len(samples.drop_last(), flip_x, flip_y);
    }
}

/// Every sample is sent once and in order, in eight bytes, whatever the size of the
/// transfers.
pub proof fn samples_are_sent_in_order(
    transfers: Seq<Vec<u8>>,
    samples: Seq<Sample>,
    flip_x: bool,
    flip_y: bool,
    size: int,
    i: int,
)
    requires
        is_split(transfers, samples_wire(samples, flip_x, flip_y), size),
        0 <= i < samples.len(),
    ensures
        joined(transfers).len() == 8 * samples.len(),
        joined(transfers).subrange(8 * i, 8 * i + 8) == samples[i].flipped(flip_x, flip_y).wire(),
{
    lemma_samples_wire_len(samples, flip_x, flip_y);
    lemma_sample_at(samples, flip_x, flip_y, i);
}

proof fn lemma_sample_at(samples: Seq<Sample>, flip_x: bool, flip_y: bool, i: int)
    requires
        0 <= i < samples.len(),
    ensures
        samples_wire(samples, flip_x, flip_y).len() == 8 * samples.len(),
        samples_wire(samples, flip_x, flip_y).subrange(8 * i, 8 * i + 8) == samples[i].flipped(
            flip_x,
            flip_y,
        ).wire(),
    decreases samples.len(),
{
    let w = samples_wire(samples, flip_x, flip_y);
    let head = samples_wire(samples.drop_last(), flip_x, flip_y);
    lemma_samples_wire_len(samples, flip_x, flip_y);
    lemma_samples_wire_len(samples.drop_last(), flip_x, flip_y);
    if i == samples.len() - 1 {
        assert(w.subrange(8 * i, 8 * i + 8) =~= samples[i].flipped(flip_x, flip_y).wire());
    } else {
        lemma_sample_at(samples.drop_last(), flip_x, flip_y, i);
        assert(w.subrange(8 * i, 8 * i + 8) =~= head.subrange(8 * i, 8 * i + 8));
    }
}

/// Each answer sets its own part of the device's information and no other. The firmware
/// version is known with the second of its two answers, and made of both.
pub proof fn answers_set_their_own_part()
    ensures
        forall|s: &mut Stream, step: usize, value: u32|
            #[trigger] call_ensures(Stream::refresh_device_info, (s, step, value), ()) && step < 11 ==> {
                let a = s.info;
                let b = final(s).info;
                &&& step == 0 ==> b == a && final(s).told_major == value
                &&& step != 0 ==> final(s).told_major == s.told_major
                &&& step == 1 ==> b.firmware_version.major == s.told_major
                    && b.firmware_version.minor == value
                &&& step != 1 ==> b.firmware_version == a.firmware_version
                &&& b.max_dac_rate == if step == 2 { value } else { a.max_dac_rate }
                &&& b.min_dac_value == if step == 3 { value } else { a.min_dac_value }
                &&& b.max_dac_value == if step == 4 { value } else { a.max_dac_value }
                &&& b.sample_element_count == if step == 5 { value } else { a.sample_element_count }
                &&& b.bulk_packet_sample_count == if step == 6 {
                    value
                } else {
                    a.bulk_packet_sample_count
                }
                &&& b.current_rate == if step == 7 { value } else { a.current_rate }
                &&& b.ringbuffer_capacity == if step == 8 { value } else { a.ringbuffer_capacity }
                &&& b.ringbuffer_free_space == if step == 9 { value } else { a.ringbuffer_free_space }
                &&& b.output_enabled == if step == 10 { value == 1 } else { a.output_enabled }
                &&& final(s).status == s.status
                &&& final(s).flip_x == s.flip_x
                &&& final(s).flip_y == s.flip_y
            },
{
}

/// A frame plays at the rate that was asked for, or at the device's highest where that is
/// lower. The device is told only of a rate that it is not at.
pub proof fn frame_plays_at_a_rate_of_the_device()
    ensures
        forall|s: &Stream, rate: u32, r: (u32, Option<[u8; 5]>)|
            #[trigger] call_ensures(Stream::write_frame, (s, rate), r) ==> {
                &&& r.0 <= rate
                &&& s.info.max_dac_rate > 0 ==> r.0 <= s.info.max_dac_rate
                &&& r.0 == rate || (r.0 == s.info.max_dac_rate && s.info.max_dac_rate > 0)
                &&& r.1 is Some <==> r.0 != s.info.current_rate
                &&& r.1 matches Some(packet) ==> packet@[0] == 0x82 && bytes::le_u32(packet@, 1)
                    == r.0
            },
{
    assert forall|s: &Stream, rate: u32, r: (u32, Option<[u8; 5]>)|
        #[trigger] call_ensures(Stream::write_frame, (s, rate), r) && r.1 is Some implies r.1->0@[0]
        == 0x82 && bytes::le_u32(r.1->0@, 1) == r.0 by {
        let p = r.1->0@;
        assert(p.subrange(1, 5) =~= bytes::le_u32_bytes(r.0));
        bytes::le_u32_round_trip(p, 1, r.0);
    }
}

/// An answer counts only if it is a whole packet that reports success; the value then
/// stands at its third byte.
pub proof fn answers_carry_their_value()
    ensures
        forall|response: &[u8; 64], n: usize, r: Result<u32, Error>|
            #[trigger] call_ensures(response_u32, (response, n), r) ==> {
                &&& r is Ok <==> n == 64 && response@[1] == 0
                &&& r matches Ok(v) ==> v == response@[2] + 256 * response@[3] + 0x1_0000
                    * response@[4] + 0x100_0000 * response@[5]
            },
        forall|response: &[u8; 64], n: usize, r: Result<u8, Error>|
            #[trigger] call_ensures(response_u8, (response, n), r) ==> {
                &&& r is Ok <==> n == 64 && response@[1] == 0
                &&& r matches Ok(v) ==> v == response@[2]
            },
        forall|response: &[u8; 64], n: usize, r: Result<(), Error>|
            #[trigger] call_ensures(check_response, (response, n), r) ==> (r is Ok <==> n == 64
                && response@[1] == 0),
        forall|transferred: usize, len: usize, r: Result<(), Error>|
            #[trigger] call_ensures(check_transfer, (transferred, len), r) ==> (r is Ok
                <==> transferred == len),
{
}

/// Samples go only to a device that is known, in transfers of the size that it takes, none
/// of which parts a sample.
pub proof fn transfers_hold_whole_samples()
    ensures
        forall|s: &Stream, samples: &[Sample], r: Result<Vec<Vec<u8>>, Error>|
            #[trigger] call_ensures(Stream::send_samples, (s, samples), r) ==> {
                let size = s.info.bulk_packet_sample_count * 8;
                &&& r is Ok <==> s.status is Initialized
                &&& r matches Ok(transfers) ==> {
                    &&& joined(transfers@).len() == 8 * samples@.len()
                    &&& joined(transfers@) == samples_wire(samples@, s.flip_x, s.flip_y)
                    &&& size > 0 ==> forall|i: int|
                        0 <= i < transfers@.len() - 1 ==> (#[trigger] transfers@[i])@.len() == size
                    &&& size > 0 && transfers@.len() > 0 ==> 0 < transfers@.last()@.len() <= size
                    &&& size == 0 ==> transfers@.len() == 1
                }
            },
{
    assert forall|s: &Stream, samples: &[Sample], r: Result<Vec<Vec<u8>>, Error>|
        #[trigger] call_ensures(Stream::send_samples, (s, samples), r) && r is Ok implies joined(
        r->Ok_0@,
    ).len() == 8 * samples@.len() by {
        lemma_samples_wire_len(samples@, s.flip_x, s.flip_y);
    }
}

/// A buffer that is cleared is free, all of it; what the device tells of it is kept.
pub proof fn cleared_buffer_is_free()
    ensures
        forall|s: &mut Stream|
            #[trigger] call_ensures(Stream::ringbuffer_cleared, (s,), ()) ==> final(s).info.ringbuffer_free_space == s.info.ringbuffer_capacity,
        forall|s: &mut Stream, space: u32, r: u32|
            #[trigger] call_ensures(Stream::ringbuffer_free_space, (s, space), r) ==> r == space
                && final(s).info.ringbuffer_free_space == space,
        forall|s: &mut Stream, on: bool|
            #[trigger] call_ensures(Stream::output_switched, (s, on), ()) ==> final(s).info.output_enabled == on,
        forall|s: &mut Stream, rate: u32|
            #[trigger] call_ensures(Stream::rate_taken, (s, rate), ()) ==> final(s).info.current_rate == rate,
{
}

/// Commands that set something carry it behind their byte; output is on with one and off
/// with zero.
pub proof fn settings_follow_their_command()
    ensures
        forall|command: u8, value: u8, r: [u8; 2]| #[trigger]
            call_ensures(set_u8_packet, (command, value), r) ==> r@[0] == command && r@[1] == value,
        forall|command: u8, value: u32, r: [u8; 5]| #[trigger]
            call_ensures(set_u32_packet, (command, value), r) ==> r@[0] == command && bytes::le_u32(
                r@,
                1,
            ) == value,
        forall|s: &Stream, r: [u8; 2]| #[trigger]
            call_ensures(Stream::enable_output, (s,), r) ==> r@[0] == 0x80 && r@[1] == 1,
        forall|s: &Stream, r: [u8; 2]| #[trigger]
            call_ensures(Stream::disable_output, (s,), r) ==> r@[0] == 0x80 && r@[1] == 0,
        forall|s: &Stream, rate: u32, r: [u8; 5]| #[trigger]
            call_ensures(Stream::set_rate, (s, rate), r) ==> r@[0] == 0x82 && bytes::le_u32(r@, 1)
                == rate,
        forall|s: &Stream, r: [u8; 2]| #[trigger]
            call_ensures(Stream::clear_ringbuffer, (s,), r) ==> r@[0] == 0x8D && r@[1] == 0,
        forall|s: &Stream, rate: u32, r: u32| #[trigger]
            call_ensures(Stream::effective_rate, (s, rate), r) ==> {
                &&& r <= rate
                &&& s.info.max_dac_rate > 0 ==> r <= s.info.max_dac_rate
                &&& r == rate || r == s.info.max_dac_rate
                &&& s.info.max_dac_rate == 0 ==> r == rate
            },
        forall|s: Stream| #[trigger]
            call_ensures(Stream::open, (), s) ==> s.status is Unknown && s.flip_x && !s.flip_y
                && s.info.max_dac_rate == 0 && s.info.ringbuffer_capacity == 0
                && !s.info.output_enabled,
        forall|s: &mut Stream| #[trigger]
            call_ensures(Stream::initialized, (s,), ()) ==> final(s).status is Initialized && final(s).info == s.info && final(s).flip_x == s.flip_x && final(s).flip_y == s.flip_y,
{
    assert forall|command: u8, value: u32, r: [u8; 5]| #[trigger]
        call_ensures(set_u32_packet, (command, value), r) implies bytes::le_u32(r@, 1) == value by {
        assert(r@.subrange(1, 5) =~= bytes::le_u32_bytes(value));
        bytes::le_u32_round_trip(r@, 1, value);
    }
    assert forall|s: &Stream, rate: u32, r: [u8; 5]| #[trigger]
        call_ensures(Stream::set_rate, (s, rate), r) implies bytes::le_u32(r@, 1) == rate by {
        assert(r@.subrange(1, 5) =~= bytes::le_u32_bytes(rate));
        bytes::le_u32_round_trip(r@, 1, rate);
    }
}

/// Samples stand one after the other, eight bytes each, every one mirrored as the device
/// is; the transfers hold all of them in this order.
pub proof fn samples_stand_in_turn(samples: Seq<Sample>, flip_x: bool, flip_y: bool, k: int)
    ensures
        samples_wire(samples, flip_x, flip_y).len() == 8 * samples.len(),
        0 <= k < samples.len() ==> samples_wire(samples, flip_x, flip_y).subrange(8 * k, 8 * k + 8)
            == samples[k].flipped(flip_x, flip_y).wire(),
    decreases samples.len(),
{
    if samples.len() > 0 {
        let front = samples.drop_last();
        samples_stand_in_turn(front, flip_x, flip_y, k);
        let all = samples_wire(samples, flip_x, flip_y);
        let last = samples.last().flipped(flip_x, flip_y).wire();
        assert(last.len() == 8);
        if 0 <= k < front.len() {
            assert(all.subrange(8 * k, 8 * k + 8) =~= samples_wire(front, flip_x, flip_y).subrange(
                8 * k,
                8 * k + 8,
            ));
        } else if k == front.len() {
            assert(all.subrange(8 * k, 8 * k + 8) =~= last);
        }
    }
}

/// Transfers that are joined keep their order.
pub proof fn transfers_are_joined_in_order(transfers: Seq<Vec<u8>>, transfer: Vec<u8>)
    ensures
        joined(transfers.push(transfer)) == joined(transfers) + transfer@,
        joined(Seq::<Vec<u8>>::empty()).len() == 0,
{
    assert(transfers.push(transfer).drop_last() =~= transfers);
}

/// What is asked of a device, step by step: both parts of its version, the limits of its
/// rate and its values, the sizes of its samples and transfers, its rate, what is free of
/// its buffer, and whether it puts out.
pub proof fn questions_have_their_order()
    ensures
        forall|step: usize, r: u8| #[trigger]
            call_ensures(Stream::info_command, (step,), r) && step < 11 ==> {
                &&& r == 0x8B <==> step == 0
                &&& r == 0x8C <==> step == 1
                &&& r == 0x84 <==> step == 2
                &&& r == 0x87 <==> step == 3
                &&& r == 0x88 <==> step == 4
                &&& r == 0x85 <==> step == 5
                &&& r == 0x8E <==> step == 6
                &&& r == 0x83 <==> step == 7
                &&& r == 0x89 <==> step == 8
                &&& r == 0x8A <==> step == 9
                &&& r == 0x81 <==> step == 10
            },
{
}

} // verus!
