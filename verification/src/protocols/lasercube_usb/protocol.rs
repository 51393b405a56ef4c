//! LaserCube/LaserDock USB wire constants and samples.

use vstd::prelude::*;

use crate::bytes::{self, push_le_u16};

verus! {

pub const LASERDOCK_VID: u16 = 0x1FC9;
pub const LASERDOCK_PID: u16 = 0x04D8;

pub const CMD_SET_OUTPUT: u8 = 0x80;
pub const CMD_GET_OUTPUT: u8 = 0x81;
pub const CMD_SET_DAC_RATE: u8 = 0x82;
pub const CMD_GET_DAC_RATE: u8 = 0x83;
pub const CMD_GET_MAX_DAC_RATE: u8 = 0x84;
pub const CMD_GET_SAMPLE_ELEMENT_COUNT: u8 = 0x85;
pub const CMD_GET_MIN_DAC_VALUE: u8 = 0x87;
pub const CMD_GET_MAX_DAC_VALUE: u8 = 0x88;
pub const CMD_GET_RINGBUFFER_SAMPLE_COUNT: u8 = 0x89;
pub const CMD_GET_RINGBUFFER_EMPTY_SAMPLE_COUNT: u8 = 0x8A;
pub const CMD_GET_VERSION_MAJOR: u8 = 0x8B;
pub const CMD_GET_VERSION_MINOR: u8 = 0x8C;
pub const CMD_CLEAR_RINGBUFFER: u8 = 0x8D;
pub const CMD_GET_BULK_PACKET_SAMPLE_COUNT: u8 = 0x8E;
pub const CMD_RUNNER_MODE: u8 = 0xC0;
pub const RUNNER_MODE_SUB_ENABLE: u8 = 0x01;
pub const RUNNER_MODE_SUB_RUN: u8 = 0x02;

pub const CONTROL_INTERFACE: u8 = 0;
pub const DATA_INTERFACE: u8 = 1;
pub const DATA_ALT_SETTING: u8 = 1;
pub const ENDPOINT_CONTROL_OUT: u8 = 0x01;
pub const ENDPOINT_CONTROL_IN: u8 = 0x81;
pub const ENDPOINT_DATA_OUT: u8 = 0x03;

pub const CONTROL_PACKET_SIZE: usize = 64;

/// How long a control transfer may take, in nanoseconds.
pub const CONTROL_TIMEOUT: u64 = 100_000_000;

pub const SAMPLE_SIZE_BYTES: usize = 8;
pub const MAX_COORDINATE_VALUE: u16 = 4095;

/// A point as the device takes it: coordinates of 12 bits, colors of 8.
#[derive(Clone, Copy, Debug, PartialEq, Eq, Structural)]
pub struct Sample {
    pub x: u16,
    pub y: u16,
    pub r: u8,
    pub g: u8,
    pub b: u8,
}

impl Sample {
    /// The sample on the wire: the colors, each in a byte, a zero, and the
    /// coordinates.
    pub open spec fn wire(self) -> Seq<u8> {
        seq![self.r, self.g, self.b, 0u8] + bytes::le_u16_bytes(self.x) + bytes::le_u16_bytes(
            self.y,
        )
    }

    /// A coordinate seen from the other side.
    pub open spec fn mirrored(c: u16) -> u16 {
        if c <= 4095 {
            (4095 - c) as u16
        } else {
            0
        }
    }

    /// The sample as the device has to see it.
    pub open spec fn flipped(self, flip_x: bool, flip_y: bool) -> Sample {
        Sample {
            x: if flip_x {
                Sample::mirrored(self.x)
            } else {
                self.x
            },
            y: if flip_y {
                Sample::mirrored(self.y)
            } else {
                self.y
            },
            ..self
        }
    }

    pub fn new(x: u16, y: u16, r: u8, g: u8, b: u8) -> (s: Sample)
        ensures
            s == (Sample { x, y, r, g, b }),
    {
        Sample { x, y, r, g, b }
    }

    pub fn flip_x(&mut self)
        ensures
            *final(self) == old(self).flipped(true, false),
    {
        self.x = MAX_COORDINATE_VALUE.saturating_sub(self.x);
    }

    pub fn flip_y(&mut self)
        ensures
            *final(self) == old(self).flipped(false, true),
    {
        self.y = MAX_COORDINATE_VALUE.saturating_sub(self.y);
    }

    /// Append the sample in its wire form.
    pub fn write_to(&self, out: &mut Vec<u8>)
        ensures
            final(out)@ == old(out)@ + self.wire(),
    {
        out.push(self.r);
        out.push(self.g);
        out.push(self.b);
        out.push(0);
        push_le_u16(out, self.x);
        push_le_u16(out, self.y);
        assert(out@ =~= old(out)@ + self.wire());
    }
}

/// Flipping twice changes nothing within the coordinate range.
pub proof fn flip_undoes_flip(s: Sample, flip_x: bool, flip_y: bool)
    requires
        s.x <= 4095,
        s.y <= 4095,
    ensures
        s.flipped(flip_x, flip_y).flipped(flip_x, flip_y) == s,
{
}

/// A mirrored coordinate is as far from the one end as it was from the other, and flipping
/// one axis leaves the other and the colors.
pub proof fn flip_mirrors_one_axis(s: Sample)
    ensures
        s.x <= 4095 ==> s.flipped(true, false).x + s.x == 4095,
        s.y <= 4095 ==> s.flipped(false, true).y + s.y == 4095,
        s.x > 4095 ==> s.flipped(true, false).x == 0,
        s.y > 4095 ==> s.flipped(false, true).y == 0,
        s.flipped(true, false).y == s.y,
        s.flipped(false, true).x == s.x,
        s.flipped(false, false) == s,
        forall|fx: bool, fy: bool|
            (#[trigger] s.flipped(fx, fy)).r == s.r && s.flipped(fx, fy).g == s.g && s.flipped(
                fx,
                fy,
            ).b == s.b,
        forall|fx: bool, fy: bool|
            #[trigger] s.flipped(fx, fy) == s.flipped(fx, false).flipped(false, fy),
{
}

/// A sample stands in eight bytes: red, green, blue, a zero, and the coordinates, least
/// significant byte first.
pub proof fn sample_stands_in_eight_bytes(s: Sample)
    ensures
        s.wire().len() == 8,
        s.wire()[0] == s.r,
        s.wire()[1] == s.g,
        s.wire()[2] == s.b,
        s.wire()[3] == 0,
        bytes::le_u16(s.wire(), 4) == s.x,
        bytes::le_u16(s.wire(), 6) == s.y,
{
    let w = s.wire();
    assert(w.subrange(4, 6) =~= bytes::le_u16_bytes(s.x));
    assert(w.subrange(6, 8) =~= bytes::le_u16_bytes(s.y));
    bytes::le_u16_round_trip(w, 4, s.x);
    bytes::le_u16_round_trip(w, 6, s.y);
}

/// A flip changes the sample in place, and a sample is written behind what is there.
pub proof fn sample_is_flipped_and_appended()
    ensures
        forall|s: &mut Sample| #[trigger]
            call_ensures(Sample::flip_x, (s,), ()) ==> final(s).y == s.y && final(s).r == s.r
                && final(s).g == s.g && final(s).b == s.b && (s.x <= 4095 ==> final(s).x + s.x
                == 4095),
        forall|s: &mut Sample| #[trigger]
            call_ensures(Sample::flip_y, (s,), ()) ==> final(s).x == s.x && final(s).r == s.r
                && final(s).g == s.g && final(s).b == s.b && (s.y <= 4095 ==> final(s).y + s.y
                == 4095),
        forall|s: &Sample, out: &mut Vec<u8>| #[trigger]
            call_ensures(Sample::write_to, (s, out), ()) ==> {
                &&& final(out)@.len() == out@.len() + 8
                &&& out@.is_prefix_of(final(out)@)
                &&& final(out)@.skip(out@.len() as int) == s.wire()
            },
        forall|x: u16, y: u16, r: u8, g: u8, b: u8, s: Sample| #[trigger]
            call_ensures(Sample::new, (x, y, r, g, b), s) ==> s.x == x && s.y == y && s.r == r
                && s.g == g && s.b == b,
{
    assert forall|s: &Sample, out: &mut Vec<u8>| #[trigger]
        call_ensures(Sample::write_to, (s, out), ()) implies (final(out)@.skip(out@.len() as int)
        == s.wire()) by {
        assert(final(out)@.skip(out@.len() as int) =~= s.wire());
    }
}

} // verus!
