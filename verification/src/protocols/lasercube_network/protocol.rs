//! Shared LaserCube network wire constants and points.

use vstd::prelude::*;

use crate::bytes::{self, push_le_u16};

verus! {

pub const ALIVE_PORT: u16 = 45456;
pub const CMD_PORT: u16 = 45457;
pub const DATA_PORT: u16 = 45458;

pub const CMD_ALIVE: u8 = 0x27;
pub const CMD_GET_FULL_INFO: u8 = 0x77;
pub const CMD_ENABLE_BUFFER_SIZE_RESPONSE: u8 = 0x78;
pub const CMD_SET_OUTPUT: u8 = 0x80;
pub const CMD_SET_RATE: u8 = 0x82;
pub const CMD_GET_RINGBUFFER_EMPTY: u8 = 0x8A;
pub const CMD_CLEAR_RINGBUFFER: u8 = 0x8D;
pub const CMD_SET_DAC_BUFFER_THRESHOLD: u8 = 0xA0;
pub const CMD_SAMPLE_DATA: u8 = 0xA9;

pub const DEFAULT_POINT_RATE: u32 = 30_000;
pub const DEFAULT_BUFFER_CAPACITY: u16 = 6000;
pub const DATA_HEADER_SIZE: usize = 4;
pub const POINT_SIZE_BYTES: usize = 10;
pub const MAX_UDP_SAMPLES_PER_PACKET: usize = 140;

/// A point as the device takes it: coordinates and colors of 12 bits.
#[derive(Copy, Clone, Debug, PartialEq, Eq, Structural, Hash)]
pub struct Point {
    pub x: u16,
    pub y: u16,
    pub r: u16,
    pub g: u16,
    pub b: u16,
}

impl Default for Point {
    fn default() -> (r: Point)
        ensures
            r == (Point { x: 0, y: 0, r: 0, g: 0, b: 0 }),
    {
        Point { x: 0, y: 0, r: 0, g: 0, b: 0 }
    }
}

impl Point {
    /// The middle of the coordinate range.
    pub const CENTER: u16 = 2047;

    /// The point on the wire: five little-endian values.
    pub open spec fn wire(self) -> Seq<u8> {
        bytes::le_u16_bytes(self.x) + bytes::le_u16_bytes(self.y) + bytes::le_u16_bytes(self.r)
            + bytes::le_u16_bytes(self.g) + bytes::le_u16_bytes(self.b)
    }

    /// The point whose wire form stands at `at`.
    pub open spec fn read_at(s: Seq<u8>, at: int) -> Point {
        Point {
            x: bytes::le_u16(s, at),
            y: bytes::le_u16(s, at + 2),
            r: bytes::le_u16(s, at + 4),
            g: bytes::le_u16(s, at + 6),
            b: bytes::le_u16(s, at + 8),
        }
    }

    /// A dark point at the centre.
    pub fn blank() -> (r: Point)
        ensures
            r == (Point { x: 2047, y: 2047, r: 0, g: 0, b: 0 }),
    {
        Point { x: Point::CENTER, y: Point::CENTER, r: 0, g: 0, b: 0 }
    }

    /// Append the point in its wire form.
    pub fn write_to(&self, writer: &mut Vec<u8>)
        ensures
            final(writer)@ == old(writer)@ + self.wire(),
    {
        push_le_u16(writer, self.x);
        push_le_u16(writer, self.y);
        push_le_u16(writer, self.r);
        push_le_u16(writer, self.g);
        push_le_u16(writer, self.b);
        assert(writer@ =~= old(writer)@ + self.wire());
    }
}

/// A point written at `at` is read back from there.
pub proof fn point_round_trip(s: Seq<u8>, at: int, p: Point)
    requires
        0 <= at,
        at + 10 <= s.len(),
        s.subrange(at, at + 10) == p.wire(),
    ensures
        Point::read_at(s, at) == p,
{
    let w = p.wire();
    let part = s.subrange(at, at + 10);
    assert(part[0] == s[at + 0]);
    assert(part[1] == s[at + 1]);
    assert(part[2] == s[at + 2]);
    assert(part[3] == s[at + 3]);
    assert(part[4] == s[at + 4]);
    assert(part[5] == s[at + 5]);
    assert(part[6] == s[at + 6]);
    assert(part[7] == s[at + 7]);
    assert(part[8] == s[at + 8]);
    assert(part[9] == s[at + 9]);
    assert(w[0] == bytes::le_u16_bytes(p.x)[0] && w[1] == bytes::le_u16_bytes(p.x)[1]);
    assert(w[2] == bytes::le_u16_bytes(p.y)[0] && w[3] == bytes::le_u16_bytes(p.y)[1]);
    assert(w[4] == bytes::le_u16_bytes(p.r)[0] && w[5] == bytes::le_u16_bytes(p.r)[1]);
    assert(w[6] == bytes::le_u16_bytes(p.g)[0] && w[7] == bytes::le_u16_bytes(p.g)[1]);
    assert(w[8] == bytes::le_u16_bytes(p.b)[0] && w[9] == bytes::le_u16_bytes(p.b)[1]);
    assert(s.subrange(at, at + 2) =~= bytes::le_u16_bytes(p.x));
    assert(s.subrange(at + 2, at + 4) =~= bytes::le_u16_bytes(p.y));
    assert(s.subrange(at + 4, at + 6) =~= bytes::le_u16_bytes(p.r));
    assert(s.subrange(at + 6, at + 8) =~= bytes::le_u16_bytes(p.g));
    assert(s.subrange(at + 8, at + 10) =~= bytes::le_u16_bytes(p.b));
    bytes::le_u16_round_trip(s, at, p.x);
    bytes::le_u16_round_trip(s, at + 2, p.y);
    bytes::le_u16_round_trip(s, at + 4, p.r);
    bytes::le_u16_round_trip(s, at + 6, p.g);
    bytes::le_u16_round_trip(s, at + 8, p.b);
}

/// A point stands in ten bytes: its place, then its colors, each the lower byte first.
pub proof fn point_stands_in_ten_bytes(p: Point)
    ensures
        p.wire().len() == 10,
        p.wire()[0] + 256 * p.wire()[1] == p.x,
        p.wire()[2] + 256 * p.wire()[3] == p.y,
        p.wire()[4] + 256 * p.wire()[5] == p.r,
        p.wire()[6] + 256 * p.wire()[7] == p.g,
        p.wire()[8] + 256 * p.wire()[9] == p.b,
{
}

/// A point is written behind what is there, and a blank one is dark and in the middle.
pub proof fn point_is_appended()
    ensures
        forall|p: &Point, out: &mut Vec<u8>| #[trigger]
            call_ensures(Point::write_to, (p, out), ()) ==> {
                &&& final(out)@.len() == out@.len() + 10
                &&& out@.is_prefix_of(final(out)@)
                &&& final(out)@.skip(out@.len() as int) == p.wire()
            },
        forall|p: Point| #[trigger]
            call_ensures(Point::blank, (), p) ==> p.r == 0 && p.g == 0 && p.b == 0 && p.x == p.y
                && 2 * p.x + 1 == 4095,
{
    assert forall|p: &Point, out: &mut Vec<u8>| #[trigger]
        call_ensures(Point::write_to, (p, out), ()) implies (final(out)@.skip(out@.len() as int)
        == p.wire()) by {
        assert(final(out)@.skip(out@.len() as int) =~= p.wire());
    }
}

} // verus!
