//! Fixed-width integers on the wire, most and least significant byte first.
//!
//! The encodings are stated as arithmetic on bytes; the conversions themselves
//! are done by the `byteorder` crate.

use byteorder::{BigEndian, ByteOrder, LittleEndian, WriteBytesExt};
use vstd::prelude::*;

verus! {

/// The unsigned 16-bit integer stored at `i`, most significant byte first.
pub open spec fn be_u16(s: Seq<u8>, i: int) -> u16 {
    (s[i] * 256 + s[i + 1]) as u16
}

/// The unsigned 32-bit integer stored at `i`, most significant byte first.
pub open spec fn be_u32(s: Seq<u8>, i: int) -> u32 {
    (s[i] * 0x100_0000 + s[i + 1] * 0x1_0000 + s[i + 2] * 256 + s[i + 3]) as u32
}

/// The two's complement reading of an unsigned 16-bit integer.
pub open spec fn signed_16(n: u16) -> i16 {
    if n < 0x8000 {
        n as i16
    } else {
        (n - 0x1_0000) as i16
    }
}

/// The two's complement encoding of a signed 16-bit integer.
pub open spec fn unsigned_16(n: i16) -> u16 {
    if n >= 0 {
        n as u16
    } else {
        (n + 0x1_0000) as u16
    }
}

/// The signed 16-bit integer stored at `i`, most significant byte first.
pub open spec fn be_i16(s: Seq<u8>, i: int) -> i16 {
    signed_16(be_u16(s, i))
}

/// The unsigned 16-bit integer stored at `i`, least significant byte first.
pub open spec fn le_u16(s: Seq<u8>, i: int) -> u16 {
    (s[i] + s[i + 1] * 256) as u16
}

/// The unsigned 32-bit integer stored at `i`, least significant byte first.
pub open spec fn le_u32(s: Seq<u8>, i: int) -> u32 {
    (s[i] + s[i + 1] * 256 + s[i + 2] * 0x1_0000 + s[i + 3] * 0x100_0000) as u32
}

/// The two bytes of `n`, most significant first.
pub open spec fn be_u16_bytes(n: u16) -> Seq<u8> {
    seq![(n / 256) as u8, (n % 256) as u8]
}

/// The four bytes of `n`, most significant first.
pub open spec fn be_u32_bytes(n: u32) -> Seq<u8> {
    seq![
        (n / 0x100_0000) as u8,
        ((n / 0x1_0000) % 256) as u8,
        ((n / 256) % 256) as u8,
        (n % 256) as u8,
    ]
}

/// The two bytes of a signed integer, most significant first.
pub open spec fn be_i16_bytes(n: i16) -> Seq<u8> {
    be_u16_bytes(unsigned_16(n))
}

/// The two bytes of `n`, least significant first.
pub open spec fn le_u16_bytes(n: u16) -> Seq<u8> {
    seq![(n % 256) as u8, (n / 256) as u8]
}

/// The four bytes of `n`, least significant first.
pub open spec fn le_u32_bytes(n: u32) -> Seq<u8> {
    seq![
        (n % 256) as u8,
        ((n / 256) % 256) as u8,
        ((n / 0x1_0000) % 256) as u8,
        (n / 0x100_0000) as u8,
    ]
}

/// The two's complement byte of a signed number.
pub open spec fn unsigned_8(n: i8) -> u8 {
    if n >= 0 {
        n as u8
    } else {
        (n + 256) as u8
    }
}

/// The two's complement reading of a byte.
pub open spec fn signed_8(n: u8) -> i8 {
    if n < 128 {
        n as i8
    } else {
        (n - 256) as i8
    }
}

/// Read a byte as a signed number.
pub fn byte_to_signed(n: u8) -> (r: i8)
    ensures
        r == signed_8(n),
{
    if n < 128 {
        n as i8
    } else {
        (n as i16 - 256) as i8
    }
}

/// Write a signed number as a byte.
pub fn signed_to_byte(n: i8) -> (r: u8)
    ensures
        r == unsigned_8(n),
{
    if n >= 0 {
        n as u8
    } else {
        (n as i16 + 256) as u8
    }
}

/// The bytes before the first zero; all of them where there is none.
pub open spec fn until_zero(s: Seq<u8>) -> Seq<u8>
    decreases s.len(),
{
    if s.len() == 0 || s[0] == 0 {
        seq![]
    } else {
        seq![s[0]] + until_zero(s.skip(1))
    }
}

/// Reading back what was written, wherever it stands in a buffer: the bytes of
/// a big-endian 16-bit integer read as that integer.
pub proof fn be_u16_round_trip(s: Seq<u8>, i: int, n: u16)
    requires
        0 <= i,
        i + 2 <= s.len(),
        s.subrange(i, i + 2) == be_u16_bytes(n),
    ensures
        be_u16(s, i) == n,
{
    let t = s.subrange(i, i + 2);
    assert(t[0] == s[i] && t[1] == s[i + 1]);
}

/// The bytes of a big-endian 32-bit integer read as that integer.
pub proof fn be_u32_round_trip(s: Seq<u8>, i: int, n: u32)
    requires
        0 <= i,
        i + 4 <= s.len(),
        s.subrange(i, i + 4) == be_u32_bytes(n),
    ensures
        be_u32(s, i) == n,
{
    let t = s.subrange(i, i + 4);
    assert(t[0] == s[i] && t[1] == s[i + 1] && t[2] == s[i + 2] && t[3] == s[i + 3]);
}

/// The bytes of a big-endian signed 16-bit integer read as that integer.
pub proof fn be_i16_round_trip(s: Seq<u8>, i: int, n: i16)
    requires
        0 <= i,
        i + 2 <= s.len(),
        s.subrange(i, i + 2) == be_i16_bytes(n),
    ensures
        be_i16(s, i) == n,
{
    be_u16_round_trip(s, i, unsigned_16(n));
}

/// The bytes of a little-endian 16-bit integer read as that integer.
pub proof fn le_u16_round_trip(s: Seq<u8>, i: int, n: u16)
    requires
        0 <= i,
        i + 2 <= s.len(),
        s.subrange(i, i + 2) == le_u16_bytes(n),
    ensures
        le_u16(s, i) == n,
{
    let t = s.subrange(i, i + 2);
    assert(t[0] == s[i] && t[1] == s[i + 1]);
}

/// The bytes of a little-endian 32-bit integer read as that integer.
pub proof fn le_u32_round_trip(s: Seq<u8>, i: int, n: u32)
    requires
        0 <= i,
        i + 4 <= s.len(),
        s.subrange(i, i + 4) == le_u32_bytes(n),
    ensures
        le_u32(s, i) == n,
{
    let t = s.subrange(i, i + 4);
    assert(t[0] == s[i] && t[1] == s[i + 1] && t[2] == s[i + 2] && t[3] == s[i + 3]);
}

/// `byteorder::BigEndian::read_u16` on the bytes from `at` on: the first two of
/// them, most significant first. It panics on fewer than two bytes.
#[verifier::external_body]
pub(crate) fn read_be_u16(data: &[u8], at: usize) -> (r: u16)
    requires
        at + 2 <= data@.len(),
    ensures
        r == be_u16(data@, at as int),
{
    BigEndian::read_u16(&data[at..])
}

/// `byteorder::BigEndian::read_u32` on the bytes from `at` on: the first four of
/// them, most significant first. It panics on fewer than four bytes.
#[verifier::external_body]
pub(crate) fn read_be_u32(data: &[u8], at: usize) -> (r: u32)
    requires
        at + 4 <= data@.len(),
    ensures
        r == be_u32(data@, at as int),
{
    BigEndian::read_u32(&data[at..])
}

/// `byteorder::BigEndian::read_i16` on the bytes from `at` on: the two's
/// complement reading of the first two of them, most significant first. It
/// panics on fewer than two bytes.
#[verifier::external_body]
pub(crate) fn read_be_i16(data: &[u8], at: usize) -> (r: i16)
    requires
        at + 2 <= data@.len(),
    ensures
        r == be_i16(data@, at as int),
{
    BigEndian::read_i16(&data[at..])
}

/// `byteorder::LittleEndian::read_u16` on the bytes from `at` on: the first two
/// of them, least significant first. It panics on fewer than two bytes.
#[verifier::external_body]
pub(crate) fn read_le_u16(data: &[u8], at: usize) -> (r: u16)
    requires
        at + 2 <= data@.len(),
    ensures
        r == le_u16(data@, at as int),
{
    LittleEndian::read_u16(&data[at..])
}

/// `byteorder::LittleEndian::read_u32` on the bytes from `at` on: the first four
/// of them, least significant first. It panics on fewer than four bytes.
#[verifier::external_body]
pub(crate) fn read_le_u32(data: &[u8], at: usize) -> (r: u32)
    requires
        at + 4 <= data@.len(),
    ensures
        r == le_u32(data@, at as int),
{
    LittleEndian::read_u32(&data[at..])
}

/// `byteorder::WriteBytesExt::write_u16::<BigEndian>` on a vector: appends the
/// two bytes of `n`, most significant first. Writing to a vector does not fail.
#[verifier::external_body]
pub(crate) fn push_be_u16(out: &mut Vec<u8>, n: u16)
    ensures
        final(out)@ == old(out)@ + be_u16_bytes(n),
{
    out.write_u16::<BigEndian>(n).unwrap()
}

/// `byteorder::WriteBytesExt::write_u32::<BigEndian>` on a vector: appends the
/// four bytes of `n`, most significant first. Writing to a vector does not fail.
#[verifier::external_body]
pub(crate) fn push_be_u32(out: &mut Vec<u8>, n: u32)
    ensures
        final(out)@ == old(out)@ + be_u32_bytes(n),
{
    out.write_u32::<BigEndian>(n).unwrap()
}

/// `byteorder::WriteBytesExt::write_i16::<BigEndian>` on a vector: appends the
/// two bytes of `n` in two's complement, most significant first. Writing to a
/// vector does not fail.
#[verifier::external_body]
pub(crate) fn push_be_i16(out: &mut Vec<u8>, n: i16)
    ensures
        final(out)@ == old(out)@ + be_i16_bytes(n),
{
    out.write_i16::<BigEndian>(n).unwrap()
}

/// `byteorder::WriteBytesExt::write_u16::<LittleEndian>` on a vector: appends
/// the two bytes of `n`, least significant first. Writing to a vector does not
/// fail.
#[verifier::external_body]
pub(crate) fn push_le_u16(out: &mut Vec<u8>, n: u16)
    ensures
        final(out)@ == old(out)@ + le_u16_bytes(n),
{
    out.write_u16::<LittleEndian>(n).unwrap()
}

/// `byteorder::WriteBytesExt::write_u32::<LittleEndian>` on a vector: appends
/// the four bytes of `n`, least significant first. Writing to a vector does not
/// fail.
#[verifier::external_body]
pub(crate) fn push_le_u32(out: &mut Vec<u8>, n: u32)
    ensures
        final(out)@ == old(out)@ + le_u32_bytes(n),
{
    out.write_u32::<LittleEndian>(n).unwrap()
}

/// The first byte weighs most in the one order, and least in the other.
pub proof fn byte_order_is_kept(s: Seq<u8>, i: int)
    ensures
        be_u16(s, i) == 256 * s[i] + s[i + 1],
        le_u16(s, i) == s[i] + 256 * s[i + 1],
        be_u32(s, i) == 0x1_0000 * be_u16(s, i) + be_u16(s, i + 2),
        le_u32(s, i) == le_u16(s, i) + 0x1_0000 * le_u16(s, i + 2),
        (be_i16(s, i) - be_u16(s, i)) % 0x1_0000 == 0,
        be_i16(s, i) < 0 <==> s[i] >= 128,
{
}

/// What is cut off at the first zero has none, and was there: it is followed by a zero or
/// by nothing.
pub proof fn text_ends_at_zero(s: Seq<u8>)
    ensures
        until_zero(s).len() <= s.len(),
        forall|i: int| 0 <= i < until_zero(s).len() ==> until_zero(s)[i] == #[trigger] s[i] && s[i] != 0,
        until_zero(s).len() < s.len() ==> s[until_zero(s).len() as int] == 0,
    decreases s.len(),
{
    if s.len() > 0 && s[0] != 0 {
        text_ends_at_zero(s.skip(1));
        let rest = until_zero(s.skip(1));
        assert forall|i: int| 0 <= i < until_zero(s).len() implies until_zero(s)[i] == #[trigger] s[i]
            && s[i] != 0 by {
            if i > 0 {
                assert(rest[i - 1] == s.skip(1)[i - 1]);
            }
        }
        if until_zero(s).len() < s.len() {
            assert(s.skip(1)[rest.len() as int] == 0);
        }
    }
}

} // verus!
