//! LaserCube network UDP sample packet construction.

use vstd::prelude::*;

use crate::error::{IoError, IoErrorKind};
use crate::protocols::lasercube_network::protocol::{
    self, Point, CMD_SAMPLE_DATA, MAX_UDP_SAMPLES_PER_PACKET,
};

verus! {

/// The wire form of points, one after the other.
pub open spec fn points_wire(points: Seq<Point>) -> Seq<u8>
    decreases points.len(),
{
    if points.len() == 0 {
        seq![]
    } else {
        points_wire(points.drop_last()) + points.last().wire()
    }
}

/// A sample packet: the command, a zero, the two sequence numbers, and the points.
pub open spec fn sample_packet(packet_sequence: u8, transfer_sequence: u8, points: Seq<Point>) -> Seq<
    u8,
> {
    seq![0xA9u8, 0u8, packet_sequence, transfer_sequence] + points_wire(points)
}

/// Replace `out` by a sample packet of these points. A packet holds 140 points at
/// most; with more, `out` stays as it is.
pub fn encode_sample_packet(
    packet_sequence: u8,
    transfer_sequence: u8,
    points: &[Point],
    out: &mut Vec<u8>,
) -> (r: Result<(), IoError>)
    ensures
        r is Ok <==> points@.len() <= 140,
        r is Ok ==> final(out)@ == sample_packet(packet_sequence, transfer_sequence, points@),
        r matches Err(e) ==> {
            &&& e.kind == IoErrorKind::InvalidInput
            &&& e.message@ == "too many LaserCube samples for one UDP packet"@
            &&& final(out)@ == old(out)@
        },
{
    if points.len() > MAX_UDP_SAMPLES_PER_PACKET {
        return Err(
            IoError::new(
                IoErrorKind::InvalidInput,
                "too many LaserCube samples for one UDP packet",
            ),
        );
    }
    out.clear();
    out.push(CMD_SAMPLE_DATA);
    out.push(0x00);
    out.push(packet_sequence);
    out.push(transfer_sequence);
    let mut i: usize = 0;
    assert(out@ =~= sample_packet(packet_sequence, transfer_sequence, points@.take(0)));
    while i < points.len()
        invariant
            i <= points@.len(),
            out@ == sample_packet(packet_sequence, transfer_sequence, points@.take(i as int)),
        decreases points.len() - i,
    {
        points[i].write_to(out);
        i += 1;
        proof {
            let part = points@.take(i as int);
            assert(part.drop_last() =~= points@.take(i - 1));
            assert(out@ =~= sample_packet(packet_sequence, transfer_sequence, part));
        }
    }
    assert(points@.take(i as int) =~= points@);
    Ok(())
}

/// The points of a wire form have ten bytes each, in order.
pub proof fn points_wire_round_trip(points: Seq<Point>, i: int)
    requires
        0 <= i < points.len(),
    ensures
        points_wire(points).len() == 10 * points.len(),
        Point::read_at(points_wire(points), 10 * i) == points[i],
    decreases points.len(),
{
    lemma_points_wire_len(points);
    let head = points_wire(points.drop_last());
    let w = points_wire(points);
    lemma_points_wire_len(points.drop_last());
    if i == points.len() - 1 {
        assert(w.subrange(10 * i, 10 * i + 10) =~= points.last().wire());
        protocol::point_round_trip(w, 10 * i, points[i]);
    } else {
        points_wire_round_trip(points.drop_last(), i);
        assert forall|k: int| 0 <= k < head.len() implies w[k] == head[k] by {}
    }
}

proof fn lemma_points_wire_len(points: Seq<Point>)
    ensures
        points_wire(points).len() == 10 * points.len(),
    decreases points.len(),
{
    if points.len() > 0 {
        lemma_points_wire_len(points.drop_last());
    }
}

/// A sample packet gives back its sequence numbers, how many points it has, and
/// each of them.
pub proof fn sample_packet_round_trip(
    packet_sequence: u8,
    transfer_sequence: u8,
    points: Seq<Point>,
    i: int,
)
    requires
        0 <= i < points.len(),
    ensures
        ({
            let s = sample_packet(packet_sequence, transfer_sequence, points);
            &&& s[2] == packet_sequence
            &&& s[3] == transfer_sequence
            &&& s.len() == 4 + 10 * points.len()
            &&& Point::read_at(s, 4 + 10 * i) == points[i]
        }),
{
    let s = sample_packet(packet_sequence, transfer_sequence, points);
    let w = points_wire(points);
    points_wire_round_trip(points, i);
    assert forall|k: int| 0 <= k < w.len() implies s[4 + k] == w[k] by {}
    assert(s[4 + (10 * i + 0)] == w[10 * i + 0]);
    assert(s[4 + (10 * i + 1)] == w[10 * i + 1]);
    assert(s[4 + (10 * i + 2)] == w[10 * i + 2]);
    assert(s[4 + (10 * i + 3)] == w[10 * i + 3]);
    assert(s[4 + (10 * i + 4)] == w[10 * i + 4]);
    assert(s[4 + (10 * i + 5)] == w[10 * i + 5]);
    assert(s[4 + (10 * i + 6)] == w[10 * i + 6]);
    assert(s[4 + (10 * i + 7)] == w[10 * i + 7]);
    assert(s[4 + (10 * i + 8)] == w[10 * i + 8]);
    assert(s[4 + (10 * i + 9)] == w[10 * i + 9]);
}

/// A packet starts with its command and its two numbers; point `k` stands ten bytes further
/// on for each point before it.
pub proof fn points_stand_in_turn(packet_sequence: u8, transfer_sequence: u8, points: Seq<Point>, k: int)
    requires
        0 <= k < points.len(),
    ensures
        ({
            let s = sample_packet(packet_sequence, transfer_sequence, points);
            &&& s.len() == 4 + 10 * points.len()
            &&& s[0] == 0xA9 && s[1] == 0 && s[2] == packet_sequence && s[3] == transfer_sequence
            &&& s.subrange(4 + 10 * k, 14 + 10 * k) == points[k].wire()
        }),
{
    lemma_wire_at(points, k);
    let s = sample_packet(packet_sequence, transfer_sequence, points);
    assert(s.subrange(4 + 10 * k, 14 + 10 * k) =~= points_wire(points).subrange(
        10 * k,
        10 * k + 10,
    ));
}

proof fn lemma_wire_at(points: Seq<Point>, k: int)
    ensures
        points_wire(points).len() == 10 * points.len(),
        0 <= k < points.len() ==> points_wire(points).subrange(10 * k, 10 * k + 10)
            == points[k].wire(),
    decreases points.len(),
{
    if points.len() > 0 {
        let front = points.drop_last();
        lemma_wire_at(front, k);
        if 0 <= k < front.len() {
            assert(points_wire(points).subrange(10 * k, 10 * k + 10) =~= points_wire(
                front,
            ).subrange(10 * k, 10 * k + 10));
        } else if k == front.len() {
            assert(points_wire(points).subrange(10 * k, 10 * k + 10) =~= points[k].wire());
        }
    }
}

/// A packet holds at most 140 points; more are refused, and nothing is written then.
pub proof fn overfull_packet_is_refused()
    ensures
        forall|p: u8, t: u8, points: &[Point], out: &mut Vec<u8>, r: Result<(), IoError>| #[trigger]
            call_ensures(encode_sample_packet, (p, t, points, out), r) ==> {
                &&& r is Ok <==> points@.len() <= 140
                &&& r is Ok ==> final(out)@ == sample_packet(p, t, points@)
                &&& r is Err ==> final(out)@ == out@ && r->Err_0.kind is InvalidInput
            },
{
}

} // verus!
