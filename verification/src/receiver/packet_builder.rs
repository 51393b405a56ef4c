//! Building IDN response packets.

use vstd::prelude::*;

use crate::bytes::{self, push_be_u16, push_be_u32, signed_to_byte};
use crate::protocols::idn::protocol::PacketHeader;
use crate::receiver::config::{Relay, Service};
use crate::receiver::constants::{
    IDNCMD_PING_RESPONSE, IDNCMD_RT_ACK, IDNCMD_SCAN_RESPONSE, IDNCMD_SERVICEMAP_RESPONSE,
};

verus! {

/// Size of a name field.
pub const NAME_FIELD: usize = 20;

/// The largest position not beyond `max` where the text can be cut without
/// splitting a character.
pub open spec fn floor_boundary(bytes: Seq<u8>, max: int) -> int
    decreases max,
{
    if max >= bytes.len() {
        bytes.len() as int
    } else if max <= 0 {
        0
    } else if vstd::utf8::is_char_boundary(bytes, max) {
        max
    } else {
        floor_boundary(bytes, max - 1)
    }
}

/// A text in a field of `n` bytes: cut at a character boundary and padded with
/// zeros.
pub open spec fn padded_name(bytes: Seq<u8>, n: int) -> Seq<u8> {
    let end = floor_boundary(bytes, n);
    bytes.take(end) + Seq::new((n - end) as nat, |i: int| 0u8)
}

/// A name field of 20 bytes.
pub open spec fn name_field(name: Seq<char>) -> Seq<u8> {
    padded_name(vstd::utf8::encode_utf8(name), 20)
}

proof fn lemma_floor_boundary(bytes: Seq<u8>, max: int)
    requires
        0 <= max,
        vstd::utf8::valid_utf8(bytes),
    ensures
        0 <= floor_boundary(bytes, max) <= max,
        floor_boundary(bytes, max) <= bytes.len(),
        vstd::utf8::is_char_boundary(bytes, floor_boundary(bytes, max)),
    decreases max,
{
    vstd::utf8::is_char_boundary_start_end_of_seq(bytes);
    if max >= bytes.len() {
    } else if max <= 0 {
    } else if vstd::utf8::is_char_boundary(bytes, max) {
    } else {
        lemma_floor_boundary(bytes, max - 1);
    }
}

/// A name field never holds a split character: what stands before the padding
/// is valid UTF-8, and the field has its full size.
pub proof fn name_field_is_utf8(name: Seq<char>)
    ensures
        name_field(name).len() == 20,
        ({
            let bytes = vstd::utf8::encode_utf8(name);
            let end = floor_boundary(bytes, 20);
            &&& 0 <= end <= 20
            &&& name_field(name).take(end) == bytes.take(end)
            &&& vstd::utf8::valid_utf8(name_field(name).take(end))
            &&& forall|i: int| end <= i < 20 ==> name_field(name)[i] == 0
        }),
{
    let bytes = vstd::utf8::encode_utf8(name);
    vstd::utf8::encode_utf8_valid_utf8(name);
    lemma_floor_boundary(bytes, 20);
    let end = floor_boundary(bytes, 20);
    vstd::utf8::valid_utf8_split(bytes, end);
    assert(name_field(name).take(end) =~= bytes.take(end));
    assert(bytes.take(end) =~= bytes.subrange(0, end));
}

/// A name that fits into its field is stored whole.
pub proof fn short_name_is_kept(name: Seq<char>)
    requires
        vstd::utf8::encode_utf8(name).len() <= 20,
    ensures
        name_field(name).take(vstd::utf8::encode_utf8(name).len() as int)
            == vstd::utf8::encode_utf8(name),
{
    let bytes = vstd::utf8::encode_utf8(name);
    assert(name_field(name).take(bytes.len() as int) =~= bytes);
}

/// Find the largest index `<= max` that lies on a UTF-8 char boundary in `s`.
pub fn floor_char_boundary(s: &str, max: usize) -> (r: usize)
    ensures
        r == floor_boundary(vstd::utf8::encode_utf8(s@), max as int),
{
    let bytes = s.as_bytes();
    if max >= bytes.len() {
        return bytes.len();
    }
    let mut i: usize = max;
    while i > 0 && !s.is_char_boundary(i)
        invariant
            bytes@ == vstd::utf8::encode_utf8(s@),
            i <= max < bytes.len(),
            floor_boundary(vstd::utf8::encode_utf8(s@), i as int) == floor_boundary(vstd::utf8::encode_utf8(s@), max as int),
        decreases i,
    {
        i -= 1;
    }
    i
}

/// Append `s` as a null-padded field of 20 bytes, never splitting a UTF-8
/// codepoint. Anything past the field is cut off.
fn copy_padded_name(s: &str, out: &mut Vec<u8>)
    ensures
        final(out)@ == old(out)@ + name_field(s@),
{
    let ghost before = out@;
    let bytes = s.as_bytes();
    let end: usize = floor_char_boundary(s, NAME_FIELD);
    proof {
        vstd::utf8::encode_utf8_valid_utf8(s@);
        lemma_floor_boundary(vstd::utf8::encode_utf8(s@), 20);
    }
    let mut i: usize = 0;
    while i < NAME_FIELD
        invariant
            i <= 20,
            end <= 20,
            end <= bytes.len(),
            out@ =~= before + (bytes@.take(end as int) + Seq::new((20 - end) as nat, |j: int| 0u8)).take(i as int),
        decreases 20 - i,
    {
        if i < end {
            out.push(bytes[i]);
        } else {
            out.push(0);
        }
        i += 1;
    }
    assert(name_field(s@) =~= (bytes@.take(end as int) + Seq::new((20 - end) as nat, |j: int| 0u8)).take(20));
}

/// The packet header of a response.
pub open spec fn response_header(command: u8, flags: u8, sequence: u16) -> Seq<u8> {
    (PacketHeader { command, flags, sequence }).bytes()
}

/// Build a scan response packet.
pub fn build_scan_response(
    flags: u8,
    sequence: u16,
    unit_id: &[u8; 16],
    hostname: &str,
    protocol_version: u8,
    status: u8,
) -> (r: Vec<u8>)
    ensures
        r@ == response_header(IDNCMD_SCAN_RESPONSE, flags, sequence) + seq![
            40u8,
            protocol_version,
            status,
            0u8,
        ] + unit_id@ + name_field(hostname@),
        r@.len() == 44,
{
    let mut response: Vec<u8> = Vec::new();
    let header = PacketHeader { command: IDNCMD_SCAN_RESPONSE, flags, sequence };
    header.write(&mut response);
    response.push(40);
    response.push(protocol_version);
    response.push(status);
    response.push(0x00);
    response.extend_from_slice(unit_id.as_slice());
    copy_padded_name(hostname, &mut response);
    proof {
        name_field_is_utf8(hostname@);
        assert(response@ =~= header.bytes() + seq![40u8, protocol_version, status, 0u8] + unit_id@
            + name_field(hostname@));
    }
    response
}

/// The 24-byte service map entry of a relay.
pub open spec fn relay_entry(relay: Relay) -> Seq<u8> {
    seq![0u8, 0u8, 0u8, relay.relay_number] + name_field(relay.name@)
}

/// The 24-byte service map entry of a service.
pub open spec fn service_entry(service: Service) -> Seq<u8> {
    seq![service.service_id, service.service_type, service.flags, service.relay_number]
        + name_field(service.name@)
}

/// The entries of the given relays, in order.
pub open spec fn relay_entries(relays: Seq<Relay>) -> Seq<u8>
    decreases relays.len(),
{
    if relays.len() == 0 {
        seq![]
    } else {
        relay_entries(relays.drop_last()) + relay_entry(relays.last())
    }
}

/// The entries of the given services, in order.
pub open spec fn service_entries(services: Seq<Service>) -> Seq<u8>
    decreases services.len(),
{
    if services.len() == 0 {
        seq![]
    } else {
        service_entries(services.drop_last()) + service_entry(services.last())
    }
}

/// Build a servicemap response packet. The counts are single bytes and wrap.
pub fn build_servicemap_response(flags: u8, sequence: u16, services: &[Service], relays: &[Relay]) -> (r:
    Vec<u8>)
    ensures
        r@ == response_header(IDNCMD_SERVICEMAP_RESPONSE, flags, sequence) + seq![
            4u8,
            24u8,
            (relays@.len() % 256) as u8,
            (services@.len() % 256) as u8,
        ] + relay_entries(relays@) + service_entries(services@),
{
    let relay_count: u8 = (relays.len() % 256) as u8;
    let service_count: u8 = (services.len() % 256) as u8;
    let mut response: Vec<u8> = Vec::new();
    let header = PacketHeader { command: IDNCMD_SERVICEMAP_RESPONSE, flags, sequence };
    header.write(&mut response);
    response.push(4);
    response.push(24);
    response.push(relay_count);
    response.push(service_count);
    let ghost head = header.bytes() + seq![4u8, 24u8, relay_count, service_count];
    assert(response@ =~= head + relay_entries(relays@.take(0)));
    let mut i: usize = 0;
    while i < relays.len()
        invariant
            i <= relays.len(),
            response@ == head + relay_entries(relays@.take(i as int)),
        decreases relays.len() - i,
    {
        let relay = &relays[i];
        let ghost before = response@;
        response.push(0x00);
        response.push(0x00);
        response.push(0x00);
        response.push(relay.relay_number);
        copy_padded_name(relay.name.as_str(), &mut response);
        proof {
            assert(response@ =~= before + relay_entry(relays@[i as int]));
            assert(relays@.take(i + 1).drop_last() =~= relays@.take(i as int));
            assert(response@ =~= head + relay_entries(relays@.take(i + 1)));
        }
        i += 1;
    }
    assert(relays@.take(relays@.len() as int) =~= relays@);
    let ghost head2 = response@;
    assert(response@ =~= head2 + service_entries(services@.take(0)));
    let mut k: usize = 0;
    while k < services.len()
        invariant
            k <= services.len(),
            response@ == head2 + service_entries(services@.take(k as int)),
        decreases services.len() - k,
    {
        let service = &services[k];
        let ghost before = response@;
        response.push(service.service_id);
        response.push(service.service_type);
        response.push(service.flags);
        response.push(service.relay_number);
        copy_padded_name(service.name.as_str(), &mut response);
        proof {
            assert(response@ =~= before + service_entry(services@[k as int]));
            assert(services@.take(k + 1).drop_last() =~= services@.take(k as int));
            assert(response@ =~= head2 + service_entries(services@.take(k + 1)));
        }
        k += 1;
    }
    assert(services@.take(services@.len() as int) =~= services@);
    response
}

/// Build a ping response packet: the request payload is copied exactly.
pub fn build_ping_response(flags: u8, sequence: u16, payload: &[u8]) -> (r: Vec<u8>)
    ensures
        r@ == response_header(IDNCMD_PING_RESPONSE, flags, sequence) + payload@,
{
    let mut response: Vec<u8> = Vec::new();
    let header = PacketHeader { command: IDNCMD_PING_RESPONSE, flags, sequence };
    header.write(&mut response);
    response.extend_from_slice(payload);
    assert(response@ =~= header.bytes() + payload@);
    response
}

/// An acknowledgement packet.
pub open spec fn ack_packet(
    flags: u8,
    sequence: u16,
    result_code: u8,
    link_quality: u8,
    latency_us: u32,
) -> Seq<u8> {
    response_header(IDNCMD_RT_ACK, flags, sequence) + seq![
        12u8,
        result_code,
        0u8,
        0u8,
        0u8,
        0u8,
        0u8,
        link_quality,
    ] + bytes::be_u32_bytes(latency_us)
}

/// Build an ACK response packet: full link quality and no latency.
pub fn build_ack_response(flags: u8, sequence: u16, result_code: u8) -> (r: Vec<u8>)
    ensures
        r@ == ack_packet(flags, sequence, result_code, 0xFF, 0),
{
    build_ack_response_full(flags, sequence, result_code, 0xFF, 0)
}

/// Build an ACK response packet with all fields.
pub fn build_ack_response_full(
    flags: u8,
    sequence: u16,
    result_code: u8,
    link_quality: u8,
    latency_us: u32,
) -> (r: Vec<u8>)
    ensures
        r@ == ack_packet(flags, sequence, result_code, link_quality, latency_us),
{
    let mut response: Vec<u8> = Vec::new();
    let header = PacketHeader { command: IDNCMD_RT_ACK, flags, sequence };
    header.write(&mut response);
    response.push(12);
    response.push(result_code);
    // Input event flags, pipeline event flags and status flags stay clear.
    response.push(0x00);
    response.push(0x00);
    response.push(0x00);
    response.push(0x00);
    response.push(0x00);
    response.push(link_quality);
    push_be_u32(&mut response, latency_us);
    assert(response@ =~= ack_packet(flags, sequence, result_code, link_quality, latency_us));
    response
}

/// Build a parameter response packet.
///
/// Used for responding to UNIT_PARAMS_REQUEST and SERVICE_PARAMS_REQUEST.
pub fn build_parameter_response(
    flags: u8,
    sequence: u16,
    response_cmd: u8,
    result_code: i8,
    service_id: u8,
    param_id: u16,
    value: u32,
) -> (r: Vec<u8>)
    ensures
        r@ == response_header(response_cmd, flags, sequence) + seq![
            service_id,
            bytes::unsigned_8(result_code),
        ] + bytes::be_u16_bytes(param_id) + bytes::be_u32_bytes(value),
{
    let mut response: Vec<u8> = Vec::new();
    let header = PacketHeader { command: response_cmd, flags, sequence };
    header.write(&mut response);
    response.push(service_id);
    response.push(signed_to_byte(result_code));
    push_be_u16(&mut response, param_id);
    push_be_u32(&mut response, value);
    assert(response@ =~= header.bytes() + seq![service_id, bytes::unsigned_8(result_code)] + bytes::be_u16_bytes(
        param_id,
    ) + bytes::be_u32_bytes(value));
    response
}

/// A text that is too long is cut at the last place that splits no character.
pub proof fn text_is_cut_late(bytes: Seq<u8>, max: int)
    requires
        0 <= max,
    ensures
        max >= bytes.len() ==> floor_boundary(bytes, max) == bytes.len(),
        forall|k: int|
            floor_boundary(bytes, max) < k <= max && k < bytes.len()
                ==> !#[trigger] vstd::utf8::is_char_boundary(bytes, k),
    decreases max,
{
    if 0 < max < bytes.len() && !vstd::utf8::is_char_boundary(bytes, max) {
        text_is_cut_late(bytes, max - 1);
    }
}

} // verus!
