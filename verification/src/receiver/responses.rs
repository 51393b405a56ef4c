//! What a receiver answers is what a client reads: laws that relate
//! [`crate::receiver::packet_builder`] to the readers of the IDN client.

use vstd::prelude::*;

use crate::bytes;
use crate::protocols::idn::dac::stream;
use crate::protocols::idn::dac::{self, ServiceType};
use crate::protocols::idn::error::{CommunicationError, ResponseError};
use crate::protocols::idn::protocol::{AcknowledgeResponse, ParameterResponse};
use crate::protocols::idn::scan;
use crate::receiver::config::{Relay, Service};
use crate::receiver::constants::{
    IDNCMD_PING_RESPONSE, IDNCMD_SCAN_RESPONSE, IDNCMD_SERVICEMAP_RESPONSE,
};
use crate::receiver::packet_builder as builder;

verus! {

proof fn lemma_header(command: u8, flags: u8, sequence: u16, rest: Seq<u8>)
    ensures
        ({
            let s = builder::response_header(command, flags, sequence) + rest;
            &&& s.len() == 4 + rest.len()
            &&& s[0] == command
            &&& bytes::be_u16(s, 2) == sequence
            &&& s.skip(4) == rest
        }),
{
    let s = builder::response_header(command, flags, sequence) + rest;
    assert(s.subrange(2, 4) =~= bytes::be_u16_bytes(sequence));
    bytes::be_u16_round_trip(s, 2, sequence);
    assert(s.skip(4) =~= rest);
}

/// An acknowledgment is read back with its result code, link quality and
/// latency; a negative result code is the error it stands for.
pub proof fn acknowledgment_is_understood(
    flags: u8,
    sequence: u16,
    result_code: u8,
    link_quality: u8,
    latency_us: u32,
)
    ensures
        ({
            let s = builder::ack_packet(flags, sequence, result_code, link_quality, latency_us);
            let code = bytes::signed_8(result_code);
            stream::acknowledge_outcome(s, sequence) == match ResponseError::of_ack_code(code) {
                Some(e) => Err::<AcknowledgeResponse, CommunicationError>(
                    CommunicationError::Response(e),
                ),
                None => Ok(
                    AcknowledgeResponse {
                        struct_size: 12,
                        result_code: code,
                        input_event_flags: 0,
                        pipeline_event_flags: 0,
                        status_flags: 0,
                        link_quality,
                        latency_us,
                    },
                ),
            }
        }),
{
    let s = builder::ack_packet(flags, sequence, result_code, link_quality, latency_us);
    let body = seq![12u8, result_code, 0u8, 0u8, 0u8, 0u8, 0u8, link_quality]
        + bytes::be_u32_bytes(latency_us);
    lemma_header(0x47, flags, sequence, body);
    assert(s =~= builder::response_header(0x47, flags, sequence) + body);
    assert(s.subrange(12, 16) =~= bytes::be_u32_bytes(latency_us));
    bytes::be_u32_round_trip(s, 12, latency_us);
}

/// The answer to a ping is accepted for its request, whatever its payload.
pub proof fn ping_is_understood(flags: u8, sequence: u16, payload: Seq<u8>)
    ensures
        stream::response_error(
            builder::response_header(IDNCMD_PING_RESPONSE, flags, sequence) + payload,
            0,
            IDNCMD_PING_RESPONSE,
            sequence,
        ) is None,
{
    lemma_header(IDNCMD_PING_RESPONSE, flags, sequence, payload);
}

/// A parameter response is read back with its value, or as the error its result
/// code stands for.
pub proof fn parameter_is_understood(
    flags: u8,
    sequence: u16,
    result_code: i8,
    service_id: u8,
    param_id: u16,
    value: u32,
)
    ensures
        ({
            let s = builder::response_header(
                stream::param_command_pair(service_id).1,
                flags,
                sequence,
            ) + seq![service_id, bytes::unsigned_8(result_code)] + bytes::be_u16_bytes(param_id)
                + bytes::be_u32_bytes(value);
            stream::parameter_outcome(s, service_id, sequence) == match ResponseError::of_ack_code(
                result_code,
            ) {
                Some(e) => Err::<ParameterResponse, CommunicationError>(
                    CommunicationError::Response(e),
                ),
                None => Ok(ParameterResponse { service_id, result_code, param_id, value }),
            }
        }),
{
    let command = stream::param_command_pair(service_id).1;
    let s = builder::response_header(command, flags, sequence) + seq![
        service_id,
        bytes::unsigned_8(result_code),
    ] + bytes::be_u16_bytes(param_id) + bytes::be_u32_bytes(value);
    let body = seq![service_id, bytes::unsigned_8(result_code)] + bytes::be_u16_bytes(param_id)
        + bytes::be_u32_bytes(value);
    lemma_header(command, flags, sequence, body);
    assert(s =~= builder::response_header(command, flags, sequence) + body);
    assert(s.subrange(6, 8) =~= bytes::be_u16_bytes(param_id));
    assert(s.subrange(8, 12) =~= bytes::be_u32_bytes(value));
    bytes::be_u16_round_trip(s, 6, param_id);
    bytes::be_u32_round_trip(s, 8, value);
}

/// Whether a name fits into its field and holds no zero byte.
pub open spec fn is_plain_name(name: Seq<char>) -> bool {
    &&& vstd::utf8::encode_utf8(name).len() <= 20
    &&& forall|i: int|
        0 <= i < vstd::utf8::encode_utf8(name).len() ==> vstd::utf8::encode_utf8(name)[i] != 0
}

proof fn lemma_until_zero(s: Seq<u8>, head: Seq<u8>)
    requires
        head.len() <= s.len(),
        s.take(head.len() as int) == head,
        forall|i: int| 0 <= i < head.len() ==> head[i] != 0,
        head.len() == s.len() || s[head.len() as int] == 0,
    ensures
        bytes::until_zero(s) == head,
    decreases head.len(),
{
    if head.len() > 0 {
        assert(s[0] == s.take(head.len() as int)[0]);
        assert(s.skip(1).take(head.len() - 1) =~= s.take(head.len() as int).skip(1));
        lemma_until_zero(s.skip(1), head.skip(1));
        assert(seq![head[0]] + head.skip(1) =~= head);
    } else {
        assert(bytes::until_zero(s) =~= head);
    }
}

/// A name that fits is read back from its field.
pub proof fn name_is_understood(name: Seq<char>)
    requires
        is_plain_name(name),
    ensures
        dac::field_text(builder::name_field(name)) == name,
{
    let bytes = vstd::utf8::encode_utf8(name);
    let field = builder::name_field(name);
    builder::name_field_is_utf8(name);
    builder::short_name_is_kept(name);
    lemma_until_zero(field, bytes);
    vstd::utf8::encode_utf8_valid_utf8(name);
    vstd::utf8::encode_utf8_decode_utf8(name);
}

/// A scan response is recognized, and read back with its unit id, status and
/// hostname.
pub proof fn scan_response_is_understood(
    flags: u8,
    sequence: u16,
    unit_id: Seq<u8>,
    hostname: Seq<char>,
    protocol_version: u8,
    status: u8,
    response: scan::ScanResponse,
)
    requires
        unit_id.len() == 16,
        is_plain_name(hostname),
        response.is_in(
            builder::response_header(IDNCMD_SCAN_RESPONSE, flags, sequence) + seq![
                40u8,
                protocol_version,
                status,
                0u8,
            ] + unit_id + builder::name_field(hostname),
        ),
    ensures
        scan::is_scan_response(
            builder::response_header(IDNCMD_SCAN_RESPONSE, flags, sequence) + seq![
                40u8,
                protocol_version,
                status,
                0u8,
            ] + unit_id + builder::name_field(hostname),
        ),
        response.unit_id@ == unit_id,
        response.protocol_version == protocol_version,
        response.status == status,
        dac::field_text(response.hostname@) == hostname,
{
    let s = builder::response_header(IDNCMD_SCAN_RESPONSE, flags, sequence) + seq![
        40u8,
        protocol_version,
        status,
        0u8,
    ] + unit_id + builder::name_field(hostname);
    builder::name_field_is_utf8(hostname);
    name_is_understood(hostname);
    assert(s.subrange(8, 24) =~= unit_id);
    assert(s.subrange(24, 44) =~= builder::name_field(hostname));
}

proof fn lemma_relay_entry_at(relays: Seq<Relay>, k: int)
    ensures
        builder::relay_entries(relays).len() == 24 * relays.len(),
        0 <= k < relays.len() ==> builder::relay_entries(relays).subrange(24 * k, 24 * k + 24)
            == builder::relay_entry(relays[k]),
    decreases relays.len(),
{
    if relays.len() > 0 {
        let front = relays.drop_last();
        lemma_relay_entry_at(front, k);
        builder::name_field_is_utf8(relays.last().name@);
        let all = builder::relay_entries(relays);
        if 0 <= k < front.len() {
            assert(all.subrange(24 * k, 24 * k + 24) =~= builder::relay_entries(front).subrange(
                24 * k,
                24 * k + 24,
            ));
        } else if k == front.len() {
            assert(all.subrange(24 * k, 24 * k + 24) =~= builder::relay_entry(relays[k]));
        }
    }
}

proof fn lemma_service_entry_at(services: Seq<Service>, k: int)
    ensures
        builder::service_entries(services).len() == 24 * services.len(),
        0 <= k < services.len() ==> builder::service_entries(services).subrange(
            24 * k,
            24 * k + 24,
        ) == builder::service_entry(services[k]),
    decreases services.len(),
{
    if services.len() > 0 {
        let front = services.drop_last();
        lemma_service_entry_at(front, k);
        builder::name_field_is_utf8(services.last().name@);
        let all = builder::service_entries(services);
        if 0 <= k < front.len() {
            assert(all.subrange(24 * k, 24 * k + 24) =~= builder::service_entries(front).subrange(
                24 * k,
                24 * k + 24,
            ));
        } else if k == front.len() {
            assert(all.subrange(24 * k, 24 * k + 24) =~= builder::service_entry(services[k]));
        }
    }
}

/// The packet of a service map response.
pub open spec fn service_map_packet(
    flags: u8,
    sequence: u16,
    services: Seq<Service>,
    relays: Seq<Relay>,
) -> Seq<u8> {
    builder::response_header(IDNCMD_SERVICEMAP_RESPONSE, flags, sequence) + seq![
        4u8,
        24u8,
        (relays.len() % 256) as u8,
        (services.len() % 256) as u8,
    ] + builder::relay_entries(relays) + builder::service_entries(services)
}

/// A service map response is recognized, and read back with all its relays and
/// services, as long as their counts fit into a byte.
pub proof fn service_map_is_understood(
    flags: u8,
    sequence: u16,
    services: Seq<Service>,
    relays: Seq<Relay>,
    map: scan::ServiceMap,
)
    requires
        services.len() < 256,
        relays.len() < 256,
        forall|i: int| 0 <= i < services.len() ==> is_plain_name((#[trigger] services[i]).name@),
        forall|i: int| 0 <= i < relays.len() ==> is_plain_name((#[trigger] relays[i]).name@),
        map.is_in(service_map_packet(flags, sequence, services, relays)),
    ensures
        scan::is_service_map(service_map_packet(flags, sequence, services, relays), sequence),
        map.relays@.len() == relays.len(),
        map.services@.len() == services.len(),
        forall|i: int|
            0 <= i < relays.len() ==> (#[trigger] map.relays@[i]).relay_number
                == relays[i].relay_number && map.relays@[i].name@ == relays[i].name@,
        forall|i: int|
            0 <= i < services.len() ==> {
                &&& (#[trigger] map.services@[i]).service_id == services[i].service_id
                &&& map.services@[i].service_type == ServiceType::of_byte(services[i].service_type)
                &&& map.services@[i].flags == services[i].flags
                &&& map.services@[i].relay_number == services[i].relay_number
                &&& map.services@[i].name@ == services[i].name@
            },
{
    let s = service_map_packet(flags, sequence, services, relays);
    lemma_map_layout(flags, sequence, services, relays);
    let m = relays.len() as int;
    let n = services.len() as int;
    assert forall|i: int| 0 <= i < m implies (#[trigger] map.relays@[i]).relay_number
        == relays[i].relay_number && map.relays@[i].name@ == relays[i].name@ by {
        lemma_relay_read(s, relays, i);
    }
    assert forall|i: int| 0 <= i < n implies {
        &&& (#[trigger] map.services@[i]).service_id == services[i].service_id
        &&& map.services@[i].service_type == ServiceType::of_byte(services[i].service_type)
        &&& map.services@[i].flags == services[i].flags
        &&& map.services@[i].relay_number == services[i].relay_number
        &&& map.services@[i].name@ == services[i].name@
    } by {
        lemma_service_read(s, 8 + m * 24, services, i);
    }
}

proof fn lemma_map_layout(flags: u8, sequence: u16, services: Seq<Service>, relays: Seq<Relay>)
    requires
        services.len() < 256,
        relays.len() < 256,
    ensures
        ({
            let s = service_map_packet(flags, sequence, services, relays);
            let m = relays.len() as int;
            let n = services.len() as int;
            &&& scan::is_service_map(s, sequence)
            &&& s[5] == 24 && s[6] == m && s[7] == n
            &&& s.len() == 8 + 24 * m + 24 * n
            &&& scan::entries_start(s) == 8
            &&& scan::entries_present(s, 8, m, 24) == m
            &&& scan::entries_present(s, 8 + m * 24, n, 24) == n
            &&& s.subrange(8, 8 + 24 * m) == builder::relay_entries(relays)
            &&& s.subrange(8 + m * 24, 8 + m * 24 + 24 * n) == builder::service_entries(services)
        }),
{
    let s = service_map_packet(flags, sequence, services, relays);
    let re = builder::relay_entries(relays);
    let se = builder::service_entries(services);
    let body = seq![4u8, 24u8, relays.len() as u8, services.len() as u8] + re + se;
    lemma_header(IDNCMD_SERVICEMAP_RESPONSE, flags, sequence, body);
    assert(s =~= builder::response_header(IDNCMD_SERVICEMAP_RESPONSE, flags, sequence) + body);
    lemma_relay_entry_at(relays, 0);
    lemma_service_entry_at(services, 0);
    let m = relays.len() as int;
    let n = services.len() as int;
    assert(s.len() == 8 + 24 * m + 24 * n);
    assert(s.skip(4) == body);
    assert(s[4] == body[0] && s[5] == body[1] && s[6] == body[2] && s[7] == body[3]) by {
        assert(s.skip(4)[0] == s[4] && s.skip(4)[1] == s[5] && s.skip(4)[2] == s[6]);
        assert(s.skip(4)[3] == s[7]);
    }
    assert(s.subrange(8, 8 + 24 * m) =~= re);
    assert(s.subrange(8 + m * 24, 8 + m * 24 + 24 * n) =~= se);
}

proof fn lemma_relay_read(s: Seq<u8>, relays: Seq<Relay>, i: int)
    requires
        0 <= i < relays.len(),
        s.len() >= 8 + 24 * relays.len(),
        s.subrange(8, 8 + 24 * relays.len() as int) == builder::relay_entries(relays),
        is_plain_name(relays[i].name@),
    ensures
        ({
            let e = scan::entry_bytes(s, 8 + i * 24, 24);
            &&& e[3] == relays[i].relay_number
            &&& dac::field_text(e.subrange(4, 24)) == relays[i].name@
        }),
{
    let re = builder::relay_entries(relays);
    let e = scan::entry_bytes(s, 8 + i * 24, 24);
    let x = builder::relay_entry(relays[i]);
    lemma_relay_entry_at(relays, i);
    builder::name_field_is_utf8(relays[i].name@);
    assert(x.len() == 24);
    assert(e =~= x) by {
        assert forall|j: int| 0 <= j < 24 implies e[j] == x[j] by {
            assert(x[j] == re.subrange(24 * i, 24 * i + 24)[j]);
            assert(re[24 * i + j] == s.subrange(8, 8 + 24 * relays.len() as int)[24 * i + j]);
        }
    }
    assert(e.subrange(4, 24) =~= builder::name_field(relays[i].name@));
    name_is_understood(relays[i].name@);
}

proof fn lemma_service_read(s: Seq<u8>, at: int, services: Seq<Service>, i: int)
    requires
        0 <= i < services.len(),
        at >= 0,
        s.len() >= at + 24 * services.len(),
        s.subrange(at, at + 24 * services.len()) == builder::service_entries(services),
        is_plain_name(services[i].name@),
    ensures
        ({
            let e = scan::entry_bytes(s, at + i * 24, 24);
            &&& e[0] == services[i].service_id
            &&& e[1] == services[i].service_type
            &&& e[2] == services[i].flags
            &&& e[3] == services[i].relay_number
            &&& dac::field_text(e.subrange(4, 24)) == services[i].name@
        }),
{
    let se = builder::service_entries(services);
    let e = scan::entry_bytes(s, at + i * 24, 24);
    let x = builder::service_entry(services[i]);
    lemma_service_entry_at(services, i);
    builder::name_field_is_utf8(services[i].name@);
    assert(x.len() == 24);
    assert(e =~= x) by {
        assert forall|j: int| 0 <= j < 24 implies e[j] == x[j] by {
            assert(x[j] == se.subrange(24 * i, 24 * i + 24)[j]);
            assert(se[24 * i + j] == s.subrange(at, at + 24 * services.len())[24 * i + j]);
        }
    }
    assert(e.subrange(4, 24) =~= builder::name_field(services[i].name@));
    name_is_understood(services[i].name@);
}

/// What is sent as an answer carries the number of its request, and what it was built of
/// at fixed places.
pub proof fn answers_carry_what_they_tell()
    ensures
        forall|
            flags: u8,
            sequence: u16,
            unit_id: &[u8; 16],
            hostname: &str,
            version: u8,
            status: u8,
            r: Vec<u8>,
        | #[trigger]
            call_ensures(
                builder::build_scan_response,
                (flags, sequence, unit_id, hostname, version, status),
                r,
            ) ==> {
                &&& r@.len() == 44
                &&& r@[0] == 0x11 && r@[1] == flags && 256 * r@[2] + r@[3] == sequence
                &&& r@[4] == 40 && r@[5] == version && r@[6] == status && r@[7] == 0
                &&& forall|i: int| 0 <= i < 16 ==> r@[8 + i] == #[trigger] unit_id@[i]
                &&& r@.skip(24) == builder::name_field(hostname@)
            },
        forall|flags: u8, sequence: u16, payload: &[u8], r: Vec<u8>| #[trigger]
            call_ensures(builder::build_ping_response, (flags, sequence, payload), r) ==> {
                &&& r@[0] == 0x09 && r@[1] == flags && 256 * r@[2] + r@[3] == sequence
                &&& r@.skip(4) == payload@
            },
        forall|flags: u8, sequence: u16, code: u8, quality: u8, latency: u32, r: Vec<u8>| #[trigger]
            call_ensures(
                builder::build_ack_response_full,
                (flags, sequence, code, quality, latency),
                r,
            ) ==> {
                &&& r@.len() == 16
                &&& r@[0] == 0x47 && r@[1] == flags && 256 * r@[2] + r@[3] == sequence
                &&& r@[4] == 12 && r@[5] == code
                &&& forall|i: int| 6 <= i < 11 ==> #[trigger] r@[i] == 0
                &&& r@[11] == quality
                &&& bytes::be_u32(r@, 12) == latency
            },
        forall|flags: u8, sequence: u16, code: u8, r: Vec<u8>| #[trigger]
            call_ensures(builder::build_ack_response, (flags, sequence, code), r) ==> {
                &&& r@.len() == 16
                &&& r@[0] == 0x47 && r@[1] == flags && 256 * r@[2] + r@[3] == sequence
                &&& r@[5] == code
                &&& r@[11] == 255
                &&& bytes::be_u32(r@, 12) == 0
            },
        forall|
            flags: u8,
            sequence: u16,
            command: u8,
            code: i8,
            service_id: u8,
            param_id: u16,
            value: u32,
            r: Vec<u8>,
        | #[trigger]
            call_ensures(
                builder::build_parameter_response,
                (flags, sequence, command, code, service_id, param_id, value),
                r,
            ) ==> {
                &&& r@.len() == 12
                &&& r@[0] == command && r@[1] == flags && 256 * r@[2] + r@[3] == sequence
                &&& r@[4] == service_id && (r@[5] - code) % 256 == 0
                &&& bytes::be_u16(r@, 6) == param_id
                &&& bytes::be_u32(r@, 8) == value
            },
        forall|
            flags: u8,
            sequence: u16,
            services: &[Service],
            relays: &[Relay],
            r: Vec<u8>,
        | #[trigger]
            call_ensures(
                builder::build_servicemap_response,
                (flags, sequence, services, relays),
                r,
            ) ==> r@ == service_map_packet(flags, sequence, services@, relays@),
{
    assert forall|
        flags: u8,
        sequence: u16,
        unit_id: &[u8; 16],
        hostname: &str,
        version: u8,
        status: u8,
        r: Vec<u8>,
    | #[trigger]
        call_ensures(
            builder::build_scan_response,
            (flags, sequence, unit_id, hostname, version, status),
            r,
        ) implies {
        &&& 256 * r@[2] + r@[3] == sequence
        &&& forall|i: int| 0 <= i < 16 ==> r@[8 + i] == #[trigger] unit_id@[i]
        &&& r@.skip(24) == builder::name_field(hostname@)
    } by {
        builder::name_field_is_utf8(hostname@);
        assert(r@.skip(24) =~= builder::name_field(hostname@));
    }
    assert forall|flags: u8, sequence: u16, payload: &[u8], r: Vec<u8>| #[trigger]
        call_ensures(builder::build_ping_response, (flags, sequence, payload), r) implies r@.skip(4)
        == payload@ by {
        assert(r@.skip(4) =~= payload@);
    }
    assert forall|flags: u8, sequence: u16, code: u8, quality: u8, latency: u32, r: Vec<u8>|
        #[trigger] call_ensures(
            builder::build_ack_response_full,
            (flags, sequence, code, quality, latency),
            r,
        ) implies bytes::be_u32(r@, 12) == latency by {
        assert(r@.subrange(12, 16) =~= bytes::be_u32_bytes(latency));
        bytes::be_u32_round_trip(r@, 12, latency);
    }
    assert forall|
        flags: u8,
        sequence: u16,
        command: u8,
        code: i8,
        service_id: u8,
        param_id: u16,
        value: u32,
        r: Vec<u8>,
    | #[trigger]
        call_ensures(
            builder::build_parameter_response,
            (flags, sequence, command, code, service_id, param_id, value),
            r,
        ) implies bytes::be_u16(r@, 6) == param_id && bytes::be_u32(r@, 8) == value by {
        assert(r@.subrange(6, 8) =~= bytes::be_u16_bytes(param_id));
        assert(r@.subrange(8, 12) =~= bytes::be_u32_bytes(value));
        bytes::be_u16_round_trip(r@, 6, param_id);
        bytes::be_u32_round_trip(r@, 8, value);
    }
}

} // verus!
