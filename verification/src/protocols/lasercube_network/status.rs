//! LaserCube network full-info status parsing.

use vstd::prelude::*;
use vstd::slice::slice_subrange;
use vstd::string::*;

use crate::bytes::{self, byte_to_signed, read_le_u16, read_le_u32};
use crate::error::{IoError, IoErrorKind};
use crate::net::IpAddr;
use crate::protocols::lasercube_network::profiles::ConnectionType;
use crate::protocols::lasercube_network::protocol::{CMD_GET_FULL_INFO, DEFAULT_BUFFER_CAPACITY};
use crate::text::{self, hex_upper, lossy_text, push_decimal, push_text};

verus! {

#[derive(Debug, PartialEq, Eq)]
pub struct LaserCubeNetworkStatus {
    /// Authoritative endpoint address from discovery/source socket metadata.
    pub ip: IpAddr,
    /// IP bytes reported by full-info. Diagnostic only; client mode may report
    /// `0.0.0.0` or another non-authoritative value.
    pub reported_ip: Option<[u8; 4]>,
    pub payload_version: u8,
    pub firmware_major: u8,
    pub firmware_minor: u8,
    pub output_enabled: bool,
    pub interlock_enabled: bool,
    pub temperature_warning: bool,
    pub over_temperature: bool,
    pub packet_errors: u8,
    pub point_rate: u32,
    pub point_rate_max: u32,
    pub buffer_free: u16,
    pub buffer_max: u16,
    pub battery_percent: u8,
    pub temperature_c: i8,
    pub raw_connection_type: u8,
    pub connection_type: ConnectionType,
    pub serial_number: String,
    pub model_number: u8,
    pub model_name: String,
}

impl Clone for LaserCubeNetworkStatus {
    fn clone(&self) -> (r: LaserCubeNetworkStatus)
        ensures
            r == *self,
    {
        LaserCubeNetworkStatus {
            ip: self.ip,
            reported_ip: self.reported_ip,
            payload_version: self.payload_version,
            firmware_major: self.firmware_major,
            firmware_minor: self.firmware_minor,
            output_enabled: self.output_enabled,
            interlock_enabled: self.interlock_enabled,
            temperature_warning: self.temperature_warning,
            over_temperature: self.over_temperature,
            packet_errors: self.packet_errors,
            point_rate: self.point_rate,
            point_rate_max: self.point_rate_max,
            buffer_free: self.buffer_free,
            buffer_max: self.buffer_max,
            battery_percent: self.battery_percent,
            temperature_c: self.temperature_c,
            raw_connection_type: self.raw_connection_type,
            connection_type: self.connection_type,
            serial_number: self.serial_number.clone(),
            model_number: self.model_number,
            model_name: self.model_name.clone(),
        }
    }
}

/// Whether a datagram is a full-info answer. Newer firmware may append to the
/// first 64 bytes.
pub open spec fn is_full_info(s: Seq<u8>) -> bool {
    s.len() >= 64 && s[0] == 0x77 && s[1] == 0 && s[2] == 0
}

/// Why a datagram is no full-info answer.
pub open spec fn full_info_fault(s: Seq<u8>) -> Seq<char> {
    if s.len() < 64 {
        "unexpected full-info response length: "@ + text::decimal(s.len())
    } else if s[0] != 0x77 {
        "unexpected full-info command: 0x"@ + text::hex_upper_of(seq![s[0]])
    } else if s[1] != 0 {
        "full-info command status was nonzero: "@ + text::decimal(s[1] as nat)
    } else {
        "unsupported full-info payload version: "@ + text::decimal(s[2] as nat)
    }
}

/// Whether a text is what bytes say: what they encode if they are valid UTF-8, else what
/// is left of it.
pub open spec fn is_name(name: Seq<char>, bytes: Seq<u8>) -> bool {
    &&& name == text::utf8_lossy(bytes)
    &&& vstd::utf8::valid_utf8(bytes) ==> vstd::utf8::encode_utf8(name) == bytes
}

/// Whether the flags are laid out as from firmware 0.13 on.
pub open spec fn new_flag_layout(s: Seq<u8>) -> bool {
    s[3] > 0 || s[4] >= 13
}

impl LaserCubeNetworkStatus {
    /// Whether this is what a full-info answer says, sent from `source_ip`.
    pub open spec fn reports(self, s: Seq<u8>, source_ip: IpAddr) -> bool {
        let flags = s[5];
        &&& self.ip == source_ip
        &&& self.reported_ip matches Some(ip) && ip@ == s.subrange(32, 36)
        &&& self.payload_version == 0
        &&& self.firmware_major == s[3]
        &&& self.firmware_minor == s[4]
        &&& self.output_enabled == (flags & 0x01 != 0)
        &&& self.interlock_enabled == if new_flag_layout(s) {
            flags & 0x02 != 0
        } else {
            flags & 0x08 != 0
        }
        &&& self.temperature_warning == if new_flag_layout(s) {
            flags & 0x04 != 0
        } else {
            flags & 0x10 != 0
        }
        &&& self.over_temperature == if new_flag_layout(s) {
            flags & 0x08 != 0
        } else {
            flags & 0x20 != 0
        }
        &&& self.packet_errors == if new_flag_layout(s) {
            flags / 16
        } else {
            0
        }
        &&& self.point_rate == bytes::le_u32(s, 10)
        &&& self.point_rate_max == bytes::le_u32(s, 14)
        &&& self.buffer_free == bytes::le_u16(s, 19)
        &&& self.buffer_max == bytes::le_u16(s, 21)
        &&& self.battery_percent == s[23]
        &&& self.temperature_c == bytes::signed_8(s[24])
        &&& self.raw_connection_type == s[25]
        &&& self.connection_type == ConnectionType::of_byte(s[25])
        &&& self.serial_number@ == text::hex_upper_of(s.subrange(26, 32))
        &&& self.model_number == s[37]
        &&& is_name(self.model_name@, bytes::until_zero(s.subrange(38, 64)))
    }

    /// Whether this is what is taken for a device that has not told its status.
    pub open spec fn is_minimal(self, ip: IpAddr) -> bool {
        &&& self.ip == ip
        &&& self.reported_ip is None
        &&& self.payload_version == 0
        &&& self.firmware_major == 0
        &&& self.firmware_minor == 0
        &&& !self.output_enabled
        &&& !self.interlock_enabled
        &&& !self.temperature_warning
        &&& !self.over_temperature
        &&& self.packet_errors == 0
        &&& self.point_rate == 0
        &&& self.point_rate_max == 30_000
        &&& self.buffer_free == 6000
        &&& self.buffer_max == 6000
        &&& self.battery_percent == 0
        &&& self.temperature_c == 0
        &&& self.raw_connection_type == 0
        &&& self.connection_type == ConnectionType::Unknown(0)
        &&& self.serial_number@ == Seq::<char>::empty()
        &&& self.model_number == 0
        &&& self.model_name@ == Seq::<char>::empty()
    }

    /// What is taken for a device that has not told its status.
    pub fn minimal(ip: IpAddr) -> (r: LaserCubeNetworkStatus)
        ensures
            r.is_minimal(ip),
    {
        LaserCubeNetworkStatus {
            ip,
            reported_ip: None,
            payload_version: 0,
            firmware_major: 0,
            firmware_minor: 0,
            output_enabled: false,
            interlock_enabled: false,
            temperature_warning: false,
            over_temperature: false,
            packet_errors: 0,
            point_rate: 0,
            point_rate_max: 30_000,
            buffer_free: DEFAULT_BUFFER_CAPACITY,
            buffer_max: DEFAULT_BUFFER_CAPACITY,
            battery_percent: 0,
            temperature_c: 0,
            raw_connection_type: 0,
            connection_type: ConnectionType::Unknown(0),
            serial_number: String::new(),
            model_number: 0,
            model_name: String::new(),
        }
    }

    /// Read a full-info answer that came from `source_ip`.
    pub fn parse(buffer: &[u8], source_ip: IpAddr) -> (r: Result<LaserCubeNetworkStatus, IoError>)
        ensures
            r is Ok <==> is_full_info(buffer@),
            r matches Ok(status) ==> status.reports(buffer@, source_ip),
            r matches Err(e) ==> e.kind == IoErrorKind::InvalidData && e.message@
                == full_info_fault(buffer@),
    {
        if buffer.len() < 64 {
            let mut message = "unexpected full-info response length: ".to_owned();
            push_decimal(&mut message, buffer.len() as u64);
            return Err(IoError { kind: IoErrorKind::InvalidData, message });
        }
        if buffer[0] != CMD_GET_FULL_INFO {
            let mut message = "unexpected full-info command: 0x".to_owned();
            let command: [u8; 1] = [buffer[0]];
            assert(command@ =~= seq![buffer@[0]]);
            let hex = hex_upper(command.as_slice());
            push_text(&mut message, hex.as_str());
            return Err(IoError { kind: IoErrorKind::InvalidData, message });
        }
        if buffer[1] != 0 {
            let mut message = "full-info command status was nonzero: ".to_owned();
            push_decimal(&mut message, buffer[1] as u64);
            return Err(IoError { kind: IoErrorKind::InvalidData, message });
        }
        let payload_version: u8 = buffer[2];
        if payload_version != 0 {
            let mut message = "unsupported full-info payload version: ".to_owned();
            push_decimal(&mut message, payload_version as u64);
            return Err(IoError { kind: IoErrorKind::InvalidData, message });
        }
        let firmware_major: u8 = buffer[3];
        let firmware_minor: u8 = buffer[4];
        let flags: u8 = buffer[5];
        let new_layout: bool = firmware_major > 0 || firmware_minor >= 13;
        let raw_connection_type: u8 = buffer[25];
        let model_name_bytes = slice_subrange(buffer, 38, 64);
        let model_name = text_until_zero(model_name_bytes);
        let reported_ip: [u8; 4] = [buffer[32], buffer[33], buffer[34], buffer[35]];
        assert(reported_ip@ =~= buffer@.subrange(32, 36));
        Ok(
            LaserCubeNetworkStatus {
                ip: source_ip,
                reported_ip: Some(reported_ip),
                payload_version,
                firmware_major,
                firmware_minor,
                output_enabled: flags & 0x01 != 0,
                interlock_enabled: if new_layout {
                    flags & 0x02 != 0
                } else {
                    flags & 0x08 != 0
                },
                temperature_warning: if new_layout {
                    flags & 0x04 != 0
                } else {
                    flags & 0x10 != 0
                },
                over_temperature: if new_layout {
                    flags & 0x08 != 0
                } else {
                    flags & 0x20 != 0
                },
                packet_errors: if new_layout {
                    flags / 16
                } else {
                    0
                },
                point_rate: read_le_u32(buffer, 10),
                point_rate_max: read_le_u32(buffer, 14),
                buffer_free: read_le_u16(buffer, 19),
                buffer_max: read_le_u16(buffer, 21),
                battery_percent: buffer[23],
                temperature_c: byte_to_signed(buffer[24]),
                raw_connection_type,
                connection_type: ConnectionType::from_status_byte(raw_connection_type),
                serial_number: hex_upper(slice_subrange(buffer, 26, 32)),
                model_number: buffer[37],
                model_name,
            },
        )
    }

    /// Whether the device runs on its charger.
    pub fn is_plugged_in(&self) -> (r: bool)
        ensures
            r == (self.battery_percent == 255),
    {
        self.battery_percent == 255
    }

    /// The charge in hundredths: full where the device reports more than that.
    pub fn battery_level(&self) -> (r: u8)
        ensures
            r == if self.battery_percent > 100 {
                100u8
            } else {
                self.battery_percent
            },
    {
        if self.battery_percent > 100 {
            100
        } else {
            self.battery_percent
        }
    }
}

proof fn lemma_until_zero(s: Seq<u8>, n: int)
    requires
        0 <= n <= s.len(),
        forall|i: int| 0 <= i < n ==> s[i] != 0,
        n == s.len() || s[n] == 0,
    ensures
        bytes::until_zero(s) == s.take(n),
    decreases n,
{
    if n > 0 {
        let rest = s.skip(1);
        assert forall|i: int| 0 <= i < n - 1 implies rest[i] != 0 by {
            assert(rest[i] == s[i + 1]);
        }
        lemma_until_zero(rest, n - 1);
        assert(s.take(n) =~= seq![s[0]] + rest.take(n - 1));
    } else {
        assert(s.take(0) =~= seq![]);
    }
}

fn text_until_zero(data: &[u8]) -> (r: String)
    ensures
        is_name(r@, bytes::until_zero(data@)),
{
    let mut n: usize = 0;
    while n < data.len() && data[n] != 0
        invariant
            n <= data@.len(),
            forall|i: int| 0 <= i < n ==> data@[i] != 0,
        decreases data.len() - n,
    {
        n += 1;
    }
    proof {
        lemma_until_zero(data@, n as int);
        assert(data@.subrange(0, n as int) =~= data@.take(n as int));
    }
    lossy_text(slice_subrange(data, 0, n))
}

/// A status is read at its places: numbers least significant byte first, and switches bit
/// by bit. The layout of the switches is the new one from firmware 0.13 on.
pub proof fn status_is_read_at_its_places(
    status: LaserCubeNetworkStatus,
    s: Seq<u8>,
    source_ip: IpAddr,
)
    requires
        s.len() >= 64,
        status.reports(s, source_ip),
    ensures
        status.ip == source_ip,
        status.firmware_major == s[3],
        status.firmware_minor == s[4],
        status.output_enabled <==> s[5] % 2 == 1,
        s[3] > 0 || s[4] >= 13 ==> {
            &&& status.interlock_enabled <==> s[5] / 2 % 2 == 1
            &&& status.temperature_warning <==> s[5] / 4 % 2 == 1
            &&& status.over_temperature <==> s[5] / 8 % 2 == 1
            &&& status.packet_errors == s[5] / 16
        },
        s[3] == 0 && s[4] < 13 ==> {
            &&& status.interlock_enabled <==> s[5] / 8 % 2 == 1
            &&& status.temperature_warning <==> s[5] / 16 % 2 == 1
            &&& status.over_temperature <==> s[5] / 32 % 2 == 1
            &&& status.packet_errors == 0
        },
        status.point_rate == s[10] + 256 * s[11] + 0x1_0000 * s[12] + 0x100_0000 * s[13],
        status.point_rate_max == s[14] + 256 * s[15] + 0x1_0000 * s[16] + 0x100_0000 * s[17],
        status.buffer_free == s[19] + 256 * s[20],
        status.buffer_max == s[21] + 256 * s[22],
        status.battery_percent == s[23],
        (status.temperature_c - s[24]) % 256 == 0,
        status.raw_connection_type == s[25],
        status.serial_number@.len() == 12,
        status.model_number == s[37],
        status.reported_ip matches Some(ip) && ip@ =~= seq![s[32], s[33], s[34], s[35]],
{
    let flags = s[5];
    assert((flags & 0x01u8 != 0) == (flags % 2 == 1) && (flags & 0x02u8 != 0) == (flags / 2 % 2 == 1)
        && (flags & 0x04u8 != 0) == (flags / 4 % 2 == 1) && (flags & 0x08u8 != 0) == (flags / 8 % 2
        == 1) && (flags & 0x10u8 != 0) == (flags / 16 % 2 == 1) && (flags & 0x20u8 != 0) == (flags
        / 32 % 2 == 1)) by (bit_vector);
}

/// Only an answer of 64 bytes at least, to the right request, that reports success and a
/// known version is a status.
pub proof fn other_answers_are_no_status(s: Seq<u8>)
    ensures
        is_full_info(s) <==> s.len() >= 64 && s[0] == 0x77 && s[1] == 0 && s[2] == 0,
        is_full_info(s) ==> forall|more: Seq<u8>| #[trigger] is_full_info(s + more),
{
}

/// A charger is told apart from a charge, which is never more than full.
pub proof fn charge_is_at_most_full()
    ensures
        forall|s: &LaserCubeNetworkStatus, r: u8|
            #[trigger] call_ensures(LaserCubeNetworkStatus::battery_level, (s,), r) ==> r <= 100 && (
            s.battery_percent <= 100 ==> r == s.battery_percent),
        forall|s: &LaserCubeNetworkStatus, r: bool|
            #[trigger] call_ensures(LaserCubeNetworkStatus::is_plugged_in, (s,), r) ==> (r
                <==> s.battery_percent == 255),
{
}

/// A status is read from an answer of 64 bytes or more to the right command, with no
/// failure in it and a payload that is known; a device that has told none counts as off.
pub proof fn only_full_answers_are_read()
    ensures
        forall|b: &[u8], ip: IpAddr, r: Result<LaserCubeNetworkStatus, IoError>| #[trigger]
            call_ensures(LaserCubeNetworkStatus::parse, (b, ip), r) ==> {
                &&& r is Ok <==> is_full_info(b@)
                &&& r is Ok ==> b@.len() >= 64 && b@[0] == 0x77 && b@[1] == 0
                &&& r matches Ok(s) ==> s.ip == ip && s.reports(b@, ip)
                &&& r matches Err(e) ==> e.kind is InvalidData
            },
        forall|ip: IpAddr, r: LaserCubeNetworkStatus| #[trigger]
            call_ensures(LaserCubeNetworkStatus::minimal, (ip,), r) ==> {
                &&& r.ip == ip && r.reported_ip is None
                &&& !r.output_enabled && !r.interlock_enabled
                &&& r.buffer_free == r.buffer_max && r.buffer_max == 6000
                &&& r.point_rate == 0 && r.point_rate_max == 30_000
                &&& r.serial_number@.len() == 0 && r.model_name@.len() == 0
            },
{
}

} // verus!
