//! High-level abstractions around a LaserCube/LaserDock USB DAC.

use vstd::prelude::*;
use vstd::string::*;

use crate::text::{self, push_decimal, push_text};

pub mod stream;

verus! {

/// Device status.
#[derive(Clone, Copy, Debug, PartialEq, Eq, Structural)]
pub enum DeviceStatus {
    /// Device is not initialized.
    Unknown,
    /// Device is initialized and ready.
    Initialized,
}

impl Default for DeviceStatus {
    fn default() -> (r: DeviceStatus)
        ensures
            r is Unknown,
    {
        DeviceStatus::Unknown
    }
}

/// Firmware version information.
#[derive(Clone, Copy, Debug, PartialEq, Eq, Structural)]
pub struct FirmwareVersion {
    /// Major version number.
    pub major: u32,
    /// Minor version number.
    pub minor: u32,
}

impl Default for FirmwareVersion {
    fn default() -> (r: FirmwareVersion)
        ensures
            r == (FirmwareVersion { major: 0, minor: 0 }),
    {
        FirmwareVersion { major: 0, minor: 0 }
    }
}

impl FirmwareVersion {
    pub open spec fn text(self) -> Seq<char> {
        text::decimal(self.major as nat) + "."@ + text::decimal(self.minor as nat)
    }

    /// The version for people.
    pub fn to_text(&self) -> (r: String)
        ensures
            r@ == self.text(),
    {
        let mut out = String::new();
        push_decimal(&mut out, self.major as u64);
        assert(out@ =~= text::decimal(self.major as nat));
        push_text(&mut out, ".");
        push_decimal(&mut out, self.minor as u64);
        out
    }
}

/// Device capabilities and status.
#[derive(Clone, Copy, Debug, PartialEq, Eq, Structural)]
pub struct DeviceInfo {
    /// Firmware version.
    pub firmware_version: FirmwareVersion,
    /// Maximum DAC sample rate.
    pub max_dac_rate: u32,
    /// Minimum DAC value.
    pub min_dac_value: u32,
    /// Maximum DAC value.
    pub max_dac_value: u32,
    /// Number of sample elements.
    pub sample_element_count: u32,
    /// Bulk packet sample count.
    pub bulk_packet_sample_count: u32,
    /// Current DAC rate.
    pub current_rate: u32,
    /// Ring buffer capacity.
    pub ringbuffer_capacity: u32,
    /// Current free space in ring buffer.
    pub ringbuffer_free_space: u32,
    /// Whether output is enabled.
    pub output_enabled: bool,
}

impl DeviceInfo {
    /// What is known of a device that has told nothing yet.
    pub open spec fn unknown() -> DeviceInfo {
        DeviceInfo {
            firmware_version: FirmwareVersion { major: 0, minor: 0 },
            max_dac_rate: 0,
            min_dac_value: 0,
            max_dac_value: 0,
            sample_element_count: 0,
            bulk_packet_sample_count: 0,
            current_rate: 0,
            ringbuffer_capacity: 0,
            ringbuffer_free_space: 0,
            output_enabled: false,
        }
    }
}

impl Default for DeviceInfo {
    fn default() -> (r: DeviceInfo)
        ensures
            r == DeviceInfo::unknown(),
    {
        DeviceInfo {
            firmware_version: FirmwareVersion { major: 0, minor: 0 },
            max_dac_rate: 0,
            min_dac_value: 0,
            max_dac_value: 0,
            sample_element_count: 0,
            bulk_packet_sample_count: 0,
            current_rate: 0,
            ringbuffer_capacity: 0,
            ringbuffer_free_space: 0,
            output_enabled: false,
        }
    }
}

impl DeviceInfo {
    pub open spec fn text(self) -> Seq<char> {
        "LaserCube USB (firmware: "@ + self.firmware_version.text() + ", max rate: "@
            + text::decimal(self.max_dac_rate as nat) + " Hz, buffer: "@ + text::decimal(
            self.ringbuffer_free_space as nat,
        ) + "/"@ + text::decimal(self.ringbuffer_capacity as nat) + ")"@
    }

    /// The device for people.
    pub fn to_text(&self) -> (r: String)
        ensures
            r@ == self.text(),
    {
        let mut out = "LaserCube USB (firmware: ".to_owned();
        let version = self.firmware_version.to_text();
        push_text(&mut out, version.as_str());
        push_text(&mut out, ", max rate: ");
        push_decimal(&mut out, self.max_dac_rate as u64);
        push_text(&mut out, " Hz, buffer: ");
        push_decimal(&mut out, self.ringbuffer_free_space as u64);
        push_text(&mut out, "/");
        push_decimal(&mut out, self.ringbuffer_capacity as u64);
        push_text(&mut out, ")");
        out
    }
}

/// A version is told as its major and its minor number, and a device with its version, its
/// rate and how much of its buffer is free.
pub proof fn device_is_told_in_words()
    ensures
        forall|v: &FirmwareVersion, r: String| #[trigger]
            call_ensures(FirmwareVersion::to_text, (v,), r) ==> r@ == text::decimal(v.major as nat)
                + "."@ + text::decimal(v.minor as nat),
        forall|d: &DeviceInfo, r: String| #[trigger]
            call_ensures(DeviceInfo::to_text, (d,), r) ==> r@ == "LaserCube USB (firmware: "@ + (
            text::decimal(d.firmware_version.major as nat) + "."@ + text::decimal(
                d.firmware_version.minor as nat,
            )) + ", max rate: "@ + text::decimal(d.max_dac_rate as nat) + " Hz, buffer: "@
                + text::decimal(d.ringbuffer_free_space as nat) + "/"@ + text::decimal(
                d.ringbuffer_capacity as nat,
            ) + ")"@,
{
}

} // verus!
