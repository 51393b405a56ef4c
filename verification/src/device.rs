//! What a DAC is and what it can do.

use vstd::prelude::*;

verus! {

/// How a DAC takes points.
#[derive(Clone, Copy, Debug, PartialEq, Eq, Structural)]
pub enum OutputModel {
    /// Whole frames are swapped over USB.
    UsbFrameSwap,
    /// Points are queued in a device FIFO.
    NetworkFifo,
    /// Packets carry the time at which their points are due.
    UdpTimed,
}

/// Limits of a DAC.
#[derive(Clone, Copy, Debug, PartialEq, Eq, Structural)]
pub struct DacCapabilities {
    /// Lowest point rate.
    pub pps_min: u32,
    /// Highest point rate.
    pub pps_max: u32,
    /// Most points in one write.
    pub max_points_per_chunk: usize,
    /// How the device takes points.
    pub output_model: OutputModel,
}

/// The kind of a DAC.
#[derive(Debug)]
pub enum DacType {
    Helios,
    EtherDream,
    Idn,
    LaserCubeNetwork,
    LaserCubeUsb,
    LasercubeWifi,
    Oscilloscope,
    Avb,
    Custom(String),
}

impl Clone for DacType {
    fn clone(&self) -> (r: DacType)
        ensures
            r == *self,
    {
        match self {
            DacType::Helios => DacType::Helios,
            DacType::EtherDream => DacType::EtherDream,
            DacType::Idn => DacType::Idn,
            DacType::LaserCubeNetwork => DacType::LaserCubeNetwork,
            DacType::LaserCubeUsb => DacType::LaserCubeUsb,
            DacType::LasercubeWifi => DacType::LasercubeWifi,
            DacType::Oscilloscope => DacType::Oscilloscope,
            DacType::Avb => DacType::Avb,
            DacType::Custom(name) => DacType::Custom(name.clone()),
        }
    }
}

/// A DAC as it is presented to users.
#[derive(Debug)]
pub struct DacInfo {
    /// Stable identifier.
    pub id: String,
    /// Display name.
    pub name: String,
    pub kind: DacType,
    pub caps: DacCapabilities,
}

impl Clone for DacInfo {
    fn clone(&self) -> (r: DacInfo)
        ensures
            r == *self,
    {
        DacInfo {
            id: self.id.clone(),
            name: self.name.clone(),
            kind: self.kind.clone(),
            caps: self.caps,
        }
    }
}

} // verus!
