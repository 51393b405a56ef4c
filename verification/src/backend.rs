//! What a stream drives: the device side of a DAC.

use vstd::prelude::*;

use crate::device::{DacCapabilities, DacType};
use crate::error::Error;
use crate::types::LaserPoint;

verus! {

/// What became of points that were offered to a device.
#[derive(Clone, Copy, Debug, PartialEq, Eq, Structural)]
pub enum WriteOutcome {
    /// All of them were taken.
    Written,
    /// None of them was taken; the device has no room.
    WouldBlock,
}

/// A device that takes points. Implement it to drive a DAC of your own.
pub trait StreamBackend {
    fn dac_type(&self) -> DacType;

    fn caps(&self) -> &DacCapabilities;

    fn connect(&mut self) -> Result<(), Error>;

    fn disconnect(&mut self) -> Result<(), Error>;

    fn is_connected(&self) -> bool;

    /// Offer points: all of them are taken, or none.
    fn try_write_chunk(&mut self, pps: u32, points: &[LaserPoint]) -> Result<WriteOutcome, Error>;

    fn stop(&mut self) -> Result<(), Error>;

    fn set_shutter(&mut self, open: bool) -> Result<(), Error>;

    /// The points that wait in the device, if it can tell.
    fn queued_points(&self) -> Option<u64>;
}

} // verus!
