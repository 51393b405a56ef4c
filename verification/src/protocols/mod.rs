//! Protocol implementations for the supported laser DAC types.

pub mod idn;
pub mod lasercube_network;
pub mod lasercube_usb;
pub mod lasercube_wifi;
pub mod oscilloscope;
