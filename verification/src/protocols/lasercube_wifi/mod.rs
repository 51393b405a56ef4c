//! LaserCube WiFi DAC support.

pub mod backend;
pub mod dac;
pub mod discovery;
pub mod error;
