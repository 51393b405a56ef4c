//! How a LaserCube WiFi DAC is fed.

pub mod buffer_estimator;
