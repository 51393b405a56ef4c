//! Laser DAC control: wire protocols, pacing and streaming logic.

pub mod arith;
pub mod backend;
pub mod buffer_estimate;
pub mod bytes;
pub mod device;
pub mod discovery;
pub mod error;
pub mod net;
pub mod protocols;
pub mod receiver;
pub mod reconnect;
pub mod resample;
pub mod scheduler;
pub mod session;
pub mod stream;
pub mod text;
pub mod types;
