//! IDN receiver: discovery responses and incoming point streams.

pub mod behavior;
pub mod config;
pub mod constants;
pub mod loopback;
pub mod packet_builder;
pub mod parser;
pub mod responses;
