//! Bridges a line-protocol HDMI-CEC device to a home-automation hub that
//! discovers entities over MQTT.

pub mod cec;
pub mod config;
pub mod ha_entity;
pub mod json;
pub mod payloads;
pub mod process;
pub mod routing;
pub mod service;
pub mod transport;
