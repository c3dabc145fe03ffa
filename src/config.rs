//! Settings read at start-up: topic names, device identity and the few MQTT
//! values that the library itself hands around.

use vstd::prelude::*;

verus! {

/// User name and password for the MQTT broker.
#[derive(Debug, Clone)]
pub struct MqttCredentials {
    pub username: String,
    pub password: String,
}

/// Delivery guarantee requested for a message.
#[derive(Debug, Clone, Copy, PartialEq, Eq)]
pub enum MqttQos {
    AtMostOnce,
    AtLeastOnce,
    ExactlyOnce,
}

/// Topic names shared by every entity.
#[derive(Debug, Clone)]
pub struct TopicConfig {
    /// Prefix of the discovery topics (`homeassistant` unless configured).
    pub prefix: String,
    /// Topic on which the hub announces that it came online.
    pub status: String,
}

/// Identity of the device that groups all entities.
#[derive(Debug, Clone)]
pub struct DeviceConfig {
    /// Unique identifier of the device; it also names topics when no
    /// `object_id` is given.
    pub unique_id: String,
    /// Name used in topic names in place of the unique identifier.
    pub object_id: Option<String>,
    /// Display name of the device; the unique identifier stands in for it.
    pub device_name: Option<String>,
}

/// Message that the broker publishes when this client disconnects.
#[derive(Debug, Clone)]
pub struct MqttLastWill {
    pub topic: String,
    pub message: String,
    pub qos: MqttQos,
    pub retain: bool,
}

/// The part of the configuration that describes the hub side: topics and
/// device identity.
#[derive(Debug, Clone)]
pub struct Config {
    pub topic: TopicConfig,
    pub device: DeviceConfig,
}

pub fn default_device_id() -> (r: String)
    ensures
        r@ == "hdmi-cec-proxy"@,
{
    String::from_str("hdmi-cec-proxy")
}

pub fn default_async_capacity() -> (r: usize)
    ensures
        r == 10,
{
    10
}

pub fn default_discovery_topic_prefix() -> (r: String)
    ensures
        r@ == "homeassistant"@,
{
    String::from_str("homeassistant")
}

pub fn default_status_topic() -> (r: String)
    ensures
        r@ == "homeassistant/status"@,
{
    String::from_str("homeassistant/status")
}

pub fn default_unique_id() -> (r: String)
    ensures
        r@ == "hdmi-device"@,
{
    String::from_str("hdmi-device")
}

} // verus!
