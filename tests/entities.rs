use ha_cec_proxy::config::{
    default_async_capacity, default_device_id, default_discovery_topic_prefix, default_status_topic,
    default_unique_id, Config, DeviceConfig, TopicConfig,
};
use ha_cec_proxy::ha_entity::{Device, DeviceClass, Entity, EntityClass, SimpleCommand};
use ha_cec_proxy::json::{json_string, write_array, write_object};
use ha_cec_proxy::payloads::{ConfigPayload, DevicePayload, OriginPayload};

fn proxy_device() -> Device {
    Device {
        unique_id: "proxy".to_string(),
        name: None,
        object_id: None,
        topic_prefix: "homeassistant".to_string(),
    }
}

#[test]
fn defaults() {
    assert_eq!(default_device_id(), "hdmi-cec-proxy");
    assert_eq!(default_async_capacity(), 10);
    assert_eq!(default_discovery_topic_prefix(), "homeassistant");
    assert_eq!(default_status_topic(), "homeassistant/status");
    assert_eq!(default_unique_id(), "hdmi-device");
}

#[test]
fn device_from_config() {
    let config = Config {
        topic: TopicConfig { prefix: "ha".to_string(), status: "ha/status".to_string() },
        device: DeviceConfig {
            unique_id: "uid".to_string(),
            object_id: Some("obj".to_string()),
            device_name: Some("Living room".to_string()),
        },
    };
    let d = Device::from_config(&config);
    assert_eq!(d.unique_id, "uid");
    assert_eq!(d.object_id, Some("obj".to_string()));
    assert_eq!(d.name, Some("Living room".to_string()));
    assert_eq!(d.topic_prefix, "ha");
}

#[test]
fn entity_class_names() {
    assert_eq!(EntityClass::Switch.to_string(), "switch");
    assert_eq!(EntityClass::Button.to_string(), "button");
    assert_eq!(EntityClass::Sensor.to_string(), "sensor");
    assert_eq!(EntityClass::BinarySensor.to_string(), "binary_sensor");
    assert_eq!(DeviceClass::Switch.to_string(), "switch");
    assert_eq!(DeviceClass::Motion.to_string(), "motion");
    assert_eq!(DeviceClass::Unspecified.to_string(), "none");
}

#[test]
fn discovery_topic_uses_unique_id() {
    let e = proxy_device().entity("tv", EntityClass::Switch, DeviceClass::Switch);
    assert_eq!(e.topic_prefix, "homeassistant/switch/proxy_tv");
    assert_eq!(e.get_discovery_topic(), "homeassistant/switch/proxy_tv/config");
    assert_eq!(e.get_name(), "tv");
}

#[test]
fn discovery_topic_prefers_object_id() {
    let mut d = proxy_device();
    d.object_id = Some("den".to_string());
    let e = d.entity("mute", EntityClass::Button, DeviceClass::Unspecified);
    assert_eq!(e.get_discovery_topic(), "homeassistant/button/den_mute/config");
    assert_eq!(
        Entity::topic_prefix(&d, "x", &EntityClass::BinarySensor),
        "homeassistant/binary_sensor/den_x"
    );
}

#[test]
fn topics_follow_capabilities() {
    let e = proxy_device().entity("tv", EntityClass::Switch, DeviceClass::Switch);
    assert_eq!(e.get_state_topic(), None);
    assert_eq!(e.get_command_topic(), None);

    let e = e.with_state(|_state| {});
    assert_eq!(e.get_state_topic(), Some("homeassistant/switch/proxy_tv/state".to_string()));
    assert_eq!(e.get_command_topic(), None);

    let e = e.with_commands(SimpleCommand::new(|_payload: &str| {}));
    assert_eq!(e.get_state_topic(), Some("homeassistant/switch/proxy_tv/state".to_string()));
    assert_eq!(e.get_command_topic(), Some("homeassistant/switch/proxy_tv/set".to_string()));

    let only_commands = proxy_device()
        .entity("volumeup", EntityClass::Button, DeviceClass::Unspecified)
        .with_commands(SimpleCommand::new(|_payload: &str| {}));
    assert_eq!(only_commands.get_state_topic(), None);
    assert_eq!(
        only_commands.get_command_topic(),
        Some("homeassistant/button/proxy_volumeup/set".to_string())
    );
}

#[test]
fn json_string_escapes() {
    assert_eq!(json_string("tv"), "\"tv\"");
    assert_eq!(json_string("a\"b\\c"), "\"a\\\"b\\\\c\"");
    assert_eq!(json_string("line\n"), "\"line\\n\"");
    assert_eq!(json_string(""), "\"\"");
    assert_eq!(json_string("\u{1}\u{1f}\t\u{8}\u{c}\r"), "\"\\u0001\\u001f\\t\\b\\f\\r\"");
    assert_eq!(json_string("/é\u{7f}"), "\"/é\u{7f}\"");
}

#[test]
fn json_layout() {
    assert_eq!(write_array(&vec![]), "[]");
    assert_eq!(write_array(&vec!["1".to_string(), "\"a\"".to_string()]), "[1,\"a\"]");
    assert_eq!(write_object(&vec![]), "{}");
    assert_eq!(
        write_object(&vec![
            ("a".to_string(), "1".to_string()),
            ("b".to_string(), "[]".to_string()),
        ]),
        "{\"a\":1,\"b\":[]}"
    );
}

#[test]
fn device_payload_defaults_name() {
    let mut d = proxy_device();
    let p = DevicePayload::from_device(&d);
    assert_eq!(p.name, "proxy");
    assert_eq!(p.identifiers, vec!["proxy".to_string()]);
    d.name = Some("TV box".to_string());
    let p = DevicePayload::from_device(&d);
    assert_eq!(p.name, "TV box");
    assert_eq!(p.to_json(), "{\"name\":\"TV box\",\"identifiers\":[\"proxy\"]}");
}

#[test]
fn origin_payload_default() {
    let o = OriginPayload::default();
    assert_eq!(o.name, "ha-cec-proxy");
    assert_eq!(o.sw_version, "0.1.0");
    assert_eq!(o.support_url, "https://github.com/o080o/ha-cec-proxy");
}

#[test]
fn config_payload_fields() {
    let d = proxy_device();
    let p = ConfigPayload::new(None, Some("t/set".to_string()), &d, &DeviceClass::Unspecified, "mute");
    assert_eq!(p.name, Some("mute".to_string()));
    assert_eq!(p.state_topic, None);
    assert_eq!(p.command_topic, Some("t/set".to_string()));
    assert_eq!(p.device_class, None);
    assert_eq!(p.unique_id, Some("proxy_mute".to_string()));
    assert_eq!(p.object_id, None);
    assert_eq!(p.value_template, None);
    let p = ConfigPayload::new(None, None, &d, &DeviceClass::Motion, "pir");
    assert_eq!(p.device_class, Some("motion".to_string()));
}

#[test]
fn discovery_json_of_switch() {
    let e = proxy_device()
        .entity("tv", EntityClass::Switch, DeviceClass::Switch)
        .with_state(|_state| {})
        .with_commands(SimpleCommand::new(|_payload: &str| {}));
    assert_eq!(
        e.get_config_payload().to_json(),
        "{\"name\":\"tv\",\"state_topic\":\"homeassistant/switch/proxy_tv/state\",\
         \"command_topic\":\"homeassistant/switch/proxy_tv/set\",\"device_class\":\"switch\",\
         \"unique_id\":\"proxy_tv\",\"device\":{\"name\":\"proxy\",\"identifiers\":[\"proxy\"]},\
         \"origin\":{\"name\":\"ha-cec-proxy\",\"sw_version\":\"0.1.0\",\
         \"support_url\":\"https://github.com/o080o/ha-cec-proxy\"}}"
    );
}

#[test]
fn discovery_json_without_name() {
    let d = proxy_device();
    let mut p = ConfigPayload::new(None, None, &d, &DeviceClass::Unspecified, "b");
    p.name = None;
    p.device = None;
    p.origin = None;
    p.value_template = Some("{{ v }}".to_string());
    assert_eq!(
        p.to_json(),
        "{\"name\":null,\"value_template\":\"{{ v }}\",\"unique_id\":\"proxy_b\"}"
    );
}
