use ha_cec_proxy::cec::{
    active_source_request, mute_request, parse_power_state, power_command, power_query_request,
    power_request, source_entity_name, volume_down_request, volume_up_request, CecStatus,
};
use ha_cec_proxy::process::{ConsumerError, OutputStream};
use ha_cec_proxy::service::StateManager;
use std::sync::Arc;

#[test]
fn parsing_power_line() {
    assert_eq!(parse_power_state("power status: on"), Some("ON".to_string()));
    // only "standby" reads as off; any other token is unknown
    assert_eq!(parse_power_state("power status: off"), Some("UNKNOWN".to_string()));
    assert_eq!(parse_power_state("power status: idk"), Some("UNKNOWN".to_string()));

    assert_eq!(parse_power_state("random junk"), None);
}

#[test]
fn power_status_table() {
    assert_eq!(parse_power_state("power status: on"), Some("ON".to_string()));
    assert_eq!(parse_power_state("power status: standby"), Some("OFF".to_string()));
    assert_eq!(parse_power_state("power status: weird"), Some("UNKNOWN".to_string()));
    assert_eq!(parse_power_state("random junk"), None);
}

#[test]
fn power_status_token_padding() {
    assert_eq!(parse_power_state("power status:on"), Some("ON".to_string()));
    assert_eq!(parse_power_state("power status:   standby\r"), Some("OFF".to_string()));
    assert_eq!(parse_power_state("power status: on\n"), Some("ON".to_string()));
    assert_eq!(parse_power_state("power status:\u{b}on"), Some("ON".to_string()));
    assert_eq!(parse_power_state("power status:\u{3000}standby\u{a0}"), Some("OFF".to_string()));
    assert_eq!(parse_power_state("power status: o n"), Some("UNKNOWN".to_string()));
    assert_eq!(parse_power_state("power status:"), Some("UNKNOWN".to_string()));
    assert_eq!(parse_power_state("power status"), None);
    assert_eq!(parse_power_state(""), None);
    assert_eq!(parse_power_state(" power status: on"), None);
}

#[test]
fn request_strings() {
    assert_eq!(power_request(true), "on 0.0.0.0\n");
    assert_eq!(power_request(false), "standby 0.0.0.0\n");
    assert_eq!(power_query_request(), "pow 0.0.0.0\n");
    assert_eq!(volume_up_request(), "volup\n");
    assert_eq!(volume_down_request(), "voldown\n");
    assert_eq!(mute_request(), "mute\n");
}

#[test]
fn active_source_ports() {
    assert_eq!(active_source_request(1), Some("tx 1F:82:10:00\n".to_string()));
    assert_eq!(active_source_request(4), Some("tx 1F:82:40:00\n".to_string()));
    assert_eq!(active_source_request(12), Some("tx 1F:82:C0:00\n".to_string()));
    assert_eq!(active_source_request(0), None);
    assert_eq!(active_source_request(16), None);
}

#[test]
fn source_names() {
    assert_eq!(source_entity_name(1), "Source1");
    assert_eq!(source_entity_name(4), "Source4");
    assert_eq!(source_entity_name(10), "Source10");
    assert_eq!(source_entity_name(255), "Source255");
    assert_eq!(source_entity_name(0), "Source0");
}

#[test]
fn power_command_payloads() {
    assert!(power_command("ON"));
    assert!(!power_command("OFF"));
    assert!(!power_command("on"));
    assert!(!power_command(""));
}

#[test]
fn hdmi_cec_process_functions() {
    let mut cec = CecStatus::new();
    assert!(!cec.has_state_manager());

    let (tx, _rx) = flume::unbounded();
    let client = Arc::new(rumqttc::Client::from_sender(tx));
    let statemanager = StateManager::new(client, "a/state".to_string(), "tv".to_string());
    cec.attach_statemanager(statemanager);
    assert!(cec.has_state_manager());
}

#[test]
fn status_line_publishes_state() {
    let (tx, rx) = flume::unbounded();
    let client = Arc::new(rumqttc::Client::from_sender(tx));
    let mut cec = CecStatus::new();
    cec.attach_statemanager(StateManager::new(
        client,
        "homeassistant/switch/proxy_tv/state".to_string(),
        "tv".to_string(),
    ));
    cec.handle_line("some chatter");
    assert!(rx.try_recv().is_err());
    assert_eq!(cec.tv_state(), None);

    cec.handle_line("power status: on");
    assert_eq!(cec.tv_state(), Some("ON".to_string()));
    match rx.try_recv().expect("a state message") {
        rumqttc::Request::Publish(p) => {
            assert_eq!(p.topic, "homeassistant/switch/proxy_tv/state");
            assert_eq!(&p.payload[..], b"ON");
            assert_eq!(p.qos, rumqttc::QoS::AtLeastOnce);
            assert!(!p.retain);
        }
        _ => panic!("expected a publish"),
    }
}

#[test]
fn status_line_without_manager_keeps_state() {
    let mut cec = CecStatus::new();
    cec.handle_line("power status: standby");
    assert_eq!(cec.tv_state(), Some("OFF".to_string()));
}

#[test]
fn output_goes_to_one_consumer() {
    let mut out = OutputStream::new(7u32);
    assert!(out.is_unclaimed());
    assert_eq!(out.take_for_consumer(), Ok(7));
    assert!(!out.is_unclaimed());
    assert_eq!(out.take_for_consumer(), Err(ConsumerError::AlreadyConsumed));
    assert_eq!(out.take_for_consumer(), Err(ConsumerError::AlreadyConsumed));
}
