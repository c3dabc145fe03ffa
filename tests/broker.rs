use ha_cec_proxy::cec::CecStatus;
use ha_cec_proxy::config::{Config, DeviceConfig, TopicConfig};
use ha_cec_proxy::ha_entity::{Device, DeviceClass, EntityClass, SimpleCommand};
use ha_cec_proxy::service::{BrokerError, Dispatch, HaBroker, StateManager};
use rumqttc::{QoS, Request};
use std::sync::{Arc, Mutex};

fn proxy_config() -> Config {
    Config {
        topic: TopicConfig {
            prefix: "homeassistant".to_string(),
            status: "homeassistant/status".to_string(),
        },
        device: DeviceConfig { unique_id: "proxy".to_string(), object_id: None, device_name: None },
    }
}

fn broker_with_channel() -> (HaBroker, flume::Receiver<Request>, Config) {
    let (tx, rx) = flume::unbounded();
    let config = proxy_config();
    let broker = HaBroker::from_config(&config, rumqttc::Client::from_sender(tx));
    (broker, rx, config)
}

fn drain(rx: &flume::Receiver<Request>) -> Vec<(String, String, Option<QoS>)> {
    let mut out = Vec::new();
    while let Ok(r) = rx.try_recv() {
        match r {
            Request::Publish(p) => out.push((
                "publish ".to_string() + &p.topic,
                String::from_utf8(p.payload.to_vec()).unwrap(),
                Some(p.qos),
            )),
            Request::Subscribe(s) => {
                out.push(("subscribe ".to_string() + &s.filters[0].path, String::new(), Some(s.filters[0].qos)))
            }
            _ => out.push(("other".to_string(), String::new(), None)),
        }
    }
    out
}

fn received_log() -> (Arc<Mutex<Vec<String>>>, SimpleCommand<impl Fn(&str)>) {
    let log = Arc::new(Mutex::new(Vec::new()));
    let sink = log.clone();
    let cmd = SimpleCommand::new(move |p: &str| sink.lock().unwrap().push(p.to_string()));
    (log, cmd)
}

#[test]
fn end_to_end_switch() {
    let (mut broker, rx, config) = broker_with_channel();
    let device = Device::from_config(&config);
    let (log, cmd) = received_log();
    let managers: Arc<Mutex<Vec<StateManager>>> = Arc::new(Mutex::new(Vec::new()));
    let keep = managers.clone();
    let tv = device
        .entity("tv", EntityClass::Switch, DeviceClass::Switch)
        .with_state(move |state| keep.lock().unwrap().push(state))
        .with_commands(cmd);
    assert_eq!(broker.add_entity(tv), Ok(()));

    let sent = drain(&rx);
    assert_eq!(sent.len(), 2);
    assert_eq!(sent[0].0, "publish homeassistant/switch/proxy_tv/config");
    assert_eq!(sent[0].2, Some(QoS::ExactlyOnce));
    let discovery = sent[0].1.clone();
    assert!(discovery.starts_with("{\"name\":\"tv\""));
    assert_eq!(sent[1].0, "subscribe homeassistant/switch/proxy_tv/set");
    assert_eq!(sent[1].2, Some(QoS::AtMostOnce));

    assert_eq!(broker.handle_publish("homeassistant/switch/proxy_tv/set", b"ON".to_vec()), Dispatch::Routed);
    assert_eq!(*log.lock().unwrap(), vec!["ON".to_string()]);

    assert_eq!(broker.handle_publish("homeassistant/status", b"online".to_vec()), Dispatch::Rediscovered);
    let again = drain(&rx);
    assert_eq!(again.len(), 1);
    assert_eq!(again[0].0, "publish homeassistant/switch/proxy_tv/config");
    assert_eq!(again[0].1, discovery);

    let manager = managers.lock().unwrap().pop().expect("state manager handed over");
    let mut cec = CecStatus::new();
    cec.attach_statemanager(manager);
    cec.handle_line("power status: on");
    let state = drain(&rx);
    assert_eq!(state.len(), 1);
    assert_eq!(state[0].0, "publish homeassistant/switch/proxy_tv/state");
    assert_eq!(state[0].1, "ON");
    assert_eq!(state[0].2, Some(QoS::AtLeastOnce));
}

#[test]
fn command_reaches_only_its_entity() {
    let (mut broker, rx, config) = broker_with_channel();
    let device = Device::from_config(&config);
    let (up_log, up_cmd) = received_log();
    let (down_log, down_cmd) = received_log();
    broker
        .add_entity(device.entity("volumeup", EntityClass::Button, DeviceClass::Unspecified).with_commands(up_cmd))
        .unwrap();
    broker
        .add_entity(device.entity("volumedown", EntityClass::Button, DeviceClass::Unspecified).with_commands(down_cmd))
        .unwrap();
    drain(&rx);

    broker.handle_publish("homeassistant/button/proxy_volumeup/set", b"PRESS".to_vec());
    assert_eq!(*up_log.lock().unwrap(), vec!["PRESS".to_string()]);
    assert!(down_log.lock().unwrap().is_empty());

    assert_eq!(broker.handle_publish("some/other/topic", b"x".to_vec()), Dispatch::Routed);
    assert_eq!(up_log.lock().unwrap().len(), 1);
    assert!(down_log.lock().unwrap().is_empty());
    assert!(drain(&rx).is_empty());
}

#[test]
fn payload_passes_unchanged() {
    let (mut broker, _rx, config) = broker_with_channel();
    let (log, cmd) = received_log();
    broker
        .add_entity(Device::from_config(&config).entity("tv", EntityClass::Switch, DeviceClass::Switch).with_commands(cmd))
        .unwrap();
    broker.handle_publish("homeassistant/switch/proxy_tv/set", " ON \n ü".as_bytes().to_vec());
    assert_eq!(*log.lock().unwrap(), vec![" ON \n ü".to_string()]);
}

#[test]
fn undecodable_payload_is_dropped() {
    let (mut broker, _rx, config) = broker_with_channel();
    let (log, cmd) = received_log();
    broker
        .add_entity(Device::from_config(&config).entity("tv", EntityClass::Switch, DeviceClass::Switch).with_commands(cmd))
        .unwrap();
    assert_eq!(
        broker.handle_publish("homeassistant/switch/proxy_tv/set", vec![0xff, 0xfe]),
        Dispatch::Undecodable
    );
    assert!(log.lock().unwrap().is_empty());
}

#[test]
fn status_other_than_online_resends_nothing() {
    let (mut broker, rx, config) = broker_with_channel();
    broker
        .add_entity(Device::from_config(&config).entity("mute", EntityClass::Button, DeviceClass::Unspecified))
        .unwrap();
    drain(&rx);
    assert_eq!(broker.handle_publish("homeassistant/status", b"offline".to_vec()), Dispatch::Routed);
    assert!(drain(&rx).is_empty());
}

#[test]
fn resending_discovery_twice_is_identical() {
    let (mut broker, rx, config) = broker_with_channel();
    let device = Device::from_config(&config);
    broker.add_entity(device.entity("tv", EntityClass::Switch, DeviceClass::Switch)).unwrap();
    broker.add_entity(device.entity("mute", EntityClass::Button, DeviceClass::Unspecified)).unwrap();
    drain(&rx);
    broker.send_all_discovery_messages();
    let first = drain(&rx);
    broker.send_all_discovery_messages();
    let second = drain(&rx);
    assert_eq!(first.len(), 2);
    assert_eq!(first, second);
    assert_eq!(first[0].0, "publish homeassistant/switch/proxy_tv/config");
    assert_eq!(first[1].0, "publish homeassistant/button/proxy_mute/config");
}

#[test]
fn reregistering_a_name_replaces_the_entity() {
    let (mut broker, rx, config) = broker_with_channel();
    let device = Device::from_config(&config);
    let (old_log, old_cmd) = received_log();
    let (new_log, new_cmd) = received_log();
    broker.add_entity(device.entity("tv", EntityClass::Switch, DeviceClass::Switch).with_commands(old_cmd)).unwrap();
    broker.add_entity(device.entity("tv", EntityClass::Switch, DeviceClass::Switch).with_commands(new_cmd)).unwrap();
    drain(&rx);
    broker.handle_publish("homeassistant/switch/proxy_tv/set", b"OFF".to_vec());
    assert!(old_log.lock().unwrap().is_empty());
    assert_eq!(*new_log.lock().unwrap(), vec!["OFF".to_string()]);
    broker.send_all_discovery_messages();
    assert_eq!(drain(&rx).len(), 1);
}

#[test]
fn status_subscription() {
    let (mut broker, rx, _config) = broker_with_channel();
    assert_eq!(broker.subscribe_status(), Ok(()));
    let sent = drain(&rx);
    assert_eq!(sent, vec![("subscribe homeassistant/status".to_string(), String::new(), Some(QoS::AtLeastOnce))]);
}

#[test]
fn refused_subscription_is_reported() {
    let (mut broker, rx, config) = broker_with_channel();
    drop(rx);
    let (log, cmd) = received_log();
    let r = broker.add_entity(
        Device::from_config(&config).entity("tv", EntityClass::Switch, DeviceClass::Switch).with_commands(cmd),
    );
    assert_eq!(
        r,
        Err(BrokerError::SubscribeRefused { topic: "homeassistant/switch/proxy_tv/set".to_string() })
    );
    broker.handle_publish("homeassistant/switch/proxy_tv/set", b"ON".to_vec());
    assert_eq!(*log.lock().unwrap(), vec!["ON".to_string()]);
    assert_eq!(
        broker.subscribe_status(),
        Err(BrokerError::SubscribeRefused { topic: "homeassistant/status".to_string() })
    );
}

#[test]
fn state_manager_publishes_state() {
    let (tx, rx) = flume::unbounded();
    let client = Arc::new(rumqttc::Client::from_sender(tx));
    let mut manager = StateManager::new(client, "a/b/state".to_string(), "b".to_string());
    manager.update_state("OFF".to_string());
    let sent = drain(&rx);
    assert_eq!(sent, vec![("publish a/b/state".to_string(), "OFF".to_string(), Some(QoS::AtLeastOnce))]);
}

#[test]
fn wildcard_state_topic_is_refused_quietly() {
    let (tx, rx) = flume::unbounded();
    let client = Arc::new(rumqttc::Client::from_sender(tx));
    let mut manager = StateManager::new(client, "a/+/state".to_string(), "b".to_string());
    manager.update_state("OFF".to_string());
    assert!(drain(&rx).is_empty());
}

#[test]
fn shared_command_topic_calls_in_registration_order() {
    let (mut broker, _rx, config) = broker_with_channel();
    let calls = Arc::new(Mutex::new(Vec::new()));
    let first = calls.clone();
    let second = calls.clone();
    let mut other = Device::from_config(&config);
    other.unique_id = "proxy_tv".to_string();
    broker
        .add_entity(
            Device::from_config(&config)
                .entity("tv_power", EntityClass::Switch, DeviceClass::Switch)
                .with_commands(SimpleCommand::new(move |p: &str| first.lock().unwrap().push(format!("a:{p}")))),
        )
        .unwrap();
    broker
        .add_entity(
            other
                .entity("power", EntityClass::Switch, DeviceClass::Switch)
                .with_commands(SimpleCommand::new(move |p: &str| second.lock().unwrap().push(format!("b:{p}")))),
        )
        .unwrap();
    broker.handle_publish("homeassistant/switch/proxy_tv_power/set", b"ON".to_vec());
    assert_eq!(*calls.lock().unwrap(), vec!["a:ON".to_string(), "b:ON".to_string()]);
}
