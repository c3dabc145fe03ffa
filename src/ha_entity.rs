//! Devices and the entities derived from them: which topics an entity has,
//! and the capabilities that give it those topics.

use std::sync::Arc;
use vstd::prelude::*;

use crate::config::Config;
use crate::payloads::{config_json, config_payload, ConfigPayload, ConfigPayloadView};
use crate::service::StateManager;

verus! {

/// Kind of entity; it names the discovery namespace and a topic segment.
#[derive(Debug, Clone, Copy, PartialEq, Eq)]
pub enum EntityClass {
    Switch,
    Button,
    Sensor,
    BinarySensor,
}

impl EntityClass {
    pub open spec fn spec_name(&self) -> Seq<char> {
        match self {
            EntityClass::Switch => "switch"@,
            EntityClass::Button => "button"@,
            EntityClass::Sensor => "sensor"@,
            EntityClass::BinarySensor => "binary_sensor"@,
        }
    }

    /// The name used in topics and in the discovery schema.
    pub fn to_string(&self) -> (r: String)
        ensures
            r@ == self.spec_name(),
    {
        match self {
            EntityClass::Switch => String::from_str("switch"),
            EntityClass::Button => String::from_str("button"),
            EntityClass::Sensor => String::from_str("sensor"),
            EntityClass::BinarySensor => String::from_str("binary_sensor"),
        }
    }
}

/// Hint to the hub on what an entity stands for.
#[derive(Debug, Clone, Copy, PartialEq, Eq)]
pub enum DeviceClass {
    Switch,
    Motion,
    Unspecified,
}

impl DeviceClass {
    pub open spec fn spec_name(&self) -> Seq<char> {
        match self {
            DeviceClass::Switch => "switch"@,
            DeviceClass::Motion => "motion"@,
            DeviceClass::Unspecified => "none"@,
        }
    }

    pub fn to_string(&self) -> (r: String)
        ensures
            r@ == self.spec_name(),
    {
        match self {
            DeviceClass::Switch => String::from_str("switch"),
            DeviceClass::Motion => String::from_str("motion"),
            DeviceClass::Unspecified => String::from_str("none"),
        }
    }
}

/// Something that reacts to the payloads published on a command topic.
pub trait Commandable {
    fn on_command(&mut self, payload: &str);
}

/// A command capability made of one closure.
pub struct SimpleCommand<F: Fn(&str)> {
    on_command: F,
}

impl<F: Fn(&str)> SimpleCommand<F> {
    #[verifier::type_invariant]
    spec fn accepts_any_payload(&self) -> bool {
        forall|p: &str| #[trigger] call_requires(self.on_command, (p,))
    }

    /// The closure that receives the payloads.
    pub closed spec fn callback(&self) -> F {
        self.on_command
    }

    /// Keeps `on_command` without calling it.
    pub fn new(on_command: F) -> (r: Self)
        requires
            forall|p: &str| #[trigger] call_requires(on_command, (p,)),
        ensures
            r.callback() == on_command,
    {
        SimpleCommand { on_command }
    }

    /// Calls the closure once with `payload` as it is.
    pub fn run(&self, payload: &str)
        ensures
            call_ensures(self.callback(), (payload,), ()),
    {
        proof {
            use_type_invariant(self);
        }
        (self.on_command)(payload);
    }
}

impl<F: Fn(&str)> Commandable for SimpleCommand<F> {
    fn on_command(&mut self, payload: &str)
        ensures
            final(self).callback() == old(self).callback(),
            call_ensures(old(self).callback(), (payload,), ()),
    {
        self.run(payload);
    }
}

/// What an entity with a state topic runs once, when it is registered.
pub trait StateSetup {
    fn connect(&self, state: StateManager);
}

struct StateCallback<F: Fn(StateManager)> {
    setup: F,
}

impl<F: Fn(StateManager)> StateCallback<F> {
    #[verifier::type_invariant]
    spec fn accepts_any_manager(&self) -> bool {
        forall|s: StateManager| #[trigger] call_requires(self.setup, (s,))
    }
}

impl<F: Fn(StateManager)> StateSetup for StateCallback<F> {
    fn connect(&self, state: StateManager) {
        proof {
            use_type_invariant(self);
        }
        (self.setup)(state);
    }
}

/// Identity shared by every entity of one physical unit.
#[derive(Clone, Debug)]
pub struct Device {
    pub unique_id: String,
    pub name: Option<String>,
    pub object_id: Option<String>,
    pub topic_prefix: String,
}

/// The identifier used in topic names: the object id where there is one,
/// else the unique id.
pub open spec fn topic_id(d: Device) -> Seq<char> {
    match d.object_id {
        Some(o) => o@,
        None => d.unique_id@,
    }
}

/// `{prefix}/{class}/{object id or unique id}_{name}`
pub open spec fn entity_topic_prefix(d: Device, name: Seq<char>, c: EntityClass) -> Seq<char> {
    d.topic_prefix@ + "/"@ + c.spec_name() + "/"@ + topic_id(d) + "_"@ + name
}

pub open spec fn text_of(o: Option<String>) -> Option<Seq<char>> {
    match o {
        Some(s) => Some(s@),
        None => None,
    }
}

pub(crate) fn copy_text(o: &Option<String>) -> (r: Option<String>)
    ensures
        r == *o,
{
    match o {
        Some(s) => Some(s.clone()),
        None => None,
    }
}

impl Device {
    pub fn from_config(config: &Config) -> (r: Device)
        ensures
            r.unique_id == config.device.unique_id,
            r.name == config.device.device_name,
            r.object_id == config.device.object_id,
            r.topic_prefix == config.topic.prefix,
    {
        Device {
            name: copy_text(&config.device.device_name),
            unique_id: config.device.unique_id.clone(),
            object_id: copy_text(&config.device.object_id),
            topic_prefix: config.topic.prefix.clone(),
        }
    }

    /// A field-by-field copy.
    pub fn duplicate(&self) -> (r: Device)
        ensures
            r == *self,
    {
        Device {
            unique_id: self.unique_id.clone(),
            name: copy_text(&self.name),
            object_id: copy_text(&self.object_id),
            topic_prefix: self.topic_prefix.clone(),
        }
    }

    /// A new entity of this device, with no capability yet.
    pub fn entity(&self, id: &str, entity_class: EntityClass, device_class: DeviceClass) -> (r:
        Entity)
        ensures
            r@ == derived_entity(*self, id@, entity_class, device_class),
    {
        Entity {
            name: String::from_str(id),
            topic_prefix: Entity::topic_prefix(self, id, &entity_class),
            entity_class,
            device_class,
            device: self.duplicate(),
            commands: None,
            stateful: None,
            commands_received: Ghost(Seq::empty()),
            state_links: Ghost(Seq::empty()),
        }
    }
}

/// The entity that `d.entity(name, c, dc)` gives: no capability yet.
pub open spec fn derived_entity(d: Device, name: Seq<char>, c: EntityClass, dc: DeviceClass) -> EntityView {
    EntityView {
        name,
        topic_prefix: entity_topic_prefix(d, name, c),
        entity_class: c,
        device_class: dc,
        device: d,
        commandable: false,
        stateful: false,
        commands_received: Seq::empty(),
        state_links: Seq::empty(),
    }
}

/// The discovery topic of an entity derived from a device depends on the
/// device, the name and the class alone, and is
/// `{prefix}/{class}/{object id or unique id}_{name}/config`.
pub proof fn lemma_derived_discovery_topic(d: Device, name: Seq<char>, c: EntityClass, dc: DeviceClass)
    ensures
        discovery_topic(derived_entity(d, name, c, dc)) == d.topic_prefix@ + "/"@ + c.spec_name()
            + "/"@ + match d.object_id {
            Some(o) => o@,
            None => d.unique_id@,
        } + "_"@ + name + "/config"@,
        forall|dc2: DeviceClass|
            discovery_topic(#[trigger] derived_entity(d, name, c, dc2)) == discovery_topic(
                derived_entity(d, name, c, dc),
            ),
{
}

/// An entity has a state topic exactly when it has the state capability, and
/// a command topic exactly when it has the command capability; a derived
/// entity has neither.
pub proof fn lemma_topics_follow_capabilities(e: EntityView)
    ensures
        state_topic(e) is Some <==> e.stateful,
        command_topic(e) is Some <==> e.commandable,
        state_topic(EntityView { stateful: true, ..e }) is Some,
        command_topic(EntityView { commandable: true, ..e }) is Some,
        forall|d: Device, name: Seq<char>, c: EntityClass, dc: DeviceClass|
            state_topic(#[trigger] derived_entity(d, name, c, dc)) is None && command_topic(
                derived_entity(d, name, c, dc),
            ) is None,
{
}

/// What the library states of a state manager handed to an entity.
pub struct StateLink {
    pub state_topic: Seq<char>,
    pub entity_name: Seq<char>,
    /// The shared client that the manager publishes through.
    pub client: Arc<rumqttc::Client>,
}

/// What the library states of an entity.
pub struct EntityView {
    pub name: Seq<char>,
    pub topic_prefix: Seq<char>,
    pub entity_class: EntityClass,
    pub device_class: DeviceClass,
    pub device: Device,
    /// Whether a command capability is attached.
    pub commandable: bool,
    /// Whether a state capability is attached.
    pub stateful: bool,
    /// Every payload handed to the command capability, oldest first.
    pub commands_received: Seq<Seq<char>>,
    /// Every state manager handed to the state capability, oldest first.
    pub state_links: Seq<StateLink>,
}

pub open spec fn discovery_topic(e: EntityView) -> Seq<char> {
    e.topic_prefix + "/config"@
}

/// The discovery message of an entity.
pub open spec fn entity_config(e: EntityView) -> ConfigPayloadView {
    config_payload(state_topic(e), command_topic(e), e.device, e.device_class, e.name)
}

/// The JSON text published on an entity's discovery topic.
pub open spec fn discovery_payload(e: EntityView) -> Seq<char> {
    config_json(entity_config(e))
}

pub open spec fn state_topic(e: EntityView) -> Option<Seq<char>> {
    if e.stateful {
        Some(e.topic_prefix + "/state"@)
    } else {
        None
    }
}

pub open spec fn command_topic(e: EntityView) -> Option<Seq<char>> {
    if e.commandable {
        Some(e.topic_prefix + "/set"@)
    } else {
        None
    }
}

/// An addressable capability of a device, exposed to the hub through topics.
pub struct Entity {
    pub name: String,
    pub topic_prefix: String,
    pub entity_class: EntityClass,
    pub device_class: DeviceClass,
    pub device: Device,
    pub commands: Option<Box<dyn Commandable>>,
    pub stateful: Option<Box<dyn StateSetup>>,
    /// Every payload handed to the command capability, oldest first.
    pub commands_received: Ghost<Seq<Seq<char>>>,
    /// Every state manager handed to the state capability, oldest first.
    pub state_links: Ghost<Seq<StateLink>>,
}

impl View for Entity {
    type V = EntityView;

    open spec fn view(&self) -> EntityView {
        EntityView {
            name: self.name@,
            topic_prefix: self.topic_prefix@,
            entity_class: self.entity_class,
            device_class: self.device_class,
            device: self.device,
            commandable: self.commands is Some,
            stateful: self.stateful is Some,
            commands_received: self.commands_received@,
            state_links: self.state_links@,
        }
    }
}

impl Entity {
    /// `{prefix}/{class}/{object id or unique id}_{name}` for `device`.
    pub fn topic_prefix(device: &Device, name: &str, entity_class: &EntityClass) -> (r: String)
        ensures
            r@ == entity_topic_prefix(*device, name@, *entity_class),
    {
        let mut s = device.topic_prefix.clone();
        s.append("/");
        let class_str = entity_class.to_string();
        s.append(class_str.as_str());
        s.append("/");
        match &device.object_id {
            Some(o) => s.append(o.as_str()),
            None => s.append(device.unique_id.as_str()),
        }
        s.append("_");
        s.append(name);
        s
    }

    /// Attaches the state capability: `func` receives a state manager once,
    /// when the entity is registered. A second call replaces the first.
    pub fn with_state<F: 'static + Fn(StateManager)>(self, func: F) -> (r: Entity)
        requires
            forall|s: StateManager| #[trigger] call_requires(func, (s,)),
        ensures
            r@ == (EntityView { stateful: true, ..self@ }),
    {
        let mut e = self;
        e.stateful = Some(Box::new(StateCallback { setup: func }));
        e
    }

    /// Attaches the command capability. A second call replaces the first.
    pub fn with_commands<T: 'static + Commandable>(self, commands: T) -> (r: Entity)
        ensures
            r@ == (EntityView { commandable: true, ..self@ }),
    {
        let mut e = self;
        e.commands = Some(Box::new(commands));
        e
    }

    pub fn get_config_payload(&self) -> (r: ConfigPayload)
        ensures
            r@ == entity_config(self@),
    {
        ConfigPayload::new(
            self.get_state_topic(),
            self.get_command_topic(),
            &self.device,
            &self.device_class,
            self.name.as_str(),
        )
    }

    pub fn get_device(&self) -> (r: Device)
        ensures
            r == self@.device,
    {
        self.device.duplicate()
    }

    pub fn get_name(&self) -> (r: String)
        ensures
            r@ == self@.name,
    {
        self.name.clone()
    }

    /// `{topic prefix}/config`
    pub fn get_discovery_topic(&self) -> (r: String)
        ensures
            r@ == discovery_topic(self@),
    {
        let mut s = self.topic_prefix.clone();
        s.append("/config");
        s
    }

    /// `{topic prefix}/state`, where the state capability is attached.
    pub fn get_state_topic(&self) -> (r: Option<String>)
        ensures
            text_of(r) == state_topic(self@),
    {
        if self.stateful.is_some() {
            let mut s = self.topic_prefix.clone();
            s.append("/state");
            Some(s)
        } else {
            None
        }
    }

    /// `{topic prefix}/set`, where the command capability is attached.
    pub fn get_command_topic(&self) -> (r: Option<String>)
        ensures
            text_of(r) == command_topic(self@),
    {
        if self.commands.is_some() {
            let mut s = self.topic_prefix.clone();
            s.append("/set");
            Some(s)
        } else {
            None
        }
    }

    /// Hands `payload` unchanged to the command capability, if there is one.
    pub fn on_command(&mut self, payload: &str)
        ensures
            final(self)@ == (EntityView {
                commands_received: if old(self)@.commandable {
                    old(self)@.commands_received.push(payload@)
                } else {
                    old(self)@.commands_received
                },
                ..old(self)@
            }),
    {
        match self.commands.as_mut() {
            Some(command) => {
                command.on_command(payload);
                self.commands_received = Ghost(self.commands_received@.push(payload@));
            },
            None => {},
        }
    }

    /// Hands `state` to the state capability, if there is one.
    pub fn connect_state(&mut self, state: StateManager)
        ensures
            final(self)@ == (EntityView {
                state_links: if old(self)@.stateful {
                    old(self)@.state_links.push(
                        StateLink {
                            state_topic: state.state_topic(),
                            entity_name: state.entity_name(),
                            client: state.client(),
                        },
                    )
                } else {
                    old(self)@.state_links
                },
                ..old(self)@
            }),
    {
        let link = Ghost(
            StateLink {
                state_topic: state.state_topic(),
                entity_name: state.entity_name(),
                client: state.client(),
            },
        );
        match &self.stateful {
            Some(listener) => {
                listener.connect(state);
                self.state_links = Ghost(self.state_links@.push(link@));
            },
            None => {},
        }
    }
}

} // verus!
