//! The hub-facing side: state updates pushed by entities, and the broker that
//! owns the registry of entities and routes commands to them.

use std::sync::Arc;
use vstd::prelude::*;

use vstd::utf8::{decode_utf8, valid_utf8};

use crate::config::Config;
use crate::json::texts;
use crate::ha_entity::{command_topic, discovery_payload, discovery_topic, Entity, EntityView, StateLink};
use crate::routing::{
    add_route, find_route, routed, routes_view, routes_well_formed, unroute, unrouted, with_route,
};
use crate::transport::{MqttClient, MqttRequest};

verus! {

/// Lets an entity push its state without access to the broker. Entities can
/// clone and keep their own copy.
#[derive(Clone)]
pub struct StateManager {
    client: MqttClient,
    state_topic: String,
    entity_name: String,
}

impl StateManager {
    pub closed spec fn state_topic(&self) -> Seq<char> {
        self.state_topic@
    }

    pub closed spec fn entity_name(&self) -> Seq<char> {
        self.entity_name@
    }

    /// The shared client that this manager publishes through.
    pub closed spec fn client(&self) -> Arc<rumqttc::Client> {
        self.client.client()
    }

    /// The requests made through this manager's client handle.
    pub closed spec fn issued(&self) -> Seq<MqttRequest> {
        self.client.issued()
    }

    /// A manager that publishes to `state_topic` on behalf of `entity_name`.
    pub fn new(client: Arc<rumqttc::Client>, state_topic: String, entity_name: String) -> (r:
        StateManager)
        ensures
            r.client() == client,
            r.state_topic() == state_topic@,
            r.entity_name() == entity_name@,
            r.issued() == Seq::<MqttRequest>::empty(),
    {
        StateManager { client: MqttClient::new(client), state_topic, entity_name }
    }

    /// Publishes `state` as the whole payload on the state topic, at least once
    /// and not retained. A refused publish is dropped: a newer state will
    /// follow it.
    pub fn update_state(&mut self, state: String)
        ensures
            final(self).state_topic() == old(self).state_topic(),
            final(self).entity_name() == old(self).entity_name(),
            final(self).client() == old(self).client(),
            final(self).issued() == old(self).issued().push(
                MqttRequest::Publish {
                    topic: old(self).state_topic(),
                    qos: rumqttc::QoS::AtLeastOnce,
                    retain: false,
                    payload: state@,
                },
            ),
    {
        let _ = self.client.publish(
            self.state_topic.as_str(),
            rumqttc::QoS::AtLeastOnce,
            false,
            state.as_str(),
        );
    }
}

/// Relies on String::from_utf8: it accepts exactly the valid UTF-8 byte
/// sequences, and then holds the characters they encode.
#[verifier::external_body]
fn text_from_utf8(bytes: Vec<u8>) -> (r: Option<String>)
    ensures
        r is Some <==> valid_utf8(bytes@),
        r matches Some(s) ==> s@ == decode_utf8(bytes@),
{
    String::from_utf8(bytes).ok()
}

/// A failure that the broker reports to its caller.
#[derive(Debug, Clone, PartialEq, Eq)]
pub enum BrokerError {
    /// The client refused to queue the subscription to this topic.
    SubscribeRefused { topic: String },
}

/// What the broker did with an incoming message.
#[derive(Debug, Clone, Copy, PartialEq, Eq)]
pub enum Dispatch {
    /// The hub came online: every discovery message was sent again.
    Rediscovered,
    /// The payload went to the entities routed from the topic, if any.
    Routed,
    /// The payload is not UTF-8 text and was dropped.
    Undecodable,
}

pub open spec fn views(es: Seq<Entity>) -> Seq<EntityView> {
    es.map_values(|e: Entity| e@)
}

pub open spec fn names_unique(es: Seq<EntityView>) -> bool {
    forall|i: int, j: int| 0 <= i < j < es.len() ==> es[i].name != es[j].name
}

pub open spec fn has_name(es: Seq<EntityView>, name: Seq<char>) -> bool {
    exists|i: int| 0 <= i < es.len() && #[trigger] es[i].name == name
}

/// Some entity named `name` has `topic` as its command topic.
pub open spec fn commands_on(es: Seq<EntityView>, topic: Seq<char>, name: Seq<char>) -> bool {
    exists|i: int| 0 <= i < es.len() && #[trigger] es[i].name == name && command_topic(es[i]) == Some(topic)
}

/// The registry with `e` in it: it takes the place of the entity of the same
/// name, or else comes last.
pub open spec fn registry_with(es: Seq<EntityView>, e: EntityView) -> Seq<EntityView> {
    if has_name(es, e.name) {
        es.map_values(|x: EntityView| if x.name == e.name { e } else { x })
    } else {
        es.push(e)
    }
}

/// An entity after its state capability received a manager of its state
/// topic on `client`, where it has a state topic.
pub open spec fn connected(e: EntityView, client: Arc<rumqttc::Client>) -> EntityView {
    EntityView {
        state_links: if e.stateful {
            e.state_links.push(StateLink { state_topic: e.topic_prefix + "/state"@, entity_name: e.name, client })
        } else {
            e.state_links
        },
        ..e
    }
}

/// An entity after a payload arrived on `topic`: its command capability got
/// the payload once if `topic` is its command topic.
pub open spec fn after_publish(e: EntityView, topic: Seq<char>, payload: Seq<char>) -> EntityView {
    EntityView {
        commands_received: if command_topic(e) == Some(topic) {
            e.commands_received.push(payload)
        } else {
            e.commands_received
        },
        ..e
    }
}

/// The names routed from `topic`, in routing order.
pub open spec fn route_of(map: Seq<(Seq<char>, Seq<Seq<char>>)>, topic: Seq<char>) -> Seq<Seq<char>> {
    if exists|k: int| 0 <= k < map.len() && #[trigger] map[k].0 == topic {
        map[choose|k: int| 0 <= k < map.len() && #[trigger] map[k].0 == topic].1
    } else {
        Seq::empty()
    }
}

/// The commands that a payload on `topic` hands over: one to each entity
/// routed from it, in routing order.
pub open spec fn dispatches(
    map: Seq<(Seq<char>, Seq<Seq<char>>)>,
    topic: Seq<char>,
    payload: Seq<char>,
) -> Seq<(Seq<char>, Seq<char>)> {
    route_of(map, topic).map_values(|n: Seq<char>| (n, payload))
}

/// The routing table after registering `e`: its name leaves every list, then
/// goes at the end of the list of its command topic, if it has one.
pub open spec fn routes_after_register(
    map: Seq<(Seq<char>, Seq<Seq<char>>)>,
    e: EntityView,
) -> Seq<(Seq<char>, Seq<Seq<char>>)> {
    match command_topic(e) {
        Some(t) => with_route(unrouted(map, e.name), t, e.name),
        None => unrouted(map, e.name),
    }
}

/// The discovery message of an entity: exactly once, not retained.
pub open spec fn discovery_request(e: EntityView) -> MqttRequest {
    MqttRequest::Publish {
        topic: discovery_topic(e),
        qos: rumqttc::QoS::ExactlyOnce,
        retain: false,
        payload: discovery_payload(e),
    }
}

pub open spec fn discovery_requests(es: Seq<EntityView>) -> Seq<MqttRequest> {
    es.map_values(|e: EntityView| discovery_request(e))
}

/// The requests that registering an entity makes: its discovery message, then
/// the subscription to its command topic, at most once, if it has one.
pub open spec fn registration_requests(e: EntityView) -> Seq<MqttRequest> {
    seq![discovery_request(e)] + match command_topic(e) {
        Some(t) => seq![MqttRequest::Subscribe { topic: t, qos: rumqttc::QoS::AtMostOnce }],
        None => Seq::empty(),
    }
}

/// What the library states of a broker.
pub struct BrokerView {
    /// Topic on which the hub announces that it is online.
    pub status_topic: Seq<char>,
    /// The registered entities, in registration order.
    pub entities: Seq<EntityView>,
    /// Command topics with the names of the entities routed from each.
    pub topic_map: Seq<(Seq<char>, Seq<Seq<char>>)>,
    /// Name of the entity and payload of every command handed over, oldest
    /// first.
    pub dispatched: Seq<(Seq<char>, Seq<char>)>,
    /// The shared client that the broker sends through.
    pub client: Arc<rumqttc::Client>,
    /// Every request made through the broker's client handle.
    pub issued: Seq<MqttRequest>,
}

/// `after` is `before` with every discovery message sent again, in registry
/// order, and nothing else changed.
pub open spec fn discovery_resent(before: BrokerView, after: BrokerView) -> bool {
    after == BrokerView { issued: before.issued + discovery_requests(before.entities), ..before }
}

/// Sending all discovery messages twice sends the same messages both times,
/// and leaves the registry and the routing table as they were.
pub proof fn lemma_resend_idempotent(a: BrokerView, b: BrokerView, c: BrokerView)
    requires
        discovery_resent(a, b),
        discovery_resent(b, c),
    ensures
        c.entities == a.entities,
        c.topic_map == a.topic_map,
        c.status_topic == a.status_topic,
        b.issued.subrange(a.issued.len() as int, b.issued.len() as int) == discovery_requests(a.entities),
        c.issued.subrange(b.issued.len() as int, c.issued.len() as int) == discovery_requests(a.entities),
{
    assert(b.issued.subrange(a.issued.len() as int, b.issued.len() as int) =~= discovery_requests(a.entities));
    assert(c.issued.subrange(b.issued.len() as int, c.issued.len() as int) =~= discovery_requests(b.entities));
}

/// A payload on an entity's command topic reaches its command capability once
/// and unchanged; a payload on any other topic does not reach it.
pub proof fn lemma_command_round_trip(e: EntityView, topic: Seq<char>, payload: Seq<char>)
    ensures
        command_topic(e) == Some(topic) ==> after_publish(e, topic, payload).commands_received
            == e.commands_received.push(payload),
        command_topic(e) != Some(topic) ==> after_publish(e, topic, payload) == e,
{
}

/// Entity names are unique; the routing table has each topic once, and routes
/// a name from a topic exactly when that entity has that command topic.
pub open spec fn broker_wf(v: BrokerView) -> bool {
    &&& names_unique(v.entities)
    &&& routes_well_formed(v.topic_map)
    &&& forall|t: Seq<char>, n: Seq<char>| #[trigger] routed(v.topic_map, t, n) <==> commands_on(v.entities, t, n)
}

/// Owns the client handle, the registry of entities and the routing table.
pub struct HaBroker {
    client: MqttClient,
    status_topic: String,
    entities: Vec<Entity>,
    topic_map: Vec<(String, Vec<String>)>,
    dispatched: Ghost<Seq<(Seq<char>, Seq<char>)>>,
}

impl View for HaBroker {
    type V = BrokerView;

    closed spec fn view(&self) -> BrokerView {
        BrokerView {
            status_topic: self.status_topic@,
            entities: views(self.entities@),
            topic_map: routes_view(self.topic_map@),
            dispatched: self.dispatched@,
            client: self.client.client(),
            issued: self.client.issued(),
        }
    }
}

/// Two registries whose entities have the same names and command topics, one
/// for one, route alike.
proof fn lemma_same_routing(a: Seq<EntityView>, b: Seq<EntityView>)
    requires
        a.len() == b.len(),
        forall|i: int|
            0 <= i < a.len() ==> #[trigger] a[i].name == b[i].name && command_topic(a[i])
                == command_topic(b[i]),
    ensures
        names_unique(a) <==> names_unique(b),
        forall|t: Seq<char>, n: Seq<char>| #[trigger] commands_on(a, t, n) <==> commands_on(b, t, n),
{
    assert forall|t: Seq<char>, n: Seq<char>| #[trigger] commands_on(a, t, n) <==> commands_on(b, t, n) by {
        if commands_on(a, t, n) {
            let i = choose|i: int| 0 <= i < a.len() && #[trigger] a[i].name == n && command_topic(a[i]) == Some(t);
            assert(b[i].name == n);
        }
        if commands_on(b, t, n) {
            let i = choose|i: int| 0 <= i < b.len() && #[trigger] b[i].name == n && command_topic(b[i]) == Some(t);
            assert(a[i].name == n);
        }
    };
    if names_unique(a) {
        assert forall|i: int, j: int| 0 <= i < j < b.len() implies b[i].name != b[j].name by {
            assert(a[i].name == b[i].name && a[j].name == b[j].name);
        };
    }
    if names_unique(b) {
        assert forall|i: int, j: int| 0 <= i < j < a.len() implies a[i].name != a[j].name by {
            assert(a[i].name == b[i].name && a[j].name == b[j].name);
        };
    }
}

/// Registering `e` keeps names unique, and routes as before for every other
/// name, and for `e`'s name by `e`'s command topic alone.
proof fn lemma_register(es: Seq<EntityView>, e: EntityView)
    requires
        names_unique(es),
    ensures
        names_unique(registry_with(es, e)),
        forall|t: Seq<char>, m: Seq<char>|
            #[trigger] commands_on(registry_with(es, e), t, m) <==> if m == e.name {
                command_topic(e) == Some(t)
            } else {
                commands_on(es, t, m)
            },
{
    let r = registry_with(es, e);
    if has_name(es, e.name) {
        let w = choose|w: int| 0 <= w < es.len() && #[trigger] es[w].name == e.name;
        assert(r[w] == e);
        assert forall|i: int| 0 <= i < r.len() implies #[trigger] r[i].name == es[i].name by {};
        assert forall|i: int, j: int| 0 <= i < j < r.len() implies r[i].name != r[j].name by {
            assert(r[i].name == es[i].name && r[j].name == es[j].name);
        };
        assert forall|t: Seq<char>, m: Seq<char>|
            #[trigger] commands_on(r, t, m) <==> if m == e.name {
                command_topic(e) == Some(t)
            } else {
                commands_on(es, t, m)
            } by {
            if commands_on(r, t, m) {
                let i = choose|i: int| 0 <= i < r.len() && #[trigger] r[i].name == m && command_topic(r[i]) == Some(t);
                if m != e.name {
                    assert(r[i] == es[i]);
                }
            }
            if m == e.name && command_topic(e) == Some(t) {
                assert(r[w].name == m);
            }
            if m != e.name && commands_on(es, t, m) {
                let i = choose|i: int| 0 <= i < es.len() && #[trigger] es[i].name == m && command_topic(es[i]) == Some(t);
                assert(r[i] == es[i]);
            }
        };
    } else {
        assert forall|i: int, j: int| 0 <= i < j < r.len() implies r[i].name != r[j].name by {
            if j == es.len() {
                assert(r[i] == es[i]);
                if es[i].name == e.name {
                    assert(has_name(es, e.name));
                }
            } else {
                assert(r[i] == es[i] && r[j] == es[j]);
            }
        };
        assert forall|t: Seq<char>, m: Seq<char>|
            #[trigger] commands_on(r, t, m) <==> if m == e.name {
                command_topic(e) == Some(t)
            } else {
                commands_on(es, t, m)
            } by {
            if commands_on(r, t, m) {
                let i = choose|i: int| 0 <= i < r.len() && #[trigger] r[i].name == m && command_topic(r[i]) == Some(t);
                if i < es.len() {
                    assert(r[i] == es[i]);
                    if m == e.name {
                        assert(has_name(es, e.name));
                    }
                }
            }
            if m == e.name && command_topic(e) == Some(t) {
                assert(r[es.len() as int] == e);
            }
            if m != e.name && commands_on(es, t, m) {
                let i = choose|i: int| 0 <= i < es.len() && #[trigger] es[i].name == m && command_topic(es[i]) == Some(t);
                assert(r[i] == es[i]);
            }
        };
    }
}

/// The index of the entity named `name`, if one is registered.
fn find_entity(es: &Vec<Entity>, name: &String) -> (r: Option<usize>)
    ensures
        r matches Some(i) ==> i < es@.len() && es@[i as int]@.name == name@,
        r is None ==> !has_name(views(es@), name@),
{
    let mut i: usize = 0;
    while i < es.len()
        invariant
            i <= es.len(),
            forall|j: int| 0 <= j < i ==> #[trigger] es@[j]@.name != name@,
        decreases es.len() - i,
    {
        if es[i].get_name() == *name {
            return Some(i);
        }
        i = i + 1;
    }
    assert forall|j: int| 0 <= j < es@.len() implies #[trigger] views(es@)[j].name != name@ by {
        assert(views(es@)[j] == es@[j]@);
    };
    None
}

/// Hands the discovery message of `entity` to the client.
fn publish_discovery(client: &mut MqttClient, entity: &Entity)
    ensures
        final(client).client() == old(client).client(),
        final(client).issued() == old(client).issued().push(discovery_request(entity@)),
{
    let topic = entity.get_discovery_topic();
    let payload = entity.get_config_payload().to_json();
    let _ = client.publish(topic.as_str(), rumqttc::QoS::ExactlyOnce, false, payload.as_str());
}

impl HaBroker {
    pub open spec fn wf(&self) -> bool {
        broker_wf(self@)
    }

    /// A broker with no entity yet, on the given client.
    pub fn from_config(config: &Config, client: rumqttc::Client) -> (r: HaBroker)
        ensures
            r.wf(),
            r@ == (BrokerView {
                status_topic: config.topic.status@,
                entities: Seq::empty(),
                topic_map: Seq::empty(),
                dispatched: Seq::empty(),
                client: r@.client,
                issued: Seq::empty(),
            }),
            *r@.client == client,
    {
        let r = HaBroker {
            client: MqttClient::new(Arc::new(client)),
            status_topic: config.topic.status.clone(),
            entities: Vec::new(),
            topic_map: Vec::new(),
            dispatched: Ghost(Seq::empty()),
        };
        assert(views(r.entities@) =~= Seq::<EntityView>::empty());
        assert(routes_view(r.topic_map@) =~= Seq::<(Seq<char>, Seq<Seq<char>>)>::empty());
        r
    }

    /// The shared client, for publishing directly.
    pub fn client(&self) -> Arc<rumqttc::Client> {
        self.client.shared()
    }

    /// Publishes the discovery message of every registered entity again, in
    /// registry order. Nothing else changes.
    pub fn send_all_discovery_messages(&mut self)
        requires
            old(self).wf(),
        ensures
            final(self).wf(),
            discovery_resent(old(self)@, final(self)@),
    {
        let ghost start = self@;
        let mut i: usize = 0;
        while i < self.entities.len()
            invariant
                i <= self.entities.len(),
                self@ == (BrokerView {
                    issued: start.issued + discovery_requests(start.entities.take(i as int)),
                    ..start
                }),
            decreases self.entities.len() - i,
        {
            let ghost before = self.client.issued();
            publish_discovery(&mut self.client, &self.entities[i]);
            assert(views(self.entities@)[i as int] == self.entities@[i as int]@);
            assert(discovery_requests(start.entities.take(i as int + 1)) =~= discovery_requests(
                start.entities.take(i as int),
            ).push(discovery_request(start.entities[i as int])));
            i = i + 1;
        }
        assert(start.entities.take(self.entities.len() as int) =~= start.entities);
    }

    /// Hands `payload` to every entity routed from `topic`, in the order in
    /// which they were routed, each exactly once. A topic that routes nowhere
    /// changes nothing.
    pub fn notify_entities(&mut self, topic: &str, payload: &str)
        requires
            old(self).wf(),
        ensures
            final(self).wf(),
            final(self)@ == (BrokerView {
                entities: old(self)@.entities.map_values(
                    |e: EntityView| after_publish(e, topic@, payload@),
                ),
                dispatched: old(self)@.dispatched + dispatches(old(self)@.topic_map, topic@, payload@),
                ..old(self)@
            }),
    {
        let ghost start = self@;
        let ghost target = start.entities.map_values(|e: EntityView| after_publish(e, topic@, payload@));
        let key = String::from_str(topic);
        match find_route(&self.topic_map, &key) {
            None => {
                assert forall|x: int| 0 <= x < start.entities.len() implies command_topic(
                    start.entities[x],
                ) != Some(topic@) by {
                    if command_topic(start.entities[x]) == Some(topic@) {
                        assert(commands_on(start.entities, topic@, start.entities[x].name));
                        assert(routed(start.topic_map, topic@, start.entities[x].name));
                    }
                };
                assert(start.entities =~= target);
                assert(dispatches(start.topic_map, topic@, payload@) =~= Seq::empty());
                assert(self.dispatched@ =~= start.dispatched + dispatches(start.topic_map, topic@, payload@));
            },
            Some(k) => {
                let ghost bucket = start.topic_map[k as int].1;
                assert(bucket.len() > 0 && bucket.no_duplicates());
                assert(route_of(start.topic_map, topic@) == bucket) by {
                    let c = choose|c: int| 0 <= c < start.topic_map.len() && #[trigger] start.topic_map[c].0 == topic@;
                    assert(start.topic_map[k as int].0 == topic@);
                    if c != k {
                        assert(start.topic_map[c].0 != start.topic_map[k as int].0);
                    }
                };
                let count = self.topic_map[k].1.len();
                let mut j: usize = 0;
                while j < count
                    invariant
                        j <= count,
                        count == bucket.len(),
                        k < self.topic_map@.len(),
                        broker_wf(start),
                        start.topic_map[k as int].0 == topic@,
                        bucket == start.topic_map[k as int].1,
                        bucket.no_duplicates(),
                        routes_view(self.topic_map@) == start.topic_map,
                        self.status_topic@ == start.status_topic,
                        self.client.issued() == start.issued,
                        self.client.client() == start.client,
                        self.dispatched@ == start.dispatched + bucket.take(j as int).map_values(
                            |n: Seq<char>| (n, payload@),
                        ),
                        self.entities@.len() == start.entities.len(),
                        forall|x: int|
                            0 <= x < start.entities.len() ==> #[trigger] self.entities@[x]@ == (
                            if bucket.take(j as int).contains(start.entities[x].name) {
                                after_publish(start.entities[x], topic@, payload@)
                            } else {
                                start.entities[x]
                            }),
                    decreases count - j,
                {
                    let name = self.topic_map[k].1[j].clone();
                    assert(routes_view(self.topic_map@)[k as int].1 == texts(self.topic_map@[k as int].1@));
                    assert(name@ == bucket[j as int]);
                    assert(routed(start.topic_map, topic@, name@));
                    assert(commands_on(start.entities, topic@, name@));
                    let ghost w = choose|w: int|
                        0 <= w < start.entities.len() && #[trigger] start.entities[w].name == name@
                            && command_topic(start.entities[w]) == Some(topic@);
                    assert(!bucket.take(j as int).contains(name@)) by {
                        if bucket.take(j as int).contains(name@) {
                            let a = choose|a: int| 0 <= a < j && bucket.take(j as int)[a] == name@;
                            assert(bucket[a] == bucket[j as int]);
                        }
                    };
                    assert(bucket.take(j as int + 1) =~= bucket.take(j as int).push(name@));
                    let ghost before = self.entities@;
                    proof {
                        assert(bucket.take(j as int + 1).map_values(|n: Seq<char>| (n, payload@)) =~= bucket.take(
                            j as int,
                        ).map_values(|n: Seq<char>| (n, payload@)).push((name@, payload@)));
                    }
                    self.dispatched = Ghost(self.dispatched@.push((name@, payload@)));
                    match find_entity(&self.entities, &name) {
                        Some(i) => {
                            assert(views(before)[i as int] == before[i as int]@);
                            assert(views(before)[w] == before[w]@);
                            assert(i == w);
                            self.entities[i].on_command(payload);
                            assert forall|x: int| 0 <= x < start.entities.len() implies #[trigger] self.entities@[x]@ == (
                                if bucket.take(j as int + 1).contains(start.entities[x].name) {
                                    after_publish(start.entities[x], topic@, payload@)
                                } else {
                                    start.entities[x]
                                }) by {
                                if x != w {
                                    assert(start.entities[x].name != name@);
                                    assert(self.entities@[x] == before[x]);
                                    if bucket.take(j as int + 1).contains(start.entities[x].name) {
                                        let grown = bucket.take(j as int + 1);
                                        let a = choose|a: int| 0 <= a < grown.len() && grown[a] == start.entities[x].name;
                                        assert(a < j);
                                        assert(bucket.take(j as int)[a] == start.entities[x].name);
                                    } else {
                                        assert(!bucket.take(j as int).contains(start.entities[x].name)) by {
                                            if bucket.take(j as int).contains(start.entities[x].name) {
                                                let a = choose|a: int| 0 <= a < j && bucket.take(j as int)[a] == start.entities[x].name;
                                                assert(bucket.take(j as int + 1)[a] == start.entities[x].name);
                                            }
                                        };
                                    }
                                } else {
                                    assert(bucket.take(j as int + 1)[j as int] == name@);
                                }
                            };
                        },
                        None => {
                            assert(views(before)[w] == before[w]@);
                            assert(has_name(views(before), name@));
                        },
                    }
                    j = j + 1;
                }
                assert(bucket.take(count as int) =~= bucket);
                assert(self.dispatched@ =~= start.dispatched + dispatches(start.topic_map, topic@, payload@));
                assert forall|x: int| 0 <= x < start.entities.len() implies bucket.contains(start.entities[x].name)
                    == (command_topic(start.entities[x]) == Some(topic@)) by {
                    let n = start.entities[x].name;
                    if bucket.contains(n) {
                        assert(routed(start.topic_map, topic@, n));
                        assert(commands_on(start.entities, topic@, n));
                        let w = choose|w: int| 0 <= w < start.entities.len() && #[trigger] start.entities[w].name == n
                            && command_topic(start.entities[w]) == Some(topic@);
                        assert(w == x);
                    }
                    if command_topic(start.entities[x]) == Some(topic@) {
                        assert(commands_on(start.entities, topic@, n));
                        assert(routed(start.topic_map, topic@, n));
                        let c = choose|c: int| 0 <= c < start.topic_map.len() && #[trigger] start.topic_map[c].0 == topic@
                            && start.topic_map[c].1.contains(n);
                        assert(c == k);
                    }
                };
                assert(views(self.entities@) =~= target);
            },
        }
        proof {
            lemma_same_routing(start.entities, target);
        }
    }

    /// Subscribes to the hub's status topic, at least once. Called each time
    /// the event loop starts.
    pub fn subscribe_status(&mut self) -> (r: Result<(), BrokerError>)
        requires
            old(self).wf(),
        ensures
            final(self).wf(),
            final(self)@ == (BrokerView {
                issued: old(self)@.issued.push(
                    MqttRequest::Subscribe {
                        topic: old(self)@.status_topic,
                        qos: rumqttc::QoS::AtLeastOnce,
                    },
                ),
                ..old(self)@
            }),
            r matches Err(BrokerError::SubscribeRefused { topic }) ==> topic@ == old(self)@.status_topic,
    {
        match self.client.subscribe(self.status_topic.as_str(), rumqttc::QoS::AtLeastOnce) {
            Ok(()) => Ok(()),
            Err(_) => Err(BrokerError::SubscribeRefused { topic: self.status_topic.clone() }),
        }
    }

    /// Handles one message from the hub. "online" on the status topic sends
    /// every discovery message again; any other text goes to the entities
    /// routed from its topic; bytes that are not UTF-8 are dropped.
    pub fn handle_publish(&mut self, topic: &str, payload: Vec<u8>) -> (r: Dispatch)
        requires
            old(self).wf(),
        ensures
            final(self).wf(),
            !valid_utf8(payload@) ==> r == Dispatch::Undecodable && final(self)@ == old(self)@,
            valid_utf8(payload@) && topic@ == old(self)@.status_topic && decode_utf8(payload@)
                == "online"@ ==> r == Dispatch::Rediscovered && discovery_resent(old(self)@, final(self)@),
            valid_utf8(payload@) && !(topic@ == old(self)@.status_topic && decode_utf8(payload@)
                == "online"@) ==> r == Dispatch::Routed && final(self)@ == (BrokerView {
                entities: old(self)@.entities.map_values(
                    |e: EntityView| after_publish(e, topic@, decode_utf8(payload@)),
                ),
                dispatched: old(self)@.dispatched + dispatches(
                    old(self)@.topic_map,
                    topic@,
                    decode_utf8(payload@),
                ),
                ..old(self)@
            }),
    {
        match text_from_utf8(payload) {
            None => Dispatch::Undecodable,
            Some(text) => {
                let online = String::from_str("online");
                let on_status = String::from_str(topic) == self.status_topic;
                if on_status && text == online {
                    self.send_all_discovery_messages();
                    Dispatch::Rediscovered
                } else {
                    self.notify_entities(topic, text.as_str());
                    Dispatch::Routed
                }
            },
        }
    }

    /// Registers `entity`: gives it a state manager for its state topic, if
    /// it has one; routes its command topic to it; publishes its discovery
    /// message; subscribes to its command topic; and keeps it under its name,
    /// in place of an entity registered before under the same name. An `Err`
    /// says that the client refused the subscription; the entity is
    /// registered all the same.
    pub fn add_entity(&mut self, entity: Entity) -> (r: Result<(), BrokerError>)
        requires
            old(self).wf(),
        ensures
            final(self).wf(),
            final(self)@.status_topic == old(self)@.status_topic,
            final(self)@.client == old(self)@.client,
            final(self)@.dispatched == old(self)@.dispatched,
            final(self)@.topic_map == routes_after_register(old(self)@.topic_map, entity@),
            final(self)@.entities == registry_with(old(self)@.entities, connected(entity@, old(self)@.client)),
            final(self)@.issued == old(self)@.issued + registration_requests(connected(entity@, old(self)@.client)),
            command_topic(entity@) is None ==> r is Ok,
            r matches Err(BrokerError::SubscribeRefused { topic }) ==> command_topic(entity@) == Some(
                topic@,
            ),
    {
        let ghost start = self@;
        let ghost given = entity@;
        let mut entity = entity;
        let id = entity.get_name();
        match entity.get_state_topic() {
            Some(state_topic) => {
                let manager = StateManager::new(self.client.shared(), state_topic, entity.get_name());
                entity.connect_state(manager);
            },
            None => {},
        }
        let ghost e2 = entity@;
        assert(e2 == connected(given, start.client));
        let routes = unroute(&self.topic_map, &id);
        self.topic_map = routes;
        let command = entity.get_command_topic();
        match &command {
            Some(ct) => add_route(&mut self.topic_map, ct.clone(), id.clone()),
            None => {},
        }
        let ghost before_requests = self.client.issued();
        publish_discovery(&mut self.client, &entity);
        let r = match command {
            Some(ct) => match self.client.subscribe(ct.as_str(), rumqttc::QoS::AtMostOnce) {
                Ok(()) => Ok(()),
                Err(_) => Err(BrokerError::SubscribeRefused { topic: ct }),
            },
            None => Ok(()),
        };
        assert(self.client.issued() =~= start.issued + registration_requests(e2));
        let ghost old_views = views(self.entities@);
        match find_entity(&self.entities, &id) {
            Some(i) => {
                self.entities.set(i, entity);
                assert(views(self.entities@) =~= old_views.update(i as int, e2));
                assert(has_name(old_views, e2.name)) by {
                    assert(old_views[i as int].name == e2.name);
                };
                assert(views(self.entities@) =~= registry_with(old_views, e2)) by {
                    assert forall|j: int| 0 <= j < old_views.len() && j != i implies old_views[j].name != e2.name by {
                        assert(old_views[i as int].name == e2.name);
                    };
                };
            },
            None => {
                self.entities.push(entity);
                assert(views(self.entities@) =~= old_views.push(e2));
            },
        }
        proof {
            lemma_register(start.entities, e2);
            let es2 = registry_with(start.entities, e2);
            assert forall|t: Seq<char>, m: Seq<char>|
                #[trigger] routed(self@.topic_map, t, m) <==> commands_on(es2, t, m) by {
                if m != e2.name {
                    assert(commands_on(start.entities, t, m) <==> routed(start.topic_map, t, m));
                }
            };
        }
        r
    }
}

} // verus!
