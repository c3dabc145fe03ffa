//! The MQTT client as the library sees it: a shared handle that accepts
//! publish and subscribe requests, and the record of every request handed to it.

use std::sync::Arc;
use vstd::prelude::*;

use crate::config::MqttQos;

verus! {

/// rumqttc's delivery levels. A field-less enum: its three variants are
/// visible, so that contracts can name the level of each request.
#[verifier::external_type_specification]
pub struct ExQoS(rumqttc::QoS);

/// rumqttc's synchronous client, carried through opaquely.
#[verifier::external_type_specification]
#[verifier::external_body]
pub struct ExClient(rumqttc::Client);

/// The error rumqttc's client returns for a request it did not queue.
#[verifier::external_type_specification]
#[verifier::external_body]
pub struct ExClientError(rumqttc::ClientError);

impl MqttQos {
    /// The client's own name for this delivery guarantee.
    pub fn to_qos(&self) -> (r: rumqttc::QoS)
        ensures
            r == self.spec_qos(),
    {
        match self {
            MqttQos::AtMostOnce => rumqttc::QoS::AtMostOnce,
            MqttQos::AtLeastOnce => rumqttc::QoS::AtLeastOnce,
            MqttQos::ExactlyOnce => rumqttc::QoS::ExactlyOnce,
        }
    }

    pub open spec fn spec_qos(&self) -> rumqttc::QoS {
        match self {
            MqttQos::AtMostOnce => rumqttc::QoS::AtMostOnce,
            MqttQos::AtLeastOnce => rumqttc::QoS::AtLeastOnce,
            MqttQos::ExactlyOnce => rumqttc::QoS::ExactlyOnce,
        }
    }
}

/// A request handed to the client.
pub enum MqttRequest {
    Publish { topic: Seq<char>, qos: rumqttc::QoS, retain: bool, payload: Seq<char> },
    Subscribe { topic: Seq<char>, qos: rumqttc::QoS },
}

/// A topic name to publish to may not hold the wildcards `+` and `#`.
pub open spec fn valid_topic(topic: Seq<char>) -> bool {
    !topic.contains('+') && !topic.contains('#')
}

/// Relies on rumqttc::Client::publish: it queues the message for the event
/// loop, and refuses a topic that holds a wildcard before queueing anything.
#[verifier::external_body]
fn client_publish(
    client: &rumqttc::Client,
    topic: &str,
    qos: rumqttc::QoS,
    retain: bool,
    payload: &str,
) -> (r: Result<(), rumqttc::ClientError>)
    ensures
        !valid_topic(topic@) ==> r is Err,
{
    client.publish(topic, qos, retain, payload)
}

/// Relies on rumqttc::Client::subscribe: it queues a subscription request for
/// the event loop.
#[verifier::external_body]
fn client_subscribe(client: &rumqttc::Client, topic: &str, qos: rumqttc::QoS) -> (r: Result<
    (),
    rumqttc::ClientError,
>) {
    client.subscribe(topic, qos)
}

/// A handle on the shared MQTT client, with the requests made through it.
#[derive(Clone)]
pub struct MqttClient {
    client: Arc<rumqttc::Client>,
    issued: Ghost<Seq<MqttRequest>>,
}

impl MqttClient {
    /// The shared client that this handle sends through.
    pub closed spec fn client(&self) -> Arc<rumqttc::Client> {
        self.client
    }

    /// Every request handed to the client through this handle, oldest first.
    pub closed spec fn issued(&self) -> Seq<MqttRequest> {
        self.issued@
    }

    pub fn new(client: Arc<rumqttc::Client>) -> (r: MqttClient)
        ensures
            r.client() == client,
            r.issued() == Seq::<MqttRequest>::empty(),
    {
        MqttClient { client, issued: Ghost(Seq::empty()) }
    }

    /// The shared client itself.
    pub fn shared(&self) -> (r: Arc<rumqttc::Client>)
        ensures
            r == self.client(),
    {
        self.client.clone()
    }

    /// Hands a message to the client. An `Err` means that the client refused
    /// it, which it does for a topic that holds a wildcard.
    pub fn publish(&mut self, topic: &str, qos: rumqttc::QoS, retain: bool, payload: &str) -> (r:
        Result<(), rumqttc::ClientError>)
        ensures
            final(self).client() == old(self).client(),
            final(self).issued() == old(self).issued().push(
                MqttRequest::Publish { topic: topic@, qos, retain, payload: payload@ },
            ),
            !valid_topic(topic@) ==> r is Err,
    {
        let r = client_publish(&self.client, topic, qos, retain, payload);
        self.issued = Ghost(
            self.issued@.push(MqttRequest::Publish { topic: topic@, qos, retain, payload: payload@ }),
        );
        r
    }

    /// Hands a subscription request to the client.
    pub fn subscribe(&mut self, topic: &str, qos: rumqttc::QoS) -> (r: Result<(), rumqttc::ClientError>)
        ensures
            final(self).client() == old(self).client(),
            final(self).issued() == old(self).issued().push(
                MqttRequest::Subscribe { topic: topic@, qos },
            ),
    {
        let r = client_subscribe(&self.client, topic, qos);
        self.issued = Ghost(self.issued@.push(MqttRequest::Subscribe { topic: topic@, qos }));
        r
    }
}

} // verus!
