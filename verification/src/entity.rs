//! The DDS entities that are discovered.
use vstd::prelude::*;

use crate::collections::KeyMap;
use crate::gid::{gid_text, hex_text};
use crate::key_expr::KeyExpr;
use crate::policies::{PoliciesView, QosPolicies};
use crate::text::{same, starts_with};

verus! {

/// How the data of an entity is routed for a partition.
pub enum RouteStatus {
    /// It is routed, with this zenoh key.
    Routed(KeyExpr),
    /// The settings do not allow to route it.
    NotAllowed,
    /// The route could not be created.
    CreationFailure(String),
    /// There is a route already, with a QoS that does not fit.
    _QoSConflict,
}

/// How the data of an entity is routed, over mathematical values.
pub enum RouteStatusView {
    Routed(Seq<char>),
    NotAllowed,
    CreationFailure(Seq<char>),
    QoSConflict,
}

impl View for RouteStatus {
    type V = RouteStatusView;

    open spec fn view(&self) -> RouteStatusView {
        match *self {
            RouteStatus::Routed(key) => RouteStatusView::Routed(key@),
            RouteStatus::NotAllowed => RouteStatusView::NotAllowed,
            RouteStatus::CreationFailure(message) => RouteStatusView::CreationFailure(message@),
            RouteStatus::_QoSConflict => RouteStatusView::QoSConflict,
        }
    }
}

impl Clone for RouteStatus {
    fn clone(&self) -> (copy: RouteStatus)
        ensures
            copy@ == self@,
    {
        match self {
            RouteStatus::Routed(key) => RouteStatus::Routed(key.clone()),
            RouteStatus::NotAllowed => RouteStatus::NotAllowed,
            RouteStatus::CreationFailure(message) => RouteStatus::CreationFailure(message.clone()),
            RouteStatus::_QoSConflict => RouteStatus::_QoSConflict,
        }
    }
}

/// A DDS participant.
pub struct DdsParticipant {
    pub key: String,
    pub qos: QosPolicies,
}

/// A DDS participant, over mathematical values.
#[verifier::ext_equal]
pub struct ParticipantView {
    pub key: Seq<char>,
    pub qos: PoliciesView,
}

impl View for DdsParticipant {
    type V = ParticipantView;

    open spec fn view(&self) -> ParticipantView {
        ParticipantView { key: self.key@, qos: self.qos@ }
    }
}

/// A DDS reader or writer.
pub struct DdsEntity {
    pub key: String,
    pub participant_key: String,
    pub topic_name: String,
    pub topic_type: String,
    pub keyless: bool,
    pub qos: QosPolicies,
    /// How it is routed for each of its partitions; for `*` where it has none.
    pub routes: KeyMap<RouteStatus>,
}

/// A DDS reader or writer, over mathematical values.
#[verifier::ext_equal]
pub struct EntityView {
    pub key: Seq<char>,
    pub participant_key: Seq<char>,
    pub topic_name: Seq<char>,
    pub topic_type: Seq<char>,
    pub keyless: bool,
    pub qos: PoliciesView,
    pub routes: Map<Seq<char>, RouteStatusView>,
}

impl View for DdsEntity {
    type V = EntityView;

    open spec fn view(&self) -> EntityView {
        EntityView {
            key: self.key@,
            participant_key: self.participant_key@,
            topic_name: self.topic_name@,
            topic_type: self.topic_type@,
            keyless: self.keyless,
            qos: self.qos@,
            routes: self.routes@,
        }
    }
}

/// What the discovery of DDS tells.
#[allow(inconsistent_fields)]
pub enum DiscoveryEvent {
    DiscoveredPublication { entity: DdsEntity },
    UndiscoveredPublication { key: String },
    DiscoveredSubscription { entity: DdsEntity },
    UndiscoveredSubscription { key: String },
    DiscoveredParticipant { entity: DdsParticipant },
    UndiscoveredParticipant { key: String },
}

/// A sample of the builtin topic of readers or of that of writers.
pub struct EndpointSample {
    /// The handle of the participant that the endpoint belongs to.
    pub participant_instance_handle: u64,
    /// Whether the endpoint is alive.
    pub alive: bool,
    pub key: [u8; 16],
    pub participant_key: [u8; 16],
    /// The name of the topic, where it is text.
    pub topic_name: Option<String>,
    /// The name of the type, where it is text.
    pub topic_type: Option<String>,
    pub qos: QosPolicies,
}

/// Whether an endpoint with this key is one of a topic without key, by the kind that the key ends in.
pub open spec fn is_keyless(key: Seq<u8>) -> bool {
    key[15] == 3 || key[15] == 4
}

/// The entity that a sample tells of.
pub open spec fn sampled_entity(sample: EndpointSample, topic_name: Seq<char>, topic_type: Seq<char>) -> EntityView {
    EntityView {
        key: hex_text(sample.key@),
        participant_key: hex_text(sample.participant_key@),
        topic_name,
        topic_type,
        keyless: is_keyless(sample.key@),
        qos: sample.qos@,
        routes: Map::empty(),
    }
}

/// What a sample tells, where `own_handle` is the handle of the bridge's participant.
/// Nothing is told of the bridge's own endpoints, nor of one that comes
/// with a builtin topic or with names that are no text.
pub fn discovery_event(sample: EndpointSample, pub_discovery: bool, own_handle: u64) -> (event: Option<DiscoveryEvent>)
    ensures
        match event {
            None => {
                ||| sample.participant_instance_handle == own_handle
                ||| sample.alive && (sample.topic_name is None || sample.topic_type is None
                    || "DCPS"@.is_prefix_of(sample.topic_name->Some_0@))
            },
            Some(told) => {
                &&& sample.participant_instance_handle != own_handle
                &&& sample.alive ==> {
                    &&& sample.topic_name is Some
                    &&& sample.topic_type is Some
                    &&& !"DCPS"@.is_prefix_of(sample.topic_name->Some_0@)
                    &&& match told {
                        DiscoveryEvent::DiscoveredPublication { entity } => pub_discovery && entity@ == sampled_entity(
                            sample,
                            sample.topic_name->Some_0@,
                            sample.topic_type->Some_0@,
                        ),
                        DiscoveryEvent::DiscoveredSubscription { entity } => !pub_discovery && entity@
                            == sampled_entity(sample, sample.topic_name->Some_0@, sample.topic_type->Some_0@),
                        _ => false,
                    }
                }
                &&& !sample.alive ==> match told {
                    DiscoveryEvent::UndiscoveredPublication { key } => pub_discovery && key@ == hex_text(sample.key@),
                    DiscoveryEvent::UndiscoveredSubscription { key } => !pub_discovery && key@ == hex_text(sample.key@),
                    _ => false,
                }
            },
        },
{
    if sample.participant_instance_handle == own_handle {
        return None;
    }
    let key: String = gid_text(sample.key.as_slice());
    if !sample.alive {
        return Some(
            if pub_discovery {
                DiscoveryEvent::UndiscoveredPublication { key }
            } else {
                DiscoveryEvent::UndiscoveredSubscription { key }
            },
        );
    }
    let participant_key: String = gid_text(sample.participant_key.as_slice());
    let keyless: bool = sample.key[15] == 3 || sample.key[15] == 4;
    match (sample.topic_name, sample.topic_type) {
        (Some(topic_name), Some(topic_type)) => {
            if starts_with(topic_name.as_str(), "DCPS") {
                return None;
            }
            let entity: DdsEntity = DdsEntity {
                key,
                participant_key,
                topic_name,
                topic_type,
                keyless,
                qos: sample.qos,
                routes: KeyMap::new(),
            };
            Some(
                if pub_discovery {
                    DiscoveryEvent::DiscoveredPublication { entity }
                } else {
                    DiscoveryEvent::DiscoveredSubscription { entity }
                },
            )
        },
        _ => None,
    }
}

/// A sample of the builtin topic of participants.
pub struct ParticipantSample {
    /// Whether the participant is alive.
    pub alive: bool,
    pub key: [u8; 16],
    pub qos: QosPolicies,
}

/// What a sample tells of a participant, where `own_guid` is the id of the bridge's participant,
/// of which nothing is told.
pub fn participant_event(sample: ParticipantSample, own_guid: &str) -> (event: Option<DiscoveryEvent>)
    ensures
        match event {
            None => hex_text(sample.key@) == own_guid@,
            Some(told) => {
                &&& hex_text(sample.key@) != own_guid@
                &&& match told {
                    DiscoveryEvent::DiscoveredParticipant { entity } => sample.alive && entity@ == (ParticipantView {
                        key: hex_text(sample.key@),
                        qos: sample.qos@,
                    }),
                    DiscoveryEvent::UndiscoveredParticipant { key } => !sample.alive && key@ == hex_text(sample.key@),
                    _ => false,
                }
            },
        },
{
    let key: String = gid_text(sample.key.as_slice());
    if same(key.as_str(), own_guid) {
        return None;
    }
    Some(
        if sample.alive {
            DiscoveryEvent::DiscoveredParticipant { entity: DdsParticipant { key, qos: sample.qos } }
        } else {
            DiscoveryEvent::UndiscoveredParticipant { key }
        },
    )
}

} // verus!
