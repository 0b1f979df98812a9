//! The routes between DDS and zenoh.
use vstd::prelude::*;

use crate::collections::KeySet;
use crate::config::Config;
use crate::key_expr::{slashed, KeyExpr};
use crate::keys::{historical_data_selector, KE_PREFIX_PUB_CACHE};
use crate::policies::{PoliciesView, QosPolicies};
use crate::qos::{History, HistoryKind, DDS_LENGTH_UNLIMITED};
use crate::qos_helpers::{
    durability_service_or_default, get_durability_service_or_default, get_history_or_default, history_or_default,
    is_transient_local, transient_local,
};
use crate::queries::{Locality, ReplyKeyExpr};
use crate::text::{concat, occurs};

verus! {

/// The handle that stands for no DDS entity.
pub const DDS_ENTITY_NULL: i32 = 0;

/// What zenoh does with a publication when the network is congested.
#[derive(Clone, Copy, Debug, PartialEq, Eq, Structural)]
pub enum CongestionControl {
    Drop,
    Block,
}

/// Publications of reliable endpoints wait, where the settings say so.
pub open spec fn congestion_for(reliable_routes_blocking: bool, reliable: bool) -> CongestionControl {
    if reliable_routes_blocking && reliable {
        CongestionControl::Block
    } else {
        CongestionControl::Drop
    }
}

/// What to do with publications, by the settings and the endpoint's reliability.
pub fn congestion_control(reliable_routes_blocking: bool, reliable: bool) -> (control: CongestionControl)
    ensures
        control == congestion_for(reliable_routes_blocking, reliable),
{
    match (reliable_routes_blocking, reliable) {
        (true, true) => CongestionControl::Block,
        _ => CongestionControl::Drop,
    }
}

/// How many publications are cached for late readers: as many as the history holds for all instances.
pub open spec fn cache_size(history: History, keyless: bool, max_instances: i32) -> usize {
    match history.kind {
        HistoryKind::KEEP_ALL => usize::MAX,
        HistoryKind::KEEP_LAST => if keyless {
            history.depth as usize
        } else if max_instances == DDS_LENGTH_UNLIMITED {
            usize::MAX
        } else if max_instances > 0 {
            if i32::MIN <= history.depth * max_instances <= i32::MAX {
                (history.depth * max_instances) as i32 as usize
            } else {
                usize::MAX
            }
        } else {
            history.depth as usize
        },
    }
}

/// How many publications are cached for late readers.
pub fn publication_cache_history(history: History, keyless: bool, max_instances: i32) -> (size: usize)
    ensures
        size == cache_size(history, keyless, max_instances),
{
    match history.kind {
        HistoryKind::KEEP_LAST => {
            if keyless {
                // only one instance
                #[verifier::truncate]
                let size: usize = history.depth as usize;
                size
            } else if max_instances == DDS_LENGTH_UNLIMITED {
                usize::MAX
            } else if max_instances > 0 {
                // one cache serves all instances, which are taken to publish equally often
                match history.depth.checked_mul(max_instances) {
                    Some(product) => {
                        #[verifier::truncate]
                        let size: usize = product as usize;
                        size
                    },
                    None => usize::MAX,
                }
            } else {
                #[verifier::truncate]
                let size: usize = history.depth as usize;
                size
            }
        },
        HistoryKind::KEEP_ALL => usize::MAX,
    }
}

/// A route from DDS to zenoh.
pub struct RouteDDSZenoh {
    /// The DDS reader that serves the route.
    pub dds_reader: i32,
    pub topic_name: String,
    pub topic_type: String,
    pub keyless: bool,
    /// How many publications are cached, where they are.
    pub cache: Option<usize>,
    /// The remote readers that the route serves, by their admin keys.
    pub remote_routed_readers: KeySet,
    /// The local writers that the route serves, by their keys.
    pub local_routed_writers: KeySet,
}

/// A route from DDS to zenoh, over mathematical values.
#[verifier::ext_equal]
pub struct RouteFromView {
    pub dds_reader: i32,
    pub topic_name: Seq<char>,
    pub topic_type: Seq<char>,
    pub keyless: bool,
    pub cache: Option<usize>,
    pub remote: Set<Seq<char>>,
    pub local: Set<Seq<char>>,
}

impl View for RouteDDSZenoh {
    type V = RouteFromView;

    open spec fn view(&self) -> RouteFromView {
        RouteFromView {
            dds_reader: self.dds_reader,
            topic_name: self.topic_name@,
            topic_type: self.topic_type@,
            keyless: self.keyless,
            cache: self.cache,
            remote: self.remote_routed_readers@,
            local: self.local_routed_writers@,
        }
    }
}

/// What has to be made outside for a route from DDS to zenoh.
pub struct RouteDDSZenohPlan {
    /// The key on which to publish.
    pub key: KeyExpr,
    pub topic_name: String,
    pub topic_type: String,
    pub keyless: bool,
    /// How many publications to cache for late readers, where they are to be cached.
    pub cache: Option<usize>,
    /// Whose queries the cache answers: not those of this bridge.
    pub queryable_origin: Locality,
    /// The QoS of the DDS reader.
    pub reader_qos: QosPolicies,
    /// How often the reader is read, as the bits of a number of single precision; where it is not told,
    /// the reader hands on its data at once.
    pub read_frequency: Option<u32>,
    pub congestion_ctrl: CongestionControl,
}

/// What has to be made outside for a route from DDS to zenoh, over mathematical values.
#[verifier::ext_equal]
pub struct RouteFromPlanView {
    pub key: Seq<char>,
    pub topic_name: Seq<char>,
    pub topic_type: Seq<char>,
    pub keyless: bool,
    pub cache: Option<usize>,
    pub queryable_origin: Locality,
    pub reader_qos: PoliciesView,
    pub read_frequency: Option<u32>,
    pub congestion_ctrl: CongestionControl,
}

impl View for RouteDDSZenohPlan {
    type V = RouteFromPlanView;

    open spec fn view(&self) -> RouteFromPlanView {
        RouteFromPlanView {
            key: self.key@,
            topic_name: self.topic_name@,
            topic_type: self.topic_type@,
            keyless: self.keyless,
            cache: self.cache,
            queryable_origin: self.queryable_origin,
            reader_qos: self.reader_qos@,
            read_frequency: self.read_frequency,
            congestion_ctrl: self.congestion_ctrl,
        }
    }
}

/// How many publications are cached for a reader with this QoS: those of a transient-local one.
pub open spec fn cache_for(qos: PoliciesView, keyless: bool) -> Option<usize> {
    if transient_local(qos) {
        Some(cache_size(history_or_default(qos), keyless, durability_service_or_default(qos).max_instances))
    } else {
        None
    }
}

/// The QoS of a reader that is read now and then: only the last sample matters.
pub open spec fn periodic_qos(qos: PoliciesView, read_frequency: Option<u32>) -> PoliciesView {
    if read_frequency is Some {
        PoliciesView { history: Some(History { kind: HistoryKind::KEEP_LAST, depth: 1 }), ..qos }
    } else {
        qos
    }
}

impl RouteDDSZenoh {
    /// How many publications are cached for a reader with this QoS, where they are.
    pub fn cache_of(reader_qos: &QosPolicies, keyless: bool) -> (cache: Option<usize>)
        ensures
            cache == cache_for(reader_qos@, keyless),
    {
        if is_transient_local(reader_qos) {
            Some(
                publication_cache_history(
                    get_history_or_default(reader_qos),
                    keyless,
                    get_durability_service_or_default(reader_qos).max_instances,
                ),
            )
        } else {
            None
        }
    }

    /// What has to be made for a new route.
    pub fn plan(
        config: &Config,
        topic_name: &String,
        topic_type: &String,
        keyless: bool,
        reader_qos: &QosPolicies,
        ke: &KeyExpr,
        congestion_ctrl: CongestionControl,
    ) -> (plan: RouteDDSZenohPlan)
        ensures
            plan@ == (RouteFromPlanView {
                key: ke@,
                topic_name: topic_name@,
                topic_type: topic_type@,
                keyless,
                cache: cache_for(reader_qos@, keyless),
                queryable_origin: Locality::Remote,
                reader_qos: periodic_qos(reader_qos@, config@.frequency_from(ke@, 0)),
                read_frequency: config@.frequency_from(ke@, 0),
                congestion_ctrl,
            }),
    {
        let cache: Option<usize> = RouteDDSZenoh::cache_of(reader_qos, keyless);
        let read_frequency: Option<u32> = config.get_read_frequency(ke);
        let mut qos: QosPolicies = reader_qos.clone();
        if read_frequency.is_some() {
            qos.history = Some(History { kind: HistoryKind::KEEP_LAST, depth: 1 });
        }
        RouteDDSZenohPlan {
            key: ke.clone(),
            topic_name: topic_name.clone(),
            topic_type: topic_type.clone(),
            keyless,
            cache,
            queryable_origin: Locality::Remote,
            reader_qos: qos,
            read_frequency,
            congestion_ctrl,
        }
    }

    /// A new route, served by the reader `dds_reader`.
    pub fn new(
        dds_reader: i32,
        topic_name: &String,
        topic_type: &String,
        keyless: bool,
        cache: Option<usize>,
    ) -> (route: RouteDDSZenoh)
        ensures
            route@ == (RouteFromView {
                dds_reader,
                topic_name: topic_name@,
                topic_type: topic_type@,
                keyless,
                cache,
                remote: Set::empty(),
                local: Set::empty(),
            }),
    {
        RouteDDSZenoh {
            dds_reader,
            topic_name: topic_name.clone(),
            topic_type: topic_type.clone(),
            keyless,
            cache,
            remote_routed_readers: KeySet::new(),
            local_routed_writers: KeySet::new(),
        }
    }

    /// Why a route fails whose key zenoh does not take.
    pub fn keyexpr_failure(topic_name: &str, key: &KeyExpr, reason: &str) -> (text: String)
        ensures
            text@ == "Route Zenoh->DDS ("@ + topic_name@ + " -> "@ + key@ + "): failed to declare KeyExpr: "@ + reason@,
    {
        let mut text: String = concat("Route Zenoh->DDS (", topic_name);
        text.append(" -> ");
        text.append(key.as_str());
        text.append("): failed to declare KeyExpr: ");
        text.append(reason);
        text
    }

    /// Why a route fails whose publications cannot be cached.
    pub fn cache_failure(key: &KeyExpr, declared: &str, reason: &str) -> (text: String)
        ensures
            text@ == "Failed create PublicationCache for key "@ + key@ + " (rid="@ + declared@ + "): "@ + reason@,
    {
        let mut text: String = concat("Failed create PublicationCache for key ", key.as_str());
        text.append(" (rid=");
        text.append(declared);
        text.append("): ");
        text.append(reason);
        text
    }

    /// How the route for `key` is shown.
    pub fn show(&self, key: &KeyExpr) -> (text: String)
        ensures
            text@ == "Route DDS->Zenoh ("@ + self.topic_name@ + " -> "@ + key@ + ")"@,
    {
        let mut text: String = concat("Route DDS->Zenoh (", self.topic_name.as_str());
        text.append(" -> ");
        text.append(key.as_str());
        text.append(")");
        text
    }

    /// Lets the route serve a remote reader.
    pub fn add_remote_routed_reader(&mut self, admin_ke: &KeyExpr)
        ensures
            final(self)@ == (RouteFromView { remote: old(self)@.remote.insert(admin_ke@), ..old(self)@ }),
    {
        self.remote_routed_readers.insert(admin_ke.to_text());
    }

    /// Lets the route no longer serve a remote reader.
    pub fn remove_remote_routed_reader(&mut self, admin_ke: &str)
        ensures
            final(self)@ == (RouteFromView { remote: old(self)@.remote.remove(admin_ke@), ..old(self)@ }),
    {
        self.remote_routed_readers.remove(admin_ke);
    }

    /// Lets the route no longer serve the remote readers in whose admin key `sub_ke` stands.
    pub fn remove_remote_routed_readers_containing(&mut self, sub_ke: &str)
        ensures
            final(self)@ == (RouteFromView {
                remote: old(self)@.remote.filter(|admin: Seq<char>| !occurs(admin, sub_ke@)),
                ..old(self)@
            }),
    {
        self.remote_routed_readers.remove_containing(sub_ke);
    }

    /// Whether the route serves a remote reader.
    pub fn has_remote_routed_reader(&self) -> (b: bool)
        ensures
            b == (self@.remote != Set::<Seq<char>>::empty()),
    {
        !self.remote_routed_readers.is_empty()
    }

    /// Whether the route serves a remote reader in whose admin key `entity_key` stands.
    pub fn is_routing_remote_reader(&self, entity_key: &str) -> (b: bool)
        ensures
            b == exists|admin: Seq<char>| self@.remote.contains(admin) && occurs(admin, entity_key@),
    {
        self.remote_routed_readers.any_containing(entity_key)
    }

    /// Lets the route serve a local writer.
    pub fn add_local_routed_writer(&mut self, entity_key: String)
        ensures
            final(self)@ == (RouteFromView { local: old(self)@.local.insert(entity_key@), ..old(self)@ }),
    {
        self.local_routed_writers.insert(entity_key);
    }

    /// Lets the route no longer serve a local writer.
    pub fn remove_local_routed_writer(&mut self, entity_key: &str)
        ensures
            final(self)@ == (RouteFromView { local: old(self)@.local.remove(entity_key@), ..old(self)@ }),
    {
        self.local_routed_writers.remove(entity_key);
    }

    /// Whether the route serves a local writer.
    pub fn has_local_routed_writer(&self) -> (b: bool)
        ensures
            b == (self@.local != Set::<Seq<char>>::empty()),
    {
        !self.local_routed_writers.is_empty()
    }
}

/// A route from zenoh to DDS.
pub struct RouteZenohDDS {
    pub topic_name: String,
    pub topic_type: String,
    pub keyless: bool,
    /// Whether the zenoh subscriber asks for what was published before.
    pub querying: bool,
    /// The DDS writer that serves the route. There is none yet where discovery is forwarded and
    /// only a local reader is known.
    pub dds_writer: i32,
    /// The remote writers that the route serves, by their admin keys.
    pub remote_routed_writers: KeySet,
    /// The local readers that the route serves, by their keys.
    pub local_routed_readers: KeySet,
}

/// A route from zenoh to DDS, over mathematical values.
#[verifier::ext_equal]
pub struct RouteToView {
    pub topic_name: Seq<char>,
    pub topic_type: Seq<char>,
    pub keyless: bool,
    pub querying: bool,
    pub dds_writer: i32,
    pub remote: Set<Seq<char>>,
    pub local: Set<Seq<char>>,
}

impl View for RouteZenohDDS {
    type V = RouteToView;

    open spec fn view(&self) -> RouteToView {
        RouteToView {
            topic_name: self.topic_name@,
            topic_type: self.topic_type@,
            keyless: self.keyless,
            querying: self.querying,
            dds_writer: self.dds_writer,
            remote: self.remote_routed_writers@,
            local: self.local_routed_readers@,
        }
    }
}

/// The zenoh subscriber of a route.
pub enum SubscriberPlan {
    /// It takes what is published from now on.
    Subscriber,
    /// It also asks, by this selector, for what was published before.
    FetchingSubscriber(KeyExpr),
}

/// The zenoh subscriber of a route, over mathematical values.
pub enum SubscriberPlanView {
    Subscriber,
    FetchingSubscriber(Seq<char>),
}

impl View for SubscriberPlan {
    type V = SubscriberPlanView;

    open spec fn view(&self) -> SubscriberPlanView {
        match *self {
            SubscriberPlan::Subscriber => SubscriberPlanView::Subscriber,
            SubscriberPlan::FetchingSubscriber(selector) => SubscriberPlanView::FetchingSubscriber(selector@),
        }
    }
}

/// What has to be made outside for a route from zenoh to DDS.
pub struct RouteZenohDDSPlan {
    /// The key to subscribe to.
    pub key: KeyExpr,
    pub topic_name: String,
    pub topic_type: String,
    pub keyless: bool,
    /// The zenoh subscriber, where there is none yet.
    pub subscriber: Option<SubscriberPlan>,
    /// Whose publications the subscriber takes: not those of this bridge, which would go round in circles.
    pub allowed_origin: Locality,
    /// Under which keys it takes what was published before.
    pub accept_replies: ReplyKeyExpr,
    /// How long its query for what was published before may take, in nanoseconds.
    pub queries_timeout: u64,
    /// The QoS of the DDS writer, where one is to be made.
    pub writer_qos: Option<QosPolicies>,
}

/// What has to be made outside for a route from zenoh to DDS, over mathematical values.
#[verifier::ext_equal]
pub struct RouteToPlanView {
    pub key: Seq<char>,
    pub topic_name: Seq<char>,
    pub topic_type: Seq<char>,
    pub keyless: bool,
    pub subscriber: Option<SubscriberPlanView>,
    pub allowed_origin: Locality,
    pub accept_replies: ReplyKeyExpr,
    pub queries_timeout: u64,
    pub writer_qos: Option<PoliciesView>,
}

impl View for RouteZenohDDSPlan {
    type V = RouteToPlanView;

    open spec fn view(&self) -> RouteToPlanView {
        RouteToPlanView {
            key: self.key@,
            topic_name: self.topic_name@,
            topic_type: self.topic_type@,
            keyless: self.keyless,
            subscriber: match self.subscriber {
                Some(plan) => Some(plan@),
                None => None,
            },
            allowed_origin: self.allowed_origin,
            accept_replies: self.accept_replies,
            queries_timeout: self.queries_timeout,
            writer_qos: optional_policies(self.writer_qos),
        }
    }
}

/// The policies of an optional QoS.
pub open spec fn optional_policies(qos: Option<QosPolicies>) -> Option<PoliciesView> {
    match qos {
        Some(q) => Some(q@),
        None => None,
    }
}

/// A copy of an optional QoS.
pub fn clone_optional_policies(qos: &Option<QosPolicies>) -> (copy: Option<QosPolicies>)
    ensures
        optional_policies(copy) == optional_policies(*qos),
{
    match qos {
        Some(q) => Some(q.clone()),
        None => None,
    }
}

/// The subscriber of a new route: where it asks for what was published before,
/// it does so of all bridges that cache publications for the route.
pub open spec fn new_subscriber(ke: Seq<char>, querying: bool) -> SubscriberPlanView {
    if querying {
        SubscriberPlanView::FetchingSubscriber(slashed(slashed(ke, KE_PREFIX_PUB_CACHE@), "*"@))
    } else {
        SubscriberPlanView::Subscriber
    }
}

impl RouteZenohDDS {
    /// The subscriber of a new route.
    pub fn plan_subscriber(ke: &KeyExpr, querying_subscriber: bool) -> (plan: SubscriberPlan)
        ensures
            plan@ == new_subscriber(ke@, querying_subscriber),
    {
        if querying_subscriber {
            SubscriberPlan::FetchingSubscriber(historical_data_selector(ke))
        } else {
            SubscriberPlan::Subscriber
        }
    }

    /// A new route, without DDS writer.
    pub fn new(
        querying_subscriber: bool,
        topic_name: &String,
        topic_type: &String,
        keyless: bool,
    ) -> (route: RouteZenohDDS)
        ensures
            route@ == (RouteToView {
                topic_name: topic_name@,
                topic_type: topic_type@,
                keyless,
                querying: querying_subscriber,
                dds_writer: DDS_ENTITY_NULL,
                remote: Set::empty(),
                local: Set::empty(),
            }),
    {
        RouteZenohDDS {
            topic_name: topic_name.clone(),
            topic_type: topic_type.clone(),
            keyless,
            querying: querying_subscriber,
            dds_writer: DDS_ENTITY_NULL,
            remote_routed_writers: KeySet::new(),
            local_routed_readers: KeySet::new(),
        }
    }

    /// Why a route fails whose subscriber cannot be made.
    pub fn subscriber_failure(key: &KeyExpr, topic_name: &str, querying: bool, reason: &str) -> (text: String)
        ensures
            text@ == "Route Zenoh->DDS ("@ + key@ + " -> "@ + topic_name@ + "): failed to create "@ + (if querying {
                "FetchingSubscriber"@
            } else {
                "Subscriber"@
            }) + ": "@ + reason@,
    {
        let mut text: String = concat("Route Zenoh->DDS (", key.as_str());
        text.append(" -> ");
        text.append(topic_name);
        text.append("): failed to create ");
        text.append(
            if querying {
                "FetchingSubscriber"
            } else {
                "Subscriber"
            },
        );
        text.append(": ");
        text.append(reason);
        text
    }

    /// How the route for `key` is shown.
    pub fn show(&self, key: &KeyExpr) -> (text: String)
        ensures
            text@ == "Route Zenoh->DDS ("@ + key@ + " -> "@ + self.topic_name@ + ")"@,
    {
        let mut text: String = concat("Route Zenoh->DDS (", key.as_str());
        text.append(" -> ");
        text.append(self.topic_name.as_str());
        text.append(")");
        text
    }

    /// Sets the DDS writer, unless there is one already. Gives back the writer that is not used, if it is not.
    pub fn set_dds_writer(&mut self, dds_writer: i32) -> (unused: Option<i32>)
        ensures
            match unused {
                None => old(self)@.dds_writer == DDS_ENTITY_NULL && final(self)@ == (RouteToView {
                    dds_writer,
                    ..old(self)@
                }),
                Some(writer) => old(self)@.dds_writer != DDS_ENTITY_NULL && writer == dds_writer && final(self)@
                    == old(self)@,
            },
    {
        if self.dds_writer == DDS_ENTITY_NULL {
            self.dds_writer = dds_writer;
            None
        } else {
            Some(dds_writer)
        }
    }

    /// Takes the DDS writer out. Gives back the writer that is to be deleted, if there was one.
    pub fn delete_dds_writer(&mut self) -> (deleted: Option<i32>)
        ensures
            final(self)@ == (RouteToView { dds_writer: DDS_ENTITY_NULL, ..old(self)@ }),
            match deleted {
                Some(writer) => old(self)@.dds_writer != DDS_ENTITY_NULL && writer == old(self)@.dds_writer,
                None => old(self)@.dds_writer == DDS_ENTITY_NULL,
            },
    {
        let writer: i32 = self.dds_writer;
        self.dds_writer = DDS_ENTITY_NULL;
        if writer != DDS_ENTITY_NULL {
            Some(writer)
        } else {
            None
        }
    }

    /// Lets the route serve a remote writer.
    pub fn add_remote_routed_writer(&mut self, admin_ke: &KeyExpr)
        ensures
            final(self)@ == (RouteToView { remote: old(self)@.remote.insert(admin_ke@), ..old(self)@ }),
    {
        self.remote_routed_writers.insert(admin_ke.to_text());
    }

    /// Lets the route no longer serve a remote writer.
    pub fn remove_remote_routed_writer(&mut self, admin_ke: &str)
        ensures
            final(self)@ == (RouteToView { remote: old(self)@.remote.remove(admin_ke@), ..old(self)@ }),
    {
        self.remote_routed_writers.remove(admin_ke);
    }

    /// Lets the route no longer serve the remote writers in whose admin key `sub_ke` stands.
    pub fn remove_remote_routed_writers_containing(&mut self, sub_ke: &str)
        ensures
            final(self)@ == (RouteToView {
                remote: old(self)@.remote.filter(|admin: Seq<char>| !occurs(admin, sub_ke@)),
                ..old(self)@
            }),
    {
        self.remote_routed_writers.remove_containing(sub_ke);
    }

    /// Whether the route serves a remote writer.
    pub fn has_remote_routed_writer(&self) -> (b: bool)
        ensures
            b == (self@.remote != Set::<Seq<char>>::empty()),
    {
        !self.remote_routed_writers.is_empty()
    }

    /// Whether the route serves a remote writer in whose admin key `entity_key` stands.
    pub fn is_routing_remote_writer(&self, entity_key: &str) -> (b: bool)
        ensures
            b == exists|admin: Seq<char>| self@.remote.contains(admin) && occurs(admin, entity_key@),
    {
        self.remote_routed_writers.any_containing(entity_key)
    }

    /// Lets the route serve a local reader.
    pub fn add_local_routed_reader(&mut self, entity_key: String)
        ensures
            final(self)@ == (RouteToView { local: old(self)@.local.insert(entity_key@), ..old(self)@ }),
    {
        self.local_routed_readers.insert(entity_key);
    }

    /// Lets the route no longer serve a local reader.
    pub fn remove_local_routed_reader(&mut self, entity_key: &str)
        ensures
            final(self)@ == (RouteToView { local: old(self)@.local.remove(entity_key@), ..old(self)@ }),
    {
        self.local_routed_readers.remove(entity_key);
    }

    /// Whether the route serves a local reader.
    pub fn has_local_routed_reader(&self) -> (b: bool)
        ensures
            b == (self@.local != Set::<Seq<char>>::empty()),
    {
        !self.local_routed_readers.is_empty()
    }
}

/// How often delivery of data that came before the DDS writer is tried again.
pub const DELIVERY_RETRIES: u32 = 29;

/// How long to wait before each try, in milliseconds.
pub const DELIVERY_RETRY_PERIOD_MS: u64 = 100;

/// What to do with data that arrived for DDS.
#[derive(Clone, Copy, Debug, PartialEq, Eq, Structural)]
pub enum Delivery {
    /// Hand it to this DDS writer.
    Write(i32),
    /// Wait, and try for the given time.
    Retry(u32),
    /// Drop it.
    Discard,
}

/// What to do with data after `tries` tries that found no DDS writer, where the writer now is `dds_writer`.
pub fn delivery(dds_writer: i32, tries: u32) -> (delivery: Delivery)
    ensures
        delivery == (if dds_writer != DDS_ENTITY_NULL {
            Delivery::Write(dds_writer)
        } else if tries < DELIVERY_RETRIES {
            Delivery::Retry((tries + 1) as u32)
        } else {
            Delivery::Discard
        }),
{
    if dds_writer != DDS_ENTITY_NULL {
        Delivery::Write(dds_writer)
    } else if tries < DELIVERY_RETRIES {
        // the data may have come before the discovery that makes the writer
        Delivery::Retry(tries + 1)
    } else {
        Delivery::Discard
    }
}

} // verus!
