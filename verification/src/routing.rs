//! The routing of an endpoint: one route for each of its partitions.
//!
//! The making of readers, writers, publishers and subscribers is done outside. A job tells what to make next,
//! and takes what came of it.
use vstd::prelude::*;

use crate::collections::{KeyMap, KeySet};
use crate::entity::{DdsEntity, EntityView, RouteStatus, RouteStatusView};
use crate::key_expr::{is_joinable, joinable, optional_key, InvalidKeyExpr, KeyExpr};
use crate::policies::QosPolicies;
use crate::qos_helpers::{in_partition, no_partition, partition_contains, partition_is_empty};
use crate::queries::{Locality, ReplyKeyExpr};
use crate::routes::{
    clone_optional_policies, new_subscriber, optional_policies, RouteDDSZenoh, RouteFromView,
    RouteToPlanView, RouteToView, RouteZenohDDS, RouteZenohDDSPlan, SubscriberPlan,
    DDS_ENTITY_NULL,
};
use crate::runtime::{topic_key, topic_text, DdsPluginRuntime, RuntimeView};
use crate::text::{concat, optional_text, same, texts};

verus! {

/// A partition of an endpoint, and the zenoh key for it.
pub struct RouteTarget {
    pub partition: Option<String>,
    pub key: KeyExpr,
}

/// A partition of an endpoint, and the zenoh key for it, over mathematical values.
pub struct TargetView {
    pub partition: Option<Seq<char>>,
    pub key: Seq<char>,
}

impl View for RouteTarget {
    type V = TargetView;

    open spec fn view(&self) -> TargetView {
        TargetView { partition: optional_text(self.partition), key: self.key@ }
    }
}

impl TargetView {
    /// The name under which an endpoint keeps how it is routed: the partition, or `*`.
    pub open spec fn label(self) -> Seq<char> {
        match self.partition {
            Some(p) => p,
            None => "*"@,
        }
    }
}

/// The targets of a list.
pub open spec fn target_views(targets: Seq<RouteTarget>) -> Seq<TargetView> {
    targets.map_values(|t: RouteTarget| t@)
}

/// The partitions for which an endpoint is routed: each that it tells, or none.
pub open spec fn routed_partitions(partition: Option<Seq<Seq<char>>>) -> Seq<Option<Seq<char>>> {
    if no_partition(partition) {
        seq![None]
    } else {
        partition->Some_0.map_values(|p: Seq<char>| Some(p))
    }
}

/// Whether there is a zenoh key for a topic in a partition.
pub open spec fn mappable(topic_name: Seq<char>, scope: Option<Seq<char>>, partition: Option<Seq<char>>) -> bool {
    &&& scope is Some ==> joinable(topic_text(topic_name, partition))
    &&& topic_key(topic_name, scope, partition) is Some
}

/// Whether there are zenoh keys for all partitions of an endpoint.
pub open spec fn routable(e: EntityView, scope: Option<Seq<char>>) -> bool {
    forall|i: int|
        0 <= i < routed_partitions(e.qos.partition).len() ==> mappable(
            e.topic_name,
            scope,
            #[trigger] routed_partitions(e.qos.partition)[i],
        )
}

/// The partitions of an endpoint, with the zenoh key for each.
pub open spec fn targets_of(e: EntityView, scope: Option<Seq<char>>) -> Seq<TargetView> {
    routed_partitions(e.qos.partition).map_values(
        |p: Option<Seq<char>>| TargetView { partition: p, key: topic_key(e.topic_name, scope, p)->Some_0 },
    )
}

/// The partition of an endpoint and the zenoh key for it, if there is one.
fn route_target(topic_name: &String, scope: &Option<KeyExpr>, partition: Option<String>) -> (target: Result<
    RouteTarget,
    InvalidKeyExpr,
>)
    ensures
        target is Ok <==> mappable(topic_name@, optional_key(*scope), optional_text(partition)),
        target matches Ok(t) ==> t@ == (TargetView {
            partition: optional_text(partition),
            key: topic_key(topic_name@, optional_key(*scope), optional_text(partition))->Some_0,
        }),
{
    if scope.is_some() {
        let topic: String = match &partition {
            Some(part) => {
                let mut text: String = concat(part.as_str(), "/");
                text.append(topic_name.as_str());
                text
            },
            None => topic_name.clone(),
        };
        if !is_joinable(topic.as_str()) {
            return Err(InvalidKeyExpr);
        }
    }
    match DdsPluginRuntime::topic_to_keyexpr(topic_name.as_str(), scope, partition.as_ref()) {
        Ok(key) => Ok(RouteTarget { partition, key }),
        Err(e) => Err(e),
    }
}

/// The partitions of an endpoint, with the zenoh key for each; fails where one has no key.
pub fn route_targets(entity: &DdsEntity, scope: &Option<KeyExpr>) -> (targets: Result<Vec<RouteTarget>, InvalidKeyExpr>)
    ensures
        targets is Ok <==> routable(entity@, optional_key(*scope)),
        targets matches Ok(list) ==> target_views(list@) == targets_of(entity@, optional_key(*scope)),
{
    let ghost parts = routed_partitions(entity@.qos.partition);
    let ghost s = optional_key(*scope);
    let mut list: Vec<RouteTarget> = Vec::new();
    if partition_is_empty(&entity.qos.partition) {
        assert(parts.len() == 1 && parts[0] is None);
        match route_target(&entity.topic_name, scope, None) {
            Ok(target) => {
                list.push(target);
                assert(target_views(list@) =~= targets_of(entity@, s));
                Ok(list)
            },
            Err(e) => {
                assert(!mappable(entity@.topic_name, s, parts[0]));
                Err(e)
            },
        }
    } else {
        match &entity.qos.partition {
            None => Ok(list),
            Some(partitions) => {
                assert(parts.len() == partitions@.len());
                let mut i: usize = 0;
                while i < partitions.len()
                    invariant
                        i <= partitions@.len(),
                        entity.qos.partition == Some(*partitions),
                        parts == routed_partitions(entity@.qos.partition),
                        parts == texts(partitions@).map_values(|p: Seq<char>| Some(p)),
                        s == optional_key(*scope),
                        list@.len() == i,
                        forall|j: int| 0 <= j < i ==> mappable(entity@.topic_name, s, #[trigger] parts[j]),
                        forall|j: int| 0 <= j < i ==> #[trigger] list@[j]@ == targets_of(entity@, s)[j],
                    decreases partitions@.len() - i,
                {
                    assert(parts[i as int] == Some(partitions@[i as int]@));
                    match route_target(&entity.topic_name, scope, Some(partitions[i].clone())) {
                        Ok(target) => {
                            assert(target@ == targets_of(entity@, s)[i as int]);
                            list.push(target);
                        },
                        Err(e) => {
                            assert(!mappable(entity@.topic_name, s, parts[i as int]));
                            return Err(e);
                        },
                    }
                    i += 1;
                }
                assert(target_views(list@) =~= targets_of(entity@, s));
                Ok(list)
            },
        }
    }
}

/// What came of making something outside: the handle of a DDS entity, or why it failed.
pub open spec fn outcome_view(outcome: Option<Result<i32, String>>) -> Option<Result<i32, Seq<char>>> {
    match outcome {
        Some(Ok(handle)) => Some(Ok(handle)),
        Some(Err(message)) => Some(Err(message@)),
        None => None,
    }
}

/// Whether a local endpoint is one for the topic and the partition.
pub open spec fn serves(e: EntityView, topic_name: Seq<char>, partition: Option<Seq<char>>) -> bool {
    &&& e.topic_name == topic_name
    &&& match partition {
        Some(p) => in_partition(e.qos.partition, p),
        None => no_partition(e.qos.partition),
    }
}

/// The endpoints, those for the topic and the partition being routed as `status` says.
pub open spec fn linked(
    endpoints: Map<Seq<char>, EntityView>,
    topic_name: Seq<char>,
    target: TargetView,
    status: RouteStatusView,
) -> Map<Seq<char>, EntityView> {
    endpoints.map_values(
        |e: EntityView|
            if serves(e, topic_name, target.partition) {
                EntityView { routes: e.routes.insert(target.label(), status), ..e }
            } else {
                e
            },
    )
}

/// The keys of the endpoints for the topic and the partition.
pub open spec fn serving_keys(
    endpoints: Map<Seq<char>, EntityView>,
    topic_name: Seq<char>,
    partition: Option<Seq<char>>,
) -> Set<Seq<char>> {
    Set::new(|k: Seq<char>| endpoints.contains_key(k) && serves(endpoints[k], topic_name, partition))
}

/// The name under which an endpoint keeps how it is routed.
pub(crate) fn label_of(target: &RouteTarget) -> (label: String)
    ensures
        label@ == target@.label(),
{
    match &target.partition {
        Some(p) => p.clone(),
        None => String::from_str("*"),
    }
}

/// Lets the endpoints for the topic and the partition be routed as `status` says. Gives back their keys.
pub(crate) fn link_endpoints(
    endpoints: &mut KeyMap<DdsEntity>,
    topic_name: &String,
    target: &RouteTarget,
    status: &RouteStatus,
    keys: &mut KeySet,
)
    requires
        forall|k: Seq<char>| #[trigger] old(endpoints)@.contains_key(k) ==> old(endpoints)@[k].key == k,
    ensures
        final(endpoints)@ == linked(old(endpoints)@, topic_name@, target@, status@),
        final(keys)@ == old(keys)@.union(serving_keys(old(endpoints)@, topic_name@, target@.partition)),
{
    let ghost all = endpoints@;
    let ghost before = keys@;
    let mut rest: KeyMap<DdsEntity> = KeyMap::new();
    std::mem::swap(&mut rest, endpoints);
    let n: usize = rest.len();
    loop
        invariant
            forall|k: Seq<char>| #[trigger] all.contains_key(k) ==> all[k].key == k,
            forall|k: Seq<char>| #[trigger] rest@.contains_key(k) ==> all.contains_key(k) && rest@[k] == all[k],
            forall|k: Seq<char>| #[trigger]
                endpoints@.contains_key(k) <==> all.contains_key(k) && !rest@.contains_key(k),
            forall|k: Seq<char>| #[trigger]
                endpoints@.contains_key(k) ==> endpoints@[k] == linked(all, topic_name@, target@, status@)[k],
            forall|k: Seq<char>| #[trigger]
                keys@.contains(k) <==> before.contains(k) || (all.contains_key(k) && !rest@.contains_key(k) && serves(
                    all[k],
                    topic_name@,
                    target@.partition,
                )),
        ensures
            rest@ == Map::<Seq<char>, EntityView>::empty(),
        decreases rest.order().len(),
    {
        match rest.pop() {
            Some((key, entity)) => {
                let mut entity: DdsEntity = entity;
                let in_place: bool = match &target.partition {
                    Some(p) => partition_contains(&entity.qos.partition, p),
                    None => partition_is_empty(&entity.qos.partition),
                };
                if same(entity.topic_name.as_str(), topic_name.as_str()) && in_place {
                    keys.insert(entity.key.clone());
                    entity.routes.insert(label_of(target), status.clone());
                }
                endpoints.insert(key, entity);
            },
            None => {
                break;
            },
        }
    }
    assert(endpoints@ =~= linked(all, topic_name@, target@, status@));
    assert(keys@ =~= before.union(serving_keys(all, topic_name@, target@.partition)));
}

impl RuntimeView {
    /// Whether a route from DDS has to be made for `ke`.
    pub open spec fn needs_route_from(self, ke: Seq<char>) -> bool {
        self.config.allows(ke) && !self.routes_from.contains_key(ke)
    }

    /// How data from DDS is routed to `ke`, where making the route came to `outcome`.
    pub open spec fn status_from(self, ke: Seq<char>, outcome: Option<Result<i32, Seq<char>>>) -> RouteStatusView {
        if !self.config.allows(ke) {
            RouteStatusView::NotAllowed
        } else if self.routes_from.contains_key(ke) {
            RouteStatusView::Routed(ke)
        } else {
            match outcome {
                Some(Err(message)) => RouteStatusView::CreationFailure(message),
                _ => RouteStatusView::Routed(ke),
            }
        }
    }

    /// With the route from DDS to `ke` where it had to be made and making it succeeded.
    pub open spec fn tried_route_from(
        self,
        ke: Seq<char>,
        topic_name: Seq<char>,
        topic_type: Seq<char>,
        keyless: bool,
        cache: Option<usize>,
        outcome: Option<Result<i32, Seq<char>>>,
    ) -> RuntimeView {
        match outcome {
            Some(Ok(dds_reader)) if self.needs_route_from(ke) => self.with_route_from(
                ke,
                RouteFromView {
                    dds_reader,
                    topic_name,
                    topic_type,
                    keyless,
                    cache,
                    remote: Set::empty(),
                    local: Set::empty(),
                },
            ),
            _ => self,
        }
    }

    /// Whether something has to be made for a route from `ke` to DDS: the route, or the writer
    /// that a route may lack.
    pub open spec fn needs_route_to(self, ke: Seq<char>, wants_writer: bool) -> bool {
        self.config.allows(ke) && (!self.routes_to.contains_key(ke) || (wants_writer && self.routes_to[ke].dds_writer
            == DDS_ENTITY_NULL))
    }

    /// How data for DDS is routed from `ke`, where making what is needed came to `outcome`.
    pub open spec fn status_to(
        self,
        ke: Seq<char>,
        wants_writer: bool,
        outcome: Option<Result<i32, Seq<char>>>,
    ) -> RouteStatusView {
        if !self.config.allows(ke) {
            RouteStatusView::NotAllowed
        } else if !self.needs_route_to(ke, wants_writer) {
            RouteStatusView::Routed(ke)
        } else {
            match outcome {
                Some(Err(message)) => RouteStatusView::CreationFailure(message),
                _ => RouteStatusView::Routed(ke),
            }
        }
    }

    /// With the route from `ke` to DDS, or its writer, where it had to be made and making it succeeded.
    pub open spec fn tried_route_to(
        self,
        ke: Seq<char>,
        topic_name: Seq<char>,
        topic_type: Seq<char>,
        keyless: bool,
        querying: bool,
        wants_writer: bool,
        outcome: Option<Result<i32, Seq<char>>>,
    ) -> RuntimeView {
        match outcome {
            Some(Ok(writer)) if self.needs_route_to(ke, wants_writer) => if self.routes_to.contains_key(ke) {
                RuntimeView {
                    routes_to: self.routes_to.insert(ke, RouteToView { dds_writer: writer, ..self.routes_to[ke] }),
                    ..self
                }
            } else {
                self.with_route_to(
                    ke,
                    RouteToView {
                        topic_name,
                        topic_type,
                        keyless,
                        querying,
                        dds_writer: if wants_writer {
                            writer
                        } else {
                            DDS_ENTITY_NULL
                        },
                        remote: Set::empty(),
                        local: Set::empty(),
                    },
                )
            },
            _ => self,
        }
    }

    /// With the route from DDS to `ke` serving more endpoints.
    pub open spec fn serving_from(self, ke: Seq<char>, remote: Set<Seq<char>>, local: Set<Seq<char>>) -> RuntimeView {
        let r = self.routes_from[ke];
        RuntimeView {
            routes_from: self.routes_from.insert(
                ke,
                RouteFromView { remote: r.remote.union(remote), local: r.local.union(local), ..r },
            ),
            ..self
        }
    }

    /// With the route from `ke` to DDS serving more endpoints.
    pub open spec fn serving_to(self, ke: Seq<char>, remote: Set<Seq<char>>, local: Set<Seq<char>>) -> RuntimeView {
        let r = self.routes_to[ke];
        RuntimeView {
            routes_to: self.routes_to.insert(
                ke,
                RouteToView { remote: r.remote.union(remote), local: r.local.union(local), ..r },
            ),
            ..self
        }
    }
}

impl DdsPluginRuntime {
    /// Whether a route from DDS has to be made for `ke`.
    pub fn needs_route_from_dds(&self, ke: &KeyExpr) -> (needed: bool)
        ensures
            needed == self@.needs_route_from(ke@),
    {
        self.is_allowed(ke) && !self.routes_from_dds.contains_key(ke.as_str())
    }

    /// Adds a route from DDS to `ke` unless there is one, where `ke` may be routed and making the route succeeded.
    /// Nothing is done, and nothing given back, where the route has to be made and no outcome is told.
    pub fn try_add_route_from_dds(
        &mut self,
        ke: &KeyExpr,
        topic_name: &String,
        topic_type: &String,
        keyless: bool,
        cache: Option<usize>,
        outcome: Option<Result<i32, String>>,
    ) -> (status: Option<RouteStatus>)
        requires
            old(self)@.wf(),
        ensures
            final(self)@ == old(self)@.tried_route_from(
                ke@,
                topic_name@,
                topic_type@,
                keyless,
                cache,
                outcome_view(outcome),
            ),
            status is None <==> old(self)@.needs_route_from(ke@) && outcome is None,
            status matches Some(st) ==> st@ == old(self)@.status_from(ke@, outcome_view(outcome)),
            final(self)@.wf(),
    {
        if !self.is_allowed(ke) {
            return Some(RouteStatus::NotAllowed);
        }
        if self.routes_from_dds.contains_key(ke.as_str()) {
            return Some(RouteStatus::Routed(ke.clone()));
        }
        match outcome {
            Some(Ok(dds_reader)) => {
                let route: RouteDDSZenoh = RouteDDSZenoh::new(dds_reader, topic_name, topic_type, keyless, cache);
                // its text is a key expression
                let _text: &str = ke.as_str();
                self.insert_route_from_dds(ke, route);
                Some(RouteStatus::Routed(ke.clone()))
            },
            Some(Err(message)) => Some(RouteStatus::CreationFailure(message)),
            None => None,
        }
    }

    /// What has to be made for a route from `ke` to DDS, if anything.
    pub fn plan_route_to_dds(
        &self,
        ke: &KeyExpr,
        topic_name: &String,
        topic_type: &String,
        keyless: bool,
        querying: bool,
        writer_qos: &Option<QosPolicies>,
    ) -> (plan: Option<RouteZenohDDSPlan>)
        ensures
            plan is Some <==> self@.needs_route_to(ke@, writer_qos is Some),
            plan matches Some(p) ==> p@ == (RouteToPlanView {
                key: ke@,
                topic_name: topic_name@,
                topic_type: topic_type@,
                keyless,
                subscriber: if self@.routes_to.contains_key(ke@) {
                    None
                } else {
                    Some(new_subscriber(ke@, querying))
                },
                allowed_origin: Locality::Remote,
                accept_replies: ReplyKeyExpr::Any,
                queries_timeout: self@.config.queries_timeout,
                writer_qos: optional_policies(*writer_qos),
            }),
    {
        if !self.is_allowed(ke) {
            return None;
        }
        let subscriber: Option<SubscriberPlan> = match self.routes_to_dds.get(ke.as_str()) {
            Some(route) => {
                if writer_qos.is_none() || route.dds_writer != DDS_ENTITY_NULL {
                    return None;
                }
                None
            },
            None => Some(RouteZenohDDS::plan_subscriber(ke, querying)),
        };
        Some(
            RouteZenohDDSPlan {
                key: ke.clone(),
                topic_name: topic_name.clone(),
                topic_type: topic_type.clone(),
                keyless,
                subscriber,
                allowed_origin: Locality::Remote,
                accept_replies: ReplyKeyExpr::Any,
                queries_timeout: self.config.queries_timeout,
                writer_qos: clone_optional_policies(writer_qos),
            },
        )
    }

    /// Adds a route from `ke` to DDS unless there is one, or the writer that it lacks where one is wanted,
    /// where `ke` may be routed and making that succeeded.
    /// Nothing is done, and nothing given back, where something has to be made and no outcome is told.
    pub fn try_add_route_to_dds(
        &mut self,
        ke: &KeyExpr,
        topic_name: &String,
        topic_type: &String,
        keyless: bool,
        querying: bool,
        wants_writer: bool,
        outcome: Option<Result<i32, String>>,
    ) -> (status: Option<RouteStatus>)
        requires
            old(self)@.wf(),
        ensures
            final(self)@ == old(self)@.tried_route_to(
                ke@,
                topic_name@,
                topic_type@,
                keyless,
                querying,
                wants_writer,
                outcome_view(outcome),
            ),
            status is None <==> old(self)@.needs_route_to(ke@, wants_writer) && outcome is None,
            status matches Some(st) ==> st@ == old(self)@.status_to(ke@, wants_writer, outcome_view(outcome)),
            final(self)@.wf(),
    {
        if !self.is_allowed(ke) {
            return Some(RouteStatus::NotAllowed);
        }
        let known: bool = match self.routes_to_dds.get(ke.as_str()) {
            Some(route) => {
                if !wants_writer || route.dds_writer != DDS_ENTITY_NULL {
                    return Some(RouteStatus::Routed(ke.clone()));
                }
                true
            },
            None => false,
        };
        match outcome {
            Some(Ok(dds_writer)) => {
                if known {
                    if let Some(route) = self.routes_to_dds.remove(ke.as_str()) {
                        let mut route: RouteZenohDDS = route;
                        let _unused: Option<i32> = route.set_dds_writer(dds_writer);
                        self.routes_to_dds.insert(ke.to_text(), route);
                    }
                    assert(self@ =~= old(self)@.tried_route_to(
                        ke@,
                        topic_name@,
                        topic_type@,
                        keyless,
                        querying,
                        wants_writer,
                        outcome_view(outcome),
                    ));
                } else {
                    let mut route: RouteZenohDDS = RouteZenohDDS::new(querying, topic_name, topic_type, keyless);
                    if wants_writer {
                        let _unused: Option<i32> = route.set_dds_writer(dds_writer);
                    }
                    self.insert_route_to_dds(ke, route);
                }
                Some(RouteStatus::Routed(ke.clone()))
            },
            Some(Err(message)) => Some(RouteStatus::CreationFailure(message)),
            None => None,
        }
    }
}

} // verus!
