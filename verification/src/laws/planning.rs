//! How an endpoint is routed: with which QoS, under which keys, and by what has to be made.
use vstd::prelude::*;

use crate::entity::EntityView;
use crate::jobs::{remote_writer_job, FromJobView, ToJobView};
use crate::key_expr::{joinable, joined_key_expr, valid_key_expr};
use crate::pattern::regex_matches;
use crate::policies::{
    proxy_reader_qos, proxy_writer_qos, reader_qos_for_writer, writer_qos_for_reader, IgnoreLocal, IgnoreLocalKind,
    PoliciesView,
};
use crate::qos::{DurabilityKind, History, HistoryKind, ReliabilityKind};
use crate::queries::{Locality, ReplyKeyExpr};
use crate::routes::{CongestionControl, SubscriberPlanView};
use crate::routing::{outcome_view, routable, targets_of};
use crate::runtime::{topic_key, RuntimeView};

verus! {

/// Whether two endpoints agree in what an endpoint and the one that stands for it have in common: in every policy
/// that decides whether readers and writers meet, but for the reliability, and in the data that they carry.
pub open spec fn agree(one: PoliciesView, other: PoliciesView) -> bool {
    &&& one.durability == other.durability
    &&& one.presentation == other.presentation
    &&& one.deadline == other.deadline
    &&& one.latency_budget == other.latency_budget
    &&& one.ownership == other.ownership
    &&& one.liveliness == other.liveliness
    &&& one.destination_order == other.destination_order
    &&& one.history == other.history
    &&& one.resource_limits == other.resource_limits
    &&& one.partition == other.partition
    &&& one.user_data == other.user_data
    &&& one.topic_data == other.topic_data
    &&& one.group_data == other.group_data
    &&& one.type_consistency == other.type_consistency
    &&& one.data_representation == other.data_representation
}

/// The reader for a local writer meets the writer: it agrees with it, and is as reliable as the writer tells,
/// or best effort where it tells nothing. What applies to writers only, or names the writer, is left out,
/// and what applies to readers only stays.
pub proof fn law_reader_meets_writer(qos: PoliciesView)
    ensures
        ({
            let reader = reader_qos_for_writer(qos);
            &&& agree(reader, qos)
            &&& reader.reliability is Some
            &&& qos.reliability is Some ==> reader.reliability == qos.reliability
            &&& qos.reliability is None ==> reader.reliability->Some_0.kind == ReliabilityKind::BEST_EFFORT
                && reader.reliability->Some_0.max_blocking_time == 100_000_000
            &&& reader.durability_service is None
            &&& reader.ownership_strength is None
            &&& reader.transport_priority is None
            &&& reader.lifespan is None
            &&& reader.writer_data_lifecycle is None
            &&& reader.writer_batching is None
            &&& reader.properties is None
            &&& reader.entity_name is None
            &&& reader.ignore_local is None
            &&& reader.time_based_filter == qos.time_based_filter
            &&& reader.reader_data_lifecycle == qos.reader_data_lifecycle
        }),
{
}

/// The writer for a local reader meets the reader: it agrees with it, and is as reliable as the reader tells, or best
/// effort where it tells nothing, blocking one nanosecond longer where that is possible. It ignores the readers
/// of the bridge. For a transient-local reader it keeps, for a minute and without limits, the history that the reader asks
/// for, or the last sample. What applies to readers only, or names the reader, is left out.
pub proof fn law_writer_meets_reader(qos: PoliciesView)
    ensures
        ({
            let writer = writer_qos_for_reader(qos);
            let late = qos.durability is Some && qos.durability->Some_0.kind == DurabilityKind::TRANSIENT_LOCAL;
            let service = writer.durability_service->Some_0;
            &&& agree(writer, qos)
            &&& writer.reliability is Some
            &&& qos.reliability is Some ==> writer.reliability->Some_0.kind == qos.reliability->Some_0.kind
            &&& qos.reliability is None ==> writer.reliability->Some_0.kind == ReliabilityKind::BEST_EFFORT
                && writer.reliability->Some_0.max_blocking_time == 100_000_001
            &&& qos.reliability is Some && qos.reliability->Some_0.max_blocking_time < i64::MAX
                ==> writer.reliability->Some_0.max_blocking_time == qos.reliability->Some_0.max_blocking_time + 1
            &&& qos.reliability is Some && qos.reliability->Some_0.max_blocking_time == i64::MAX
                ==> writer.reliability->Some_0.max_blocking_time == i64::MAX
            &&& writer.ignore_local == Some(IgnoreLocal { kind: IgnoreLocalKind::PARTICIPANT })
            &&& late ==> {
                &&& writer.durability_service is Some
                &&& service.service_cleanup_delay == 60_000_000_000
                &&& qos.history is Some ==> service.history_kind == qos.history->Some_0.kind && service.history_depth
                    == qos.history->Some_0.depth
                &&& qos.history is None ==> service.history_kind == HistoryKind::KEEP_LAST && service.history_depth == 1
                &&& service.max_samples == -1
                &&& service.max_instances == -1
                &&& service.max_samples_per_instance == -1
            }
            &&& !late ==> writer.durability_service == qos.durability_service
            &&& writer.time_based_filter is None
            &&& writer.reader_data_lifecycle is None
            &&& writer.properties is None
            &&& writer.entity_name is None
            &&& writer.ownership_strength == qos.ownership_strength
            &&& writer.transport_priority == qos.transport_priority
            &&& writer.lifespan == qos.lifespan
            &&& writer.writer_data_lifecycle == qos.writer_data_lifecycle
            &&& writer.writer_batching == qos.writer_batching
        }),
{
}

/// The replica of an endpoint is like it in all but its name and its properties, and in what it ignores:
/// the replica of a writer ignores the readers of the bridge, and that of a reader ignores nothing.
pub proof fn law_replica_is_like_its_endpoint(qos: PoliciesView)
    ensures
        proxy_writer_qos(qos).properties is None,
        proxy_writer_qos(qos).entity_name is None,
        proxy_writer_qos(qos).ignore_local == Some(IgnoreLocal { kind: IgnoreLocalKind::PARTICIPANT }),
        (PoliciesView {
            properties: qos.properties,
            entity_name: qos.entity_name,
            ignore_local: qos.ignore_local,
            ..proxy_writer_qos(qos)
        }) == qos,
        proxy_reader_qos(qos).properties is None,
        proxy_reader_qos(qos).entity_name is None,
        proxy_reader_qos(qos).ignore_local is None,
        (PoliciesView {
            properties: qos.properties,
            entity_name: qos.entity_name,
            ignore_local: qos.ignore_local,
            ..proxy_reader_qos(qos)
        }) == qos,
{
}

/// The routing of a local writer begins with nothing done. Its publications block exactly where the settings let reliable
/// routes block and the writer is reliable or tells nothing of that. The readers to make agree with the writer
/// and are as reliable as it tells. It is routed for the scope of the settings, and shown
/// as `participant/<participant>/writer/<key>/<topic>`.
pub proof fn law_local_writer_is_routed_as_it_is(s: RuntimeView, e: EntityView)
    ensures
        ({
            let job = s.local_writer_job(e);
            &&& job.entity == e
            &&& !job.remote
            &&& job.next == 0
            &&& job.admin == "participant/"@ + e.participant_key + "/writer/"@ + e.key + "/"@ + e.topic_name
            &&& job.targets == targets_of(e, s.config.scope)
            &&& job.congestion_ctrl == CongestionControl::Block <==> {
                &&& s.config.reliable_routes_blocking
                &&& e.qos.reliability is None || e.qos.reliability->Some_0.kind == ReliabilityKind::RELIABLE
            }
            &&& agree(job.qos, e.qos)
            &&& job.qos.reliability is Some
            &&& e.qos.reliability is Some ==> job.qos.reliability == e.qos.reliability
            &&& e.qos.reliability is None ==> job.qos.reliability->Some_0.kind == ReliabilityKind::BEST_EFFORT
            &&& job.qos.ignore_local is None
        }),
{
}

/// The routing of a local reader begins with nothing done. Where discovery is not forwarded, a writer is to be made
/// that meets the reader: it agrees with it, is as reliable as the reader tells, and ignores the readers of the bridge.
/// Where discovery is forwarded, none is made. What was published before is asked for exactly for a transient-local reader.
/// It is routed for the scope of the settings, and shown as `participant/<participant>/reader/<key>/<topic>`.
pub proof fn law_local_reader_is_routed_as_it_is(s: RuntimeView, e: EntityView)
    ensures
        ({
            let job = s.local_reader_job(e);
            let qos = job.qos->Some_0;
            &&& job.entity == e
            &&& !job.remote
            &&& job.next == 0
            &&& job.admin == "participant/"@ + e.participant_key + "/reader/"@ + e.key + "/"@ + e.topic_name
            &&& job.targets == targets_of(e, s.config.scope)
            &&& job.querying <==> e.qos.durability is Some && e.qos.durability->Some_0.kind
                == DurabilityKind::TRANSIENT_LOCAL
            &&& job.qos is None <==> s.config.forward_discovery
            &&& !s.config.forward_discovery ==> {
                &&& agree(qos, e.qos)
                &&& qos.reliability is Some
                &&& e.qos.reliability is Some ==> qos.reliability->Some_0.kind == e.qos.reliability->Some_0.kind
                &&& e.qos.reliability is None ==> qos.reliability->Some_0.kind == ReliabilityKind::BEST_EFFORT
                &&& qos.ignore_local == Some(IgnoreLocal { kind: IgnoreLocalKind::PARTICIPANT })
            }
        }),
{
}

/// The routing of the replica of a remote writer begins with nothing done, for the scope that came with it and under
/// its admin key. A writer is to be made that agrees with it, has its reliability, and ignores the readers
/// of the bridge. What was published before is asked for exactly for a transient-local writer.
pub proof fn law_remote_writer_is_routed_as_it_is(e: EntityView, scope: Option<Seq<char>>, admin: Seq<char>)
    ensures
        ({
            let job = remote_writer_job(e, scope, admin);
            let qos = job.qos->Some_0;
            &&& job.entity == e
            &&& job.remote
            &&& job.next == 0
            &&& job.admin == admin
            &&& job.targets == targets_of(e, scope)
            &&& job.querying <==> e.qos.durability is Some && e.qos.durability->Some_0.kind
                == DurabilityKind::TRANSIENT_LOCAL
            &&& job.qos is Some
            &&& agree(qos, e.qos)
            &&& qos.reliability == e.qos.reliability
            &&& qos.durability_service == e.qos.durability_service
            &&& qos.ignore_local == Some(IgnoreLocal { kind: IgnoreLocalKind::PARTICIPANT })
        }),
{
}

/// The routing of the replica of a remote reader begins with nothing done, for the scope that came with it and under
/// its admin key. A reader is to be made that agrees with it and has its reliability. Publications block exactly
/// where the settings let reliable routes block and the reader tells that it is reliable.
pub proof fn law_remote_reader_is_routed_as_it_is(
    s: RuntimeView,
    e: EntityView,
    scope: Option<Seq<char>>,
    admin: Seq<char>,
)
    ensures
        ({
            let job = s.remote_reader_job(e, scope, admin);
            &&& job.entity == e
            &&& job.remote
            &&& job.next == 0
            &&& job.admin == admin
            &&& job.targets == targets_of(e, scope)
            &&& job.congestion_ctrl == CongestionControl::Block <==> {
                &&& s.config.reliable_routes_blocking
                &&& e.qos.reliability is Some && e.qos.reliability->Some_0.kind == ReliabilityKind::RELIABLE
            }
            &&& agree(job.qos, e.qos)
            &&& job.qos.reliability == e.qos.reliability
            &&& job.qos.durability_service == e.qos.durability_service
            &&& job.qos.ignore_local is None
        }),
{
}

/// An endpoint is routed once for each of its partitions, in order, or once without partition where it has none.
/// Without a scope, the key is the topic behind the partition, and with one it is that behind the scope.
pub proof fn law_targets_are_the_partitions(e: EntityView, scope: Option<Seq<char>>, i: int)
    ensures
        ({
            let targets = targets_of(e, scope);
            let none = e.qos.partition is None || e.qos.partition->Some_0.len() == 0;
            &&& none ==> targets.len() == 1 && targets[0].partition is None
            &&& !none ==> targets.len() == e.qos.partition->Some_0.len()
            &&& !none && 0 <= i < targets.len() ==> targets[i].partition == Some(e.qos.partition->Some_0[i])
            &&& routable(e, None) && scope is None && none ==> targets[0].key == e.topic_name
            &&& routable(e, None) && scope is None && !none && 0 <= i < targets.len() ==> targets[i].key
                == e.qos.partition->Some_0[i] + "/"@ + e.topic_name
            &&& scope matches Some(sc) ==> (none ==> Some(targets[0].key) == joined_key_expr(sc, e.topic_name)
                || joined_key_expr(sc, e.topic_name) is None)
            &&& scope matches Some(sc) ==> (!none && 0 <= i < targets.len() ==> Some(targets[i].key) == joined_key_expr(
                sc,
                e.qos.partition->Some_0[i] + "/"@ + e.topic_name,
            ) || joined_key_expr(sc, e.qos.partition->Some_0[i] + "/"@ + e.topic_name) is None)
        }),
{
    let parts = crate::routing::routed_partitions(e.qos.partition);
    if routable(e, None) {
        if e.qos.partition is None || e.qos.partition->Some_0.len() == 0 {
            assert(crate::routing::mappable(e.topic_name, None, parts[0]));
        } else if 0 <= i < parts.len() {
            assert(crate::routing::mappable(e.topic_name, None, parts[i]));
        }
    }
}

/// The zenoh key for a topic. Without a scope it is the topic, behind its partition and a `/` where it has one,
/// and there is one exactly where that is a key expression. With a scope it is that joined to the scope.
pub proof fn law_topic_mapping(topic: Seq<char>, scope: Seq<char>, partition: Seq<char>)
    ensures
        topic_key(topic, None, None) is Some <==> valid_key_expr(topic),
        valid_key_expr(topic) ==> topic_key(topic, None, None) == Some(topic),
        topic_key(topic, None, Some(partition)) is Some <==> valid_key_expr(partition + "/"@ + topic),
        valid_key_expr(partition + "/"@ + topic) ==> topic_key(topic, None, Some(partition)) == Some(
            partition + "/"@ + topic,
        ),
        topic_key(topic, Some(scope), None) == joined_key_expr(scope, topic),
        topic_key(topic, Some(scope), Some(partition)) == joined_key_expr(scope, partition + "/"@ + topic),
{
}

/// What has to be made for a route to zenoh: a publisher for the key of the target, and a DDS reader for the topic
/// of the endpoint with the QoS of the job. Publications are cached exactly for a transient-local reader, for queries
/// of other bridges. Where a maximum frequency is set for the key, the reader is read by it
/// and keeps the last sample only; nothing else of its QoS changes.
pub proof fn law_plan_to_zenoh(s: RuntimeView, job: FromJobView)
    requires
        0 <= job.next < job.targets.len(),
    ensures
        ({
            let plan = s.plan_from(job);
            &&& plan.key == job.targets[job.next].key
            &&& plan.topic_name == job.entity.topic_name
            &&& plan.topic_type == job.entity.topic_type
            &&& plan.keyless == job.entity.keyless
            &&& plan.congestion_ctrl == job.congestion_ctrl
            &&& plan.queryable_origin == Locality::Remote
            &&& plan.cache is Some <==> job.qos.durability is Some && job.qos.durability->Some_0.kind
                == DurabilityKind::TRANSIENT_LOCAL
            &&& plan.read_frequency is None ==> plan.reader_qos == job.qos
            &&& plan.read_frequency is Some ==> plan.reader_qos == (PoliciesView {
                history: plan.reader_qos.history,
                ..job.qos
            })
            &&& plan.read_frequency is Some ==> plan.reader_qos.history == Some(
                History { kind: HistoryKind::KEEP_LAST, depth: 1 },
            )
        }),
{
}

/// How often a key is read at most: as the first pattern that matches it tells, and freely where none does.
pub proof fn law_first_frequency_counts(s: RuntimeView, job: FromJobView, i: int)
    requires
        0 <= i < s.config.max_frequencies.len(),
        regex_matches(s.config.max_frequencies[i].pattern, job.target().key),
        forall|j: int| 0 <= j < i ==> !regex_matches(#[trigger] s.config.max_frequencies[j].pattern, job.target().key),
    ensures
        s.plan_from(job).read_frequency == Some(s.config.max_frequencies[i].frequency),
{
    lemma_frequency(s, job.target().key, 0, i);
}

proof fn lemma_frequency(s: RuntimeView, key: Seq<char>, from: int, i: int)
    requires
        0 <= from <= i < s.config.max_frequencies.len(),
        regex_matches(s.config.max_frequencies[i].pattern, key),
        forall|j: int| 0 <= j < i ==> !regex_matches(#[trigger] s.config.max_frequencies[j].pattern, key),
    ensures
        s.config.frequency_from(key, from) == Some(s.config.max_frequencies[i].frequency),
    decreases i - from,
{
    if from < i {
        lemma_frequency(s, key, from + 1, i);
    }
}

/// A key that no pattern matches is read freely.
pub proof fn law_no_frequency_without_pattern(s: RuntimeView, job: FromJobView)
    requires
        forall|j: int|
            0 <= j < s.config.max_frequencies.len() ==> !regex_matches(
                #[trigger] s.config.max_frequencies[j].pattern,
                job.target().key,
            ),
    ensures
        s.plan_from(job).read_frequency is None,
{
    lemma_no_frequency(s, job.target().key, 0);
}

proof fn lemma_no_frequency(s: RuntimeView, key: Seq<char>, from: int)
    requires
        0 <= from,
        forall|j: int|
            0 <= j < s.config.max_frequencies.len() ==> !regex_matches(
                #[trigger] s.config.max_frequencies[j].pattern,
                key,
            ),
    ensures
        s.config.frequency_from(key, from) is None,
    decreases s.config.max_frequencies.len() - from,
{
    if from < s.config.max_frequencies.len() {
        assert(!regex_matches(s.config.max_frequencies[from].pattern, key));
        lemma_no_frequency(s, key, from + 1);
    }
}

/// How many publications are cached for late readers. All, where all are to be kept, or where the instances of a topic
/// with keys are not limited. The depth of the history for a topic without keys, or where nothing sensible is told
/// of the instances. Else the depth for each instance. Where no history is told, that is the last sample.
pub proof fn law_cache_holds_the_history(s: RuntimeView, job: FromJobView, depth: i32, instances: i32)
    requires
        0 <= job.next < job.targets.len(),
        job.qos.durability is Some && job.qos.durability->Some_0.kind == DurabilityKind::TRANSIENT_LOCAL,
        job.qos.history is Some ==> job.qos.history->Some_0.depth == depth,
        job.qos.history is None ==> depth == 1,
        job.qos.durability_service is Some ==> job.qos.durability_service->Some_0.max_instances == instances,
        job.qos.durability_service is None ==> instances == -1,
    ensures
        ({
            let cache = s.plan_from(job).cache;
            let all = job.qos.history is Some && job.qos.history->Some_0.kind == HistoryKind::KEEP_ALL;
            &&& all ==> cache == Some(usize::MAX)
            &&& !all && job.entity.keyless ==> cache == Some(depth as usize)
            &&& !all && !job.entity.keyless && instances == -1 ==> cache == Some(usize::MAX)
            &&& !all && !job.entity.keyless && instances > 0 && 0 <= depth * instances <= i32::MAX ==> cache is Some
                && cache->Some_0 == depth * instances
            &&& !all && !job.entity.keyless && instances > 0 && i32::MIN <= depth * instances < 0 ==> cache == Some(
                (depth * instances) as i32 as usize,
            )
            &&& !all && !job.entity.keyless && instances > 0 && !(i32::MIN <= depth * instances <= i32::MAX) ==> cache
                == Some(usize::MAX)
            &&& !all && !job.entity.keyless && instances != -1 && instances <= 0 ==> cache == Some(depth as usize)
        }),
{
}

/// What has to be made for a route from zenoh: for the key of the target, a subscriber to the other bridges' publications
/// where there is no route yet, and a DDS writer with the QoS of the job for the topic of the endpoint.
/// Where earlier publications are wanted, the subscriber asks for them under `<key>/@dds_pub_cache/*`,
/// within the time that the settings give.
pub proof fn law_plan_from_zenoh(s: RuntimeView, job: ToJobView)
    requires
        0 <= job.next < job.targets.len(),
    ensures
        ({
            let plan = s.plan_to(job);
            let ke = job.targets[job.next].key;
            &&& plan.key == ke
            &&& plan.topic_name == job.entity.topic_name
            &&& plan.topic_type == job.entity.topic_type
            &&& plan.keyless == job.entity.keyless
            &&& plan.writer_qos == job.qos
            &&& plan.allowed_origin == Locality::Remote
            &&& plan.accept_replies == ReplyKeyExpr::Any
            &&& plan.queries_timeout == s.config.queries_timeout
            &&& plan.subscriber is None <==> s.routes_to.contains_key(ke)
            &&& !s.routes_to.contains_key(ke) && !job.querying ==> plan.subscriber == Some(SubscriberPlanView::Subscriber)
            &&& !s.routes_to.contains_key(ke) && job.querying ==> plan.subscriber == Some(
                SubscriberPlanView::FetchingSubscriber(ke + "/@dds_pub_cache/*"@),
            )
        }),
{
    reveal_strlit("@dds_pub_cache");
    reveal_strlit("/@dds_pub_cache/*");
    reveal_strlit("*");
    let ke = job.targets[job.next].key;
    assert(crate::key_expr::slashed(crate::key_expr::slashed(ke, "@dds_pub_cache"@), "*"@) =~= ke
        + "/@dds_pub_cache/*"@);
}

/// Something has to be made for a target exactly where its key may be routed and there is no route,
/// or only one from zenoh that lacks the DDS writer that is wanted.
pub proof fn law_what_has_to_be_made(s: RuntimeView, ke: Seq<char>, wants_writer: bool)
    ensures
        s.needs_route_from(ke) <==> s.config.allows(ke) && !s.routes_from.contains_key(ke),
        s.needs_route_to(ke, wants_writer) && !s.routes_to.contains_key(ke) <==> s.config.allows(ke)
            && !s.routes_to.contains_key(ke),
        s.needs_route_to(ke, wants_writer) && s.routes_to.contains_key(ke) <==> s.config.allows(ke)
            && s.routes_to.contains_key(ke) && wants_writer && s.routes_to[ke].dds_writer == 0,
{
}

/// An endpoint can be routed exactly where there is a zenoh key for each of its partitions, or for its topic where it has
/// none: where `[<partition>/]<topic>` is a key expression, or can be joined to the scope.
pub proof fn law_what_can_be_routed(e: EntityView, scope: Seq<char>)
    ensures
        ({
            let none = e.qos.partition is None || e.qos.partition->Some_0.len() == 0;
            let list = e.qos.partition->Some_0;
            &&& none ==> (routable(e, None) <==> valid_key_expr(e.topic_name))
            &&& !none ==> (routable(e, None) <==> forall|i: int|
                0 <= i < list.len() ==> valid_key_expr(#[trigger] list[i] + "/"@ + e.topic_name))
            &&& none ==> (routable(e, Some(scope)) <==> joinable(e.topic_name) && joined_key_expr(scope, e.topic_name)
                is Some)
            &&& !none ==> (routable(e, Some(scope)) <==> forall|i: int|
                0 <= i < list.len() ==> joinable(#[trigger] list[i] + "/"@ + e.topic_name) && joined_key_expr(
                    scope,
                    list[i] + "/"@ + e.topic_name,
                ) is Some)
        }),
{
    let parts = crate::routing::routed_partitions(e.qos.partition);
    let none = e.qos.partition is None || e.qos.partition->Some_0.len() == 0;
    if none {
        assert(parts[0] is None);
    } else {
        let list = e.qos.partition->Some_0;
        assert forall|i: int| 0 <= i < list.len() implies #[trigger] list[i] == parts[i]->Some_0 && parts[i] is Some by {}
        assert forall|i: int| 0 <= i < parts.len() implies #[trigger] parts[i] == Some(list[i]) by {}
    }
}

/// What came of making something is told as it is: the handle, or the reason why it failed.
pub proof fn law_outcomes(handle: i32, reason: String)
    ensures
        outcome_view(Some(Ok(handle))) == Some(Ok::<i32, Seq<char>>(handle)),
        outcome_view(Some(Err(reason))) == Some(Err::<i32, Seq<char>>(reason@)),
        outcome_view(None) is None,
{
}

} // verus!
