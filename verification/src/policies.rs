//! QoS policies as they are discovered: each one known or not.
use vstd::prelude::*;

use crate::collections::KeyMap;
use crate::qos::{
    clone_bytes, Deadline, DestinationOrder, Durability, DurabilityService, History, HistoryKind,
    LatencyBudget, Liveliness, Ownership, Reliability, ReliabilityKind, DDS_100MS_DURATION, DDS_1S_DURATION,
    DDS_LENGTH_UNLIMITED,
};
use crate::qos_helpers::{is_transient_local, transient_local};
use crate::text::{clone_strings, optional_text, optional_texts};

verus! {

/// How far the presentation policy reaches.
#[derive(Clone, Copy, Debug, PartialEq, Eq, Structural)]
pub enum PresentationAccessScopeKind {
    INSTANCE,
    TOPIC,
    GROUP,
}

/// The presentation policy.
#[derive(Clone, Copy, Debug, PartialEq, Eq, Structural)]
pub struct Presentation {
    pub access_scope: PresentationAccessScopeKind,
    pub coherent_access: bool,
    pub ordered_access: bool,
}

/// The ownership strength policy.
#[derive(Clone, Copy, Debug, PartialEq, Eq, Structural)]
pub struct OwnershipStrength {
    pub value: i32,
}

/// The time-based filter policy.
#[derive(Clone, Copy, Debug, PartialEq, Eq, Structural)]
pub struct TimeBasedFilter {
    pub minimum_separation: i64,
}

/// The transport priority policy.
#[derive(Clone, Copy, Debug, PartialEq, Eq, Structural)]
pub struct TransportPriority {
    pub value: i32,
}

/// The lifespan policy.
#[derive(Clone, Copy, Debug, PartialEq, Eq, Structural)]
pub struct Lifespan {
    pub duration: i64,
}

/// The resource limits policy.
#[derive(Clone, Copy, Debug, PartialEq, Eq, Structural)]
pub struct ResourceLimits {
    pub max_samples: i32,
    pub max_instances: i32,
    pub max_samples_per_instance: i32,
}

/// The writer data lifecycle policy.
#[derive(Clone, Copy, Debug, PartialEq, Eq, Structural)]
pub struct WriterDataLifecycle {
    pub autodispose_unregistered_instances: bool,
}

/// The reader data lifecycle policy.
#[derive(Clone, Copy, Debug, PartialEq, Eq, Structural)]
pub struct ReaderDataLifecycle {
    pub autopurge_nowriter_samples_delay: i64,
    pub autopurge_disposed_samples_delay: i64,
}

/// The writer batching policy.
#[derive(Clone, Copy, Debug, PartialEq, Eq, Structural)]
pub struct WriterBatching {
    pub batch_updates: bool,
}

/// Whether types may be coerced.
#[allow(non_camel_case_types)]
#[derive(Clone, Copy, Debug, PartialEq, Eq, Structural)]
pub enum TypeConsistencyKind {
    DISALLOW_TYPE_COERCION,
    ALLOW_TYPE_COERCION,
}

/// The type consistency policy.
#[derive(Clone, Copy, Debug, PartialEq, Eq, Structural)]
pub struct TypeConsistency {
    pub kind: TypeConsistencyKind,
    pub ignore_sequence_bounds: bool,
    pub ignore_string_bounds: bool,
    pub ignore_member_names: bool,
    pub prevent_type_widening: bool,
    pub force_type_validation: bool,
}

/// Whose data is ignored.
#[derive(Clone, Copy, Debug, PartialEq, Eq, Structural)]
pub enum IgnoreLocalKind {
    NONE,
    PARTICIPANT,
    PROCESS,
}

/// The policy of ignoring local data.
#[derive(Clone, Copy, Debug, PartialEq, Eq, Structural)]
pub struct IgnoreLocal {
    pub kind: IgnoreLocalKind,
}

/// The QoS policies of an entity, each where it is known.
pub struct QosPolicies {
    pub user_data: Option<Vec<u8>>,
    pub topic_data: Option<Vec<u8>>,
    pub group_data: Option<Vec<u8>>,
    pub durability: Option<Durability>,
    pub durability_service: Option<DurabilityService>,
    pub presentation: Option<Presentation>,
    pub deadline: Option<Deadline>,
    pub latency_budget: Option<LatencyBudget>,
    pub ownership: Option<Ownership>,
    pub ownership_strength: Option<OwnershipStrength>,
    pub liveliness: Option<Liveliness>,
    pub time_based_filter: Option<TimeBasedFilter>,
    pub partition: Option<Vec<String>>,
    pub reliability: Option<Reliability>,
    pub transport_priority: Option<TransportPriority>,
    pub lifespan: Option<Lifespan>,
    pub destination_order: Option<DestinationOrder>,
    pub history: Option<History>,
    pub resource_limits: Option<ResourceLimits>,
    pub writer_data_lifecycle: Option<WriterDataLifecycle>,
    pub reader_data_lifecycle: Option<ReaderDataLifecycle>,
    pub writer_batching: Option<WriterBatching>,
    pub type_consistency: Option<TypeConsistency>,
    pub entity_name: Option<String>,
    pub properties: Option<KeyMap<String>>,
    pub ignore_local: Option<IgnoreLocal>,
    pub data_representation: Option<Vec<i16>>,
}

/// The QoS policies of an entity, over mathematical values.
#[verifier::ext_equal]
pub struct PoliciesView {
    pub user_data: Option<Seq<u8>>,
    pub topic_data: Option<Seq<u8>>,
    pub group_data: Option<Seq<u8>>,
    pub durability: Option<Durability>,
    pub durability_service: Option<DurabilityService>,
    pub presentation: Option<Presentation>,
    pub deadline: Option<Deadline>,
    pub latency_budget: Option<LatencyBudget>,
    pub ownership: Option<Ownership>,
    pub ownership_strength: Option<OwnershipStrength>,
    pub liveliness: Option<Liveliness>,
    pub time_based_filter: Option<TimeBasedFilter>,
    pub partition: Option<Seq<Seq<char>>>,
    pub reliability: Option<Reliability>,
    pub transport_priority: Option<TransportPriority>,
    pub lifespan: Option<Lifespan>,
    pub destination_order: Option<DestinationOrder>,
    pub history: Option<History>,
    pub resource_limits: Option<ResourceLimits>,
    pub writer_data_lifecycle: Option<WriterDataLifecycle>,
    pub reader_data_lifecycle: Option<ReaderDataLifecycle>,
    pub writer_batching: Option<WriterBatching>,
    pub type_consistency: Option<TypeConsistency>,
    pub entity_name: Option<Seq<char>>,
    pub properties: Option<Map<Seq<char>, Seq<char>>>,
    pub ignore_local: Option<IgnoreLocal>,
    pub data_representation: Option<Seq<i16>>,
}

/// The bytes of an optional value.
pub open spec fn optional_bytes(bytes: Option<Vec<u8>>) -> Option<Seq<u8>> {
    match bytes {
        Some(b) => Some(b@),
        None => None,
    }
}

impl View for QosPolicies {
    type V = PoliciesView;

    open spec fn view(&self) -> PoliciesView {
        PoliciesView {
            user_data: optional_bytes(self.user_data),
            topic_data: optional_bytes(self.topic_data),
            group_data: optional_bytes(self.group_data),
            durability: self.durability,
            durability_service: self.durability_service,
            presentation: self.presentation,
            deadline: self.deadline,
            latency_budget: self.latency_budget,
            ownership: self.ownership,
            ownership_strength: self.ownership_strength,
            liveliness: self.liveliness,
            time_based_filter: self.time_based_filter,
            partition: optional_texts(self.partition),
            reliability: self.reliability,
            transport_priority: self.transport_priority,
            lifespan: self.lifespan,
            destination_order: self.destination_order,
            history: self.history,
            resource_limits: self.resource_limits,
            writer_data_lifecycle: self.writer_data_lifecycle,
            reader_data_lifecycle: self.reader_data_lifecycle,
            writer_batching: self.writer_batching,
            type_consistency: self.type_consistency,
            entity_name: optional_text(self.entity_name),
            properties: match self.properties {
                Some(map) => Some(map@),
                None => None,
            },
            ignore_local: self.ignore_local,
            data_representation: match self.data_representation {
                Some(ids) => Some(ids@),
                None => None,
            },
        }
    }
}

fn clone_optional_bytes(bytes: &Option<Vec<u8>>) -> (copy: Option<Vec<u8>>)
    ensures
        optional_bytes(copy) == optional_bytes(*bytes),
{
    match bytes {
        Some(b) => Some(clone_bytes(b)),
        None => None,
    }
}

fn clone_text_map(map: &KeyMap<String>) -> (copy: KeyMap<String>)
    ensures
        copy@ == map@,
{
    let mut copy: KeyMap<String> = KeyMap::new();
    let n: usize = map.len();
    let mut i: usize = 0;
    while i < n
        invariant
            i <= n,
            n == map.order().len(),
            map.order().no_duplicates(),
            map.order().to_set() == map@.dom(),
            copy@ == map@.restrict(map.order().take(i as int).to_set()),
        decreases n - i,
    {
        let ghost done = map.order().take(i as int);
        let key: &String = map.key_at(i);
        copy.insert(key.clone(), map.value_at(i).clone());
        proof {
            let more = map.order().take(i + 1);
            assert(more =~= done.push(key@));
            assert forall|k: Seq<char>| more.to_set().contains(k) == (done.to_set().contains(k) || k == key@) by {
                assert(more[i as int] == key@);
                if done.contains(k) {
                    let j = done.index_of(k);
                    assert(more[j] == k);
                }
            }
            assert(copy@ =~= map@.restrict(more.to_set()));
        }
        i += 1;
    }
    assert(map.order().take(n as int) =~= map.order());
    assert(copy@ =~= map@);
    copy
}

impl Clone for QosPolicies {
    fn clone(&self) -> (copy: QosPolicies)
        ensures
            copy@ == self@,
    {
        QosPolicies {
            user_data: clone_optional_bytes(&self.user_data),
            topic_data: clone_optional_bytes(&self.topic_data),
            group_data: clone_optional_bytes(&self.group_data),
            durability: self.durability,
            durability_service: self.durability_service,
            presentation: self.presentation,
            deadline: self.deadline,
            latency_budget: self.latency_budget,
            ownership: self.ownership,
            ownership_strength: self.ownership_strength,
            liveliness: self.liveliness,
            time_based_filter: self.time_based_filter,
            partition: match &self.partition {
                Some(list) => Some(clone_strings(list)),
                None => None,
            },
            reliability: self.reliability,
            transport_priority: self.transport_priority,
            lifespan: self.lifespan,
            destination_order: self.destination_order,
            history: self.history,
            resource_limits: self.resource_limits,
            writer_data_lifecycle: self.writer_data_lifecycle,
            reader_data_lifecycle: self.reader_data_lifecycle,
            writer_batching: self.writer_batching,
            type_consistency: self.type_consistency,
            entity_name: match &self.entity_name {
                Some(name) => Some(name.clone()),
                None => None,
            },
            properties: match &self.properties {
                Some(map) => Some(clone_text_map(map)),
                None => None,
            },
            ignore_local: self.ignore_local,
            data_representation: match &self.data_representation {
                Some(ids) => {
                    let mut copy: Vec<i16> = Vec::new();
                    copy.extend_from_slice(ids.as_slice());
                    assert(copy@ =~= ids@);
                    Some(copy)
                },
                None => None,
            },
        }
    }
}

impl QosPolicies {
    /// No policy known.
    pub fn unknown() -> (qos: QosPolicies)
        ensures
            qos@ == PoliciesView::unknown(),
    {
        QosPolicies {
            user_data: None,
            topic_data: None,
            group_data: None,
            durability: None,
            durability_service: None,
            presentation: None,
            deadline: None,
            latency_budget: None,
            ownership: None,
            ownership_strength: None,
            liveliness: None,
            time_based_filter: None,
            partition: None,
            reliability: None,
            transport_priority: None,
            lifespan: None,
            destination_order: None,
            history: None,
            resource_limits: None,
            writer_data_lifecycle: None,
            reader_data_lifecycle: None,
            writer_batching: None,
            type_consistency: None,
            entity_name: None,
            properties: None,
            ignore_local: None,
            data_representation: None,
        }
    }
}

impl PoliciesView {
    /// No policy known.
    pub open spec fn unknown() -> PoliciesView {
        PoliciesView {
            user_data: None,
            topic_data: None,
            group_data: None,
            durability: None,
            durability_service: None,
            presentation: None,
            deadline: None,
            latency_budget: None,
            ownership: None,
            ownership_strength: None,
            liveliness: None,
            time_based_filter: None,
            partition: None,
            reliability: None,
            transport_priority: None,
            lifespan: None,
            destination_order: None,
            history: None,
            resource_limits: None,
            writer_data_lifecycle: None,
            reader_data_lifecycle: None,
            writer_batching: None,
            type_consistency: None,
            entity_name: None,
            properties: None,
            ignore_local: None,
            data_representation: None,
        }
    }
}

/// The reliability of an endpoint that tells none: best effort, blocking for a tenth of a second.
pub open spec fn default_reliability() -> Reliability {
    Reliability { kind: ReliabilityKind::BEST_EFFORT, max_blocking_time: DDS_100MS_DURATION }
}

/// Ignoring what the same participant writes.
pub open spec fn ignore_participant() -> IgnoreLocal {
    IgnoreLocal { kind: IgnoreLocalKind::PARTICIPANT }
}

/// The policies of a reader that matches a writer: without what only applies to writers
/// and what names the writer, best effort where the writer tells no reliability.
pub open spec fn reader_qos_for_writer(qos: PoliciesView) -> PoliciesView {
    PoliciesView {
        durability_service: None,
        ownership_strength: None,
        transport_priority: None,
        lifespan: None,
        writer_data_lifecycle: None,
        writer_batching: None,
        properties: None,
        entity_name: None,
        ignore_local: None,
        reliability: match qos.reliability {
            Some(reliability) => Some(reliability),
            None => Some(default_reliability()),
        },
        ..qos
    }
}

/// The policies of the replica of a writer: without what names the writer, ignoring its own participant.
pub open spec fn proxy_writer_qos(qos: PoliciesView) -> PoliciesView {
    PoliciesView { properties: None, entity_name: None, ignore_local: Some(ignore_participant()), ..qos }
}

/// The policies of the replica of a reader: without what names the reader.
pub open spec fn proxy_reader_qos(qos: PoliciesView) -> PoliciesView {
    PoliciesView { properties: None, entity_name: None, ignore_local: None, ..qos }
}

/// A nanosecond more, up to the longest time.
pub open spec fn nanosecond_more(time: i64) -> i64 {
    if time == i64::MAX {
        time
    } else {
        (time + 1) as i64
    }
}

/// The policies of a writer that matches a reader: without what only applies to readers
/// and what names the reader, ignoring its own participant, blocking a nanosecond longer,
/// and keeping for a transient-local reader the history that the reader asks for.
pub open spec fn writer_qos_for_reader(qos: PoliciesView) -> PoliciesView {
    let history = match qos.history {
        Some(history) => history,
        None => History { kind: HistoryKind::KEEP_LAST, depth: 1 },
    };
    let reliability = match qos.reliability {
        Some(reliability) => reliability,
        None => default_reliability(),
    };
    PoliciesView {
        time_based_filter: None,
        reader_data_lifecycle: None,
        properties: None,
        entity_name: None,
        ignore_local: Some(ignore_participant()),
        durability_service: if transient_local(qos) {
            Some(
                DurabilityService {
                    service_cleanup_delay: 60_000_000_000,
                    history_kind: history.kind,
                    history_depth: history.depth,
                    max_samples: DDS_LENGTH_UNLIMITED,
                    max_instances: DDS_LENGTH_UNLIMITED,
                    max_samples_per_instance: DDS_LENGTH_UNLIMITED,
                },
            )
        } else {
            qos.durability_service
        },
        reliability: Some(
            Reliability { max_blocking_time: nanosecond_more(reliability.max_blocking_time), ..reliability },
        ),
        ..qos
    }
}

/// The policies for a reader that is to match a writer.
pub fn adapt_writer_qos_for_reader(qos: &QosPolicies) -> (reader_qos: QosPolicies)
    ensures
        reader_qos@ == reader_qos_for_writer(qos@),
{
    let mut reader_qos: QosPolicies = qos.clone();
    // writer QoS that does not apply to readers
    reader_qos.durability_service = None;
    reader_qos.ownership_strength = None;
    reader_qos.transport_priority = None;
    reader_qos.lifespan = None;
    reader_qos.writer_data_lifecycle = None;
    reader_qos.writer_batching = None;
    // proprietary QoS
    reader_qos.properties = None;
    reader_qos.entity_name = None;
    reader_qos.ignore_local = None;
    if reader_qos.reliability.is_none() {
        reader_qos.reliability = Some(
            Reliability { kind: ReliabilityKind::BEST_EFFORT, max_blocking_time: DDS_100MS_DURATION },
        );
    }
    reader_qos
}

/// The policies for the replica of a writer.
pub fn adapt_writer_qos_for_proxy_writer(qos: &QosPolicies) -> (writer_qos: QosPolicies)
    ensures
        writer_qos@ == proxy_writer_qos(qos@),
{
    let mut writer_qos: QosPolicies = qos.clone();
    writer_qos.properties = None;
    writer_qos.entity_name = None;
    writer_qos.ignore_local = Some(IgnoreLocal { kind: IgnoreLocalKind::PARTICIPANT });
    writer_qos
}

/// The policies for a writer that is to match a reader.
pub fn adapt_reader_qos_for_writer(qos: &QosPolicies) -> (writer_qos: QosPolicies)
    ensures
        writer_qos@ == writer_qos_for_reader(qos@),
{
    let mut writer_qos: QosPolicies = qos.clone();
    // reader QoS that does not apply to writers
    writer_qos.time_based_filter = None;
    writer_qos.reader_data_lifecycle = None;
    writer_qos.properties = None;
    writer_qos.entity_name = None;
    writer_qos.ignore_local = Some(IgnoreLocal { kind: IgnoreLocalKind::PARTICIPANT });
    // historical data of a transient-local writer is kept as its durability service says
    if is_transient_local(qos) {
        let history: History = match qos.history {
            Some(history) => history,
            None => History::default(),
        };
        writer_qos.durability_service = Some(
            DurabilityService {
                service_cleanup_delay: 60 * DDS_1S_DURATION,
                history_kind: history.kind,
                history_depth: history.depth,
                max_samples: DDS_LENGTH_UNLIMITED,
                max_instances: DDS_LENGTH_UNLIMITED,
                max_samples_per_instance: DDS_LENGTH_UNLIMITED,
            },
        );
    }
    // a reader of another vendor matches a writer that blocks a little longer
    let reliability: Reliability = match qos.reliability {
        Some(reliability) => reliability,
        None => Reliability { kind: ReliabilityKind::BEST_EFFORT, max_blocking_time: DDS_100MS_DURATION },
    };
    let max_blocking_time: i64 = if reliability.max_blocking_time == i64::MAX {
        i64::MAX
    } else {
        reliability.max_blocking_time + 1
    };
    writer_qos.reliability = Some(Reliability { kind: reliability.kind, max_blocking_time });
    writer_qos
}

/// The policies for the replica of a reader.
pub fn adapt_reader_qos_for_proxy_reader(qos: &QosPolicies) -> (reader_qos: QosPolicies)
    ensures
        reader_qos@ == proxy_reader_qos(qos@),
{
    let mut reader_qos: QosPolicies = qos.clone();
    reader_qos.properties = None;
    reader_qos.entity_name = None;
    reader_qos.ignore_local = None;
    reader_qos
}

/// Replicas of replicas are replicas: adapting twice is adapting once.
pub proof fn law_adapting_is_idempotent(qos: PoliciesView)
    ensures
        reader_qos_for_writer(reader_qos_for_writer(qos)) == reader_qos_for_writer(qos),
        proxy_writer_qos(proxy_writer_qos(qos)) == proxy_writer_qos(qos),
        proxy_reader_qos(proxy_reader_qos(qos)) == proxy_reader_qos(qos),
{
}

/// An adapted endpoint keeps what decides whether it meets others: topic data, durability, ownership,
/// liveliness, deadline, latency budget, destination order, history, partitions and representation,
/// and the kind of the reliability where that was told.
pub proof fn law_adapting_keeps_matching(qos: PoliciesView, adapted: PoliciesView)
    requires
        adapted == reader_qos_for_writer(qos) || adapted == proxy_writer_qos(qos) || adapted
            == writer_qos_for_reader(qos) || adapted == proxy_reader_qos(qos),
    ensures
        adapted.durability == qos.durability,
        adapted.presentation == qos.presentation,
        adapted.deadline == qos.deadline,
        adapted.latency_budget == qos.latency_budget,
        adapted.ownership == qos.ownership,
        adapted.liveliness == qos.liveliness,
        adapted.destination_order == qos.destination_order,
        adapted.history == qos.history,
        adapted.resource_limits == qos.resource_limits,
        adapted.partition == qos.partition,
        adapted.user_data == qos.user_data,
        adapted.topic_data == qos.topic_data,
        adapted.group_data == qos.group_data,
        adapted.type_consistency == qos.type_consistency,
        adapted.data_representation == qos.data_representation,
        qos.reliability is Some ==> adapted.reliability is Some && adapted.reliability->Some_0.kind
            == qos.reliability->Some_0.kind,
{
}

/// No writer that the bridge creates meets a reader of the bridge: all ignore their own participant.
pub proof fn law_writers_ignore_own_participant(qos: PoliciesView)
    ensures
        proxy_writer_qos(qos).ignore_local == Some(ignore_participant()),
        writer_qos_for_reader(qos).ignore_local == Some(ignore_participant()),
{
}

} // verus!
