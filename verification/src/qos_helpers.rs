//! Questions to the QoS policies of an entity.
use vstd::prelude::*;

use crate::policies::{PoliciesView, QosPolicies};
use crate::qos::{
    DurabilityKind, DurabilityService, History, HistoryKind, Reliability, ReliabilityKind, DDS_LENGTH_UNLIMITED,
};
use crate::text::{optional_texts, same, texts};

verus! {

/// The history that is known, or the last sample.
pub open spec fn history_or_default(qos: PoliciesView) -> History {
    match qos.history {
        Some(history) => history,
        None => History { kind: HistoryKind::KEEP_LAST, depth: 1 },
    }
}

/// The durability service that is known, or one without limits.
pub open spec fn durability_service_or_default(qos: PoliciesView) -> DurabilityService {
    match qos.durability_service {
        Some(service) => service,
        None => DurabilityService {
            service_cleanup_delay: 0,
            history_kind: HistoryKind::KEEP_LAST,
            history_depth: 1,
            max_samples: DDS_LENGTH_UNLIMITED,
            max_instances: DDS_LENGTH_UNLIMITED,
            max_samples_per_instance: DDS_LENGTH_UNLIMITED,
        },
    }
}

/// Whether the durability is known to be transient-local.
pub open spec fn transient_local(qos: PoliciesView) -> bool {
    qos.durability matches Some(durability) && durability.kind == DurabilityKind::TRANSIENT_LOCAL
}

/// Whether a writer with this reliability is reliable; one that tells none is.
pub open spec fn writer_reliable(reliability: Option<Reliability>) -> bool {
    match reliability {
        Some(r) => r.kind == ReliabilityKind::RELIABLE,
        None => true,
    }
}

/// Whether a reader with this reliability is reliable; one that tells none is not.
pub open spec fn reader_reliable(reliability: Option<Reliability>) -> bool {
    match reliability {
        Some(r) => r.kind == ReliabilityKind::RELIABLE,
        None => false,
    }
}

/// Whether no partition is told.
pub open spec fn no_partition(partition: Option<Seq<Seq<char>>>) -> bool {
    match partition {
        Some(list) => list.len() == 0,
        None => true,
    }
}

/// Whether `name` is among the partitions.
pub open spec fn in_partition(partition: Option<Seq<Seq<char>>>, name: Seq<char>) -> bool {
    partition matches Some(list) && list.contains(name)
}

/// The history that is known, or the last sample.
pub fn get_history_or_default(qos: &QosPolicies) -> (history: History)
    ensures
        history == history_or_default(qos@),
{
    match qos.history {
        None => History::default(),
        Some(history) => history,
    }
}

/// The durability service that is known, or one without limits.
pub fn get_durability_service_or_default(qos: &QosPolicies) -> (service: DurabilityService)
    ensures
        service == durability_service_or_default(qos@),
{
    match qos.durability_service {
        None => DurabilityService {
            service_cleanup_delay: 0,
            history_kind: HistoryKind::KEEP_LAST,
            history_depth: 1,
            max_samples: DDS_LENGTH_UNLIMITED,
            max_instances: DDS_LENGTH_UNLIMITED,
            max_samples_per_instance: DDS_LENGTH_UNLIMITED,
        },
        Some(service) => service,
    }
}

/// Whether no partition is told.
pub fn partition_is_empty(partition: &Option<Vec<String>>) -> (empty: bool)
    ensures
        empty == no_partition(optional_texts(*partition)),
{
    match partition {
        Some(list) => list.len() == 0,
        None => true,
    }
}

/// Whether `name` is among the partitions.
pub fn partition_contains(partition: &Option<Vec<String>>, name: &String) -> (found: bool)
    ensures
        found == in_partition(optional_texts(*partition), name@),
{
    match partition {
        Some(list) => {
            let mut i: usize = 0;
            while i < list.len()
                invariant
                    i <= list@.len(),
                    *partition == Some(*list),
                    forall|j: int| 0 <= j < i ==> #[trigger] texts(list@)[j] != name@,
                decreases list@.len() - i,
            {
                if same(list[i].as_str(), name.as_str()) {
                    assert(texts(list@)[i as int] == name@);
                    return true;
                }
                i += 1;
            }
            false
        },
        None => false,
    }
}

/// Whether a writer with this reliability is reliable; one that tells none is.
pub fn is_writer_reliable(reliability: &Option<Reliability>) -> (b: bool)
    ensures
        b == writer_reliable(*reliability),
{
    match reliability {
        Some(r) => r.kind == ReliabilityKind::RELIABLE,
        None => true,
    }
}

/// Whether a reader with this reliability is reliable; one that tells none is not.
pub fn is_reader_reliable(reliability: &Option<Reliability>) -> (b: bool)
    ensures
        b == reader_reliable(*reliability),
{
    match reliability {
        Some(r) => r.kind == ReliabilityKind::RELIABLE,
        None => false,
    }
}

/// Whether the durability is known to be transient-local.
pub fn is_transient_local(qos: &QosPolicies) -> (b: bool)
    ensures
        b == transient_local(qos@),
{
    match qos.durability {
        Some(durability) => durability.kind == DurabilityKind::TRANSIENT_LOCAL,
        None => false,
    }
}

} // verus!
