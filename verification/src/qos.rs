//! The QoS of DDS readers and writers.
use vstd::prelude::*;

use crate::text::{clone_strings, texts};

verus! {

/// A duration that never ends, in nanoseconds.
pub const DDS_INFINITE_TIME: i64 = 0x7FFF_FFFF_FFFF_FFFF;

/// A tenth of a second, in nanoseconds.
pub const DDS_100MS_DURATION: i64 = 100_000_000;

/// A second, in nanoseconds.
pub const DDS_1S_DURATION: i64 = 1_000_000_000;

/// The length that stands for no limit.
pub const DDS_LENGTH_UNLIMITED: i32 = -1;

/// How long DDS keeps what was written.
#[allow(non_camel_case_types)]
#[derive(Clone, Copy, Debug, PartialEq, Eq, Structural)]
pub enum DurabilityKind {
    VOLATILE,
    TRANSIENT_LOCAL,
    TRANSIENT,
    PERSISTENT,
}

impl DurabilityKind {
    /// The number that DDS uses for the kind.
    pub open spec fn number(self) -> u32 {
        match self {
            DurabilityKind::VOLATILE => 0,
            DurabilityKind::TRANSIENT_LOCAL => 1,
            DurabilityKind::TRANSIENT => 2,
            DurabilityKind::PERSISTENT => 3,
        }
    }

    /// The kind for the number that DDS uses.
    pub fn from(from: u32) -> (kind: DurabilityKind)
        requires
            from <= 3,
        ensures
            kind.number() == from,
    {
        match from {
            0 => DurabilityKind::VOLATILE,
            1 => DurabilityKind::TRANSIENT_LOCAL,
            2 => DurabilityKind::TRANSIENT,
            _ => DurabilityKind::PERSISTENT,
        }
    }

    /// The number that DDS uses for the kind.
    pub fn to_native(self) -> (number: u32)
        ensures
            number == self.number(),
    {
        match self {
            DurabilityKind::VOLATILE => 0,
            DurabilityKind::TRANSIENT_LOCAL => 1,
            DurabilityKind::TRANSIENT => 2,
            DurabilityKind::PERSISTENT => 3,
        }
    }
}

/// Whether DDS resends what was lost.
#[allow(non_camel_case_types)]
#[derive(Clone, Copy, Debug, PartialEq, Eq, Structural)]
pub enum ReliabilityKind {
    BEST_EFFORT,
    RELIABLE,
}

impl ReliabilityKind {
    /// The number that DDS uses for the kind.
    pub open spec fn number(self) -> u32 {
        match self {
            ReliabilityKind::BEST_EFFORT => 0,
            ReliabilityKind::RELIABLE => 1,
        }
    }

    /// The kind for the number that DDS uses.
    pub fn from(from: u32) -> (kind: ReliabilityKind)
        requires
            from <= 1,
        ensures
            kind.number() == from,
    {
        match from {
            0 => ReliabilityKind::BEST_EFFORT,
            _ => ReliabilityKind::RELIABLE,
        }
    }

    /// The number that DDS uses for the kind.
    pub fn to_native(self) -> (number: u32)
        ensures
            number == self.number(),
    {
        match self {
            ReliabilityKind::BEST_EFFORT => 0,
            ReliabilityKind::RELIABLE => 1,
        }
    }
}

/// By which time samples of several writers are ordered.
#[allow(non_camel_case_types)]
#[derive(Clone, Copy, Debug, PartialEq, Eq, Structural)]
pub enum DestinationOrderKind {
    BY_RECEPTION_TIMESTAMP,
    BY_SOURCE_TIMESTAMP,
}

impl DestinationOrderKind {
    /// The number that DDS uses for the kind.
    pub open spec fn number(self) -> u32 {
        match self {
            DestinationOrderKind::BY_RECEPTION_TIMESTAMP => 0,
            DestinationOrderKind::BY_SOURCE_TIMESTAMP => 1,
        }
    }

    /// The kind for the number that DDS uses.
    pub fn from(from: u32) -> (kind: DestinationOrderKind)
        requires
            from <= 1,
        ensures
            kind.number() == from,
    {
        match from {
            0 => DestinationOrderKind::BY_RECEPTION_TIMESTAMP,
            _ => DestinationOrderKind::BY_SOURCE_TIMESTAMP,
        }
    }

    /// The number that DDS uses for the kind.
    pub fn to_native(self) -> (number: u32)
        ensures
            number == self.number(),
    {
        match self {
            DestinationOrderKind::BY_RECEPTION_TIMESTAMP => 0,
            DestinationOrderKind::BY_SOURCE_TIMESTAMP => 1,
        }
    }
}

/// Who asserts that a writer is alive.
#[allow(non_camel_case_types)]
#[derive(Clone, Copy, Debug, PartialEq, Eq, Structural)]
pub enum LivelinessKind {
    AUTOMATIC,
    MANUAL_BY_PARTICIPANT,
    MANUAL_BY_TOPIC,
}

impl LivelinessKind {
    /// The number that DDS uses for the kind.
    pub open spec fn number(self) -> u32 {
        match self {
            LivelinessKind::AUTOMATIC => 0,
            LivelinessKind::MANUAL_BY_PARTICIPANT => 1,
            LivelinessKind::MANUAL_BY_TOPIC => 2,
        }
    }

    /// The kind for the number that DDS uses.
    pub fn from(from: u32) -> (kind: LivelinessKind)
        requires
            from <= 2,
        ensures
            kind.number() == from,
    {
        match from {
            0 => LivelinessKind::AUTOMATIC,
            1 => LivelinessKind::MANUAL_BY_PARTICIPANT,
            _ => LivelinessKind::MANUAL_BY_TOPIC,
        }
    }

    /// The number that DDS uses for the kind.
    pub fn to_native(self) -> (number: u32)
        ensures
            number == self.number(),
    {
        match self {
            LivelinessKind::AUTOMATIC => 0,
            LivelinessKind::MANUAL_BY_PARTICIPANT => 1,
            LivelinessKind::MANUAL_BY_TOPIC => 2,
        }
    }
}

/// Whether several writers may write one instance.
#[derive(Clone, Copy, Debug, PartialEq, Eq, Structural)]
pub enum OwnershipKind {
    SHARED,
    EXCLUSIVE,
}

impl OwnershipKind {
    /// The number that DDS uses for the kind.
    pub open spec fn number(self) -> u32 {
        match self {
            OwnershipKind::SHARED => 0,
            OwnershipKind::EXCLUSIVE => 1,
        }
    }

    /// The kind for the number that DDS uses.
    pub fn from(from: u32) -> (kind: OwnershipKind)
        requires
            from <= 1,
        ensures
            kind.number() == from,
    {
        match from {
            0 => OwnershipKind::SHARED,
            _ => OwnershipKind::EXCLUSIVE,
        }
    }

    /// The number that DDS uses for the kind.
    pub fn to_native(self) -> (number: u32)
        ensures
            number == self.number(),
    {
        match self {
            OwnershipKind::SHARED => 0,
            OwnershipKind::EXCLUSIVE => 1,
        }
    }
}

/// Which samples of an instance are kept.
#[allow(non_camel_case_types)]
#[derive(Clone, Copy, Debug, PartialEq, Eq, Structural)]
pub enum HistoryKind {
    KEEP_LAST,
    KEEP_ALL,
}

impl HistoryKind {
    /// The number that DDS uses for the kind.
    pub open spec fn number(self) -> u32 {
        match self {
            HistoryKind::KEEP_LAST => 0,
            HistoryKind::KEEP_ALL => 1,
        }
    }

    /// The kind for the number that DDS uses.
    pub fn from(from: u32) -> (kind: HistoryKind)
        requires
            from <= 1,
        ensures
            kind.number() == from,
    {
        match from {
            0 => HistoryKind::KEEP_LAST,
            _ => HistoryKind::KEEP_ALL,
        }
    }

    /// The number that DDS uses for the kind.
    pub fn to_native(self) -> (number: u32)
        ensures
            number == self.number(),
    {
        match self {
            HistoryKind::KEEP_LAST => 0,
            HistoryKind::KEEP_ALL => 1,
        }
    }
}

/// The durability policy.
#[derive(Clone, Copy, Debug, PartialEq, Eq, Structural)]
pub struct Durability {
    pub kind: DurabilityKind,
}

impl Default for Durability {
    fn default() -> (policy: Durability)
        ensures
            policy == (Durability { kind: DurabilityKind::VOLATILE }),
    {
        Durability { kind: DurabilityKind::VOLATILE }
    }
}

/// The policy of what keeps the history for late readers.
#[derive(Clone, Copy, Debug, PartialEq, Eq, Structural)]
pub struct DurabilityService {
    pub service_cleanup_delay: i64,
    pub history_kind: HistoryKind,
    pub history_depth: i32,
    pub max_samples: i32,
    pub max_instances: i32,
    pub max_samples_per_instance: i32,
}

/// The durability service that is taken where none is told.
pub open spec fn default_durability_service() -> DurabilityService {
    DurabilityService {
        service_cleanup_delay: 0,
        history_kind: HistoryKind::KEEP_LAST,
        history_depth: 1,
        max_samples: i32::MAX,
        max_instances: i32::MAX,
        max_samples_per_instance: i32::MAX,
    }
}

impl Default for DurabilityService {
    fn default() -> (policy: DurabilityService)
        ensures
            policy == default_durability_service(),
    {
        DurabilityService {
            service_cleanup_delay: 0,
            history_kind: HistoryKind::KEEP_LAST,
            history_depth: 1,
            max_samples: i32::MAX,
            max_instances: i32::MAX,
            max_samples_per_instance: i32::MAX,
        }
    }
}

/// The reliability policy.
#[derive(Clone, Copy, Debug, PartialEq, Eq, Structural)]
pub struct Reliability {
    pub kind: ReliabilityKind,
    pub max_blocking_time: i64,
}

/// The deadline policy.
#[derive(Clone, Copy, Debug, PartialEq, Eq, Structural)]
pub struct Deadline {
    pub period: i64,
}

impl Default for Deadline {
    fn default() -> (policy: Deadline)
        ensures
            policy == (Deadline { period: DDS_INFINITE_TIME }),
    {
        Deadline { period: DDS_INFINITE_TIME }
    }
}

/// The latency budget policy.
#[derive(Clone, Copy, Debug, PartialEq, Eq, Structural)]
pub struct LatencyBudget {
    pub duration: i64,
}

impl Default for LatencyBudget {
    fn default() -> (policy: LatencyBudget)
        ensures
            policy == (LatencyBudget { duration: 0 }),
    {
        LatencyBudget { duration: 0 }
    }
}

/// The destination order policy.
#[derive(Clone, Copy, Debug, PartialEq, Eq, Structural)]
pub struct DestinationOrder {
    pub kind: DestinationOrderKind,
}

impl Default for DestinationOrder {
    fn default() -> (policy: DestinationOrder)
        ensures
            policy == (DestinationOrder { kind: DestinationOrderKind::BY_RECEPTION_TIMESTAMP }),
    {
        DestinationOrder { kind: DestinationOrderKind::BY_RECEPTION_TIMESTAMP }
    }
}

/// The liveliness policy.
#[derive(Clone, Copy, Debug, PartialEq, Eq, Structural)]
pub struct Liveliness {
    pub kind: LivelinessKind,
    pub lease_duration: i64,
}

impl Default for Liveliness {
    fn default() -> (policy: Liveliness)
        ensures
            policy == (Liveliness { kind: LivelinessKind::AUTOMATIC, lease_duration: DDS_INFINITE_TIME }),
    {
        Liveliness { kind: LivelinessKind::AUTOMATIC, lease_duration: DDS_INFINITE_TIME }
    }
}

/// The ownership policy.
#[derive(Clone, Copy, Debug, PartialEq, Eq, Structural)]
pub struct Ownership {
    pub kind: OwnershipKind,
}

impl Default for Ownership {
    fn default() -> (policy: Ownership)
        ensures
            policy == (Ownership { kind: OwnershipKind::SHARED }),
    {
        Ownership { kind: OwnershipKind::SHARED }
    }
}

/// The history policy.
#[derive(Clone, Copy, Debug, PartialEq, Eq, Structural)]
pub struct History {
    pub kind: HistoryKind,
    pub depth: i32,
}

impl Default for History {
    fn default() -> (policy: History)
        ensures
            policy == (History { kind: HistoryKind::KEEP_LAST, depth: 1 }),
    {
        History { kind: HistoryKind::KEEP_LAST, depth: 1 }
    }
}

/// The settings of a durability service, with kinds by their numbers.
#[derive(Clone, Copy, Debug, PartialEq, Eq, Structural)]
pub struct NativeDurabilityService {
    pub service_cleanup_delay: i64,
    pub history_kind: u32,
    pub history_depth: i32,
    pub max_samples: i32,
    pub max_instances: i32,
    pub max_samples_per_instance: i32,
}

/// What a native QoS answers when it is asked for its policies:
/// nothing for a policy that it does not hold, else its values, with kinds by their numbers.
#[derive(Debug, PartialEq, Eq)]
pub struct NativeQos {
    pub reliability: Option<(u32, i64)>,
    pub durability: Option<u32>,
    pub durability_service: Option<NativeDurabilityService>,
    pub deadline: Option<i64>,
    pub latency_budget: Option<i64>,
    pub ownership: Option<u32>,
    pub liveliness: Option<(u32, i64)>,
    pub destination_order: Option<u32>,
    pub history: Option<(u32, i32)>,
    pub partitions: Option<Vec<String>>,
    pub userdata: Option<Vec<u8>>,
    pub ignore_local: Option<u32>,
}

/// The number for ignoring what the same participant writes.
pub const IGNORE_LOCAL_PARTICIPANT: u32 = 1;

/// The policies of a native QoS, over mathematical values.
#[verifier::ext_equal]
pub struct NativeQosView {
    pub reliability: Option<(u32, i64)>,
    pub durability: Option<u32>,
    pub durability_service: Option<NativeDurabilityService>,
    pub deadline: Option<i64>,
    pub latency_budget: Option<i64>,
    pub ownership: Option<u32>,
    pub liveliness: Option<(u32, i64)>,
    pub destination_order: Option<u32>,
    pub history: Option<(u32, i32)>,
    pub partitions: Option<Seq<Seq<char>>>,
    pub userdata: Option<Seq<u8>>,
    pub ignore_local: Option<u32>,
}

impl View for NativeQos {
    type V = NativeQosView;

    open spec fn view(&self) -> NativeQosView {
        NativeQosView {
            reliability: self.reliability,
            durability: self.durability,
            durability_service: self.durability_service,
            deadline: self.deadline,
            latency_budget: self.latency_budget,
            ownership: self.ownership,
            liveliness: self.liveliness,
            destination_order: self.destination_order,
            history: self.history,
            partitions: crate::text::optional_texts(self.partitions),
            userdata: match self.userdata {
                Some(bytes) => Some(bytes@),
                None => None,
            },
            ignore_local: self.ignore_local,
        }
    }
}

impl NativeQosView {
    /// Whether every kind but that of the reliability is a number that DDS uses.
    pub open spec fn kinds_known(self) -> bool {
        &&& self.durability matches Some(kind) ==> kind <= 3
        &&& self.durability_service matches Some(service) ==> service.history_kind <= 1
        &&& self.ownership matches Some(kind) ==> kind <= 1
        &&& self.liveliness matches Some(value) ==> value.0 <= 2
        &&& self.destination_order matches Some(kind) ==> kind <= 1
        &&& self.history matches Some(value) ==> value.0 <= 1
    }

    /// Whether the kind of the reliability is a number that DDS uses.
    pub open spec fn reliability_known(self) -> bool {
        self.reliability matches Some(value) ==> value.0 <= 1
    }

    /// The QoS that holds no policy.
    pub open spec fn none() -> NativeQosView {
        NativeQosView {
            reliability: None,
            durability: None,
            durability_service: None,
            deadline: None,
            latency_budget: None,
            ownership: None,
            liveliness: None,
            destination_order: None,
            history: None,
            partitions: None,
            userdata: None,
            ignore_local: None,
        }
    }
}

impl NativeQos {
    /// The QoS that holds no policy.
    pub fn none() -> (qos: NativeQos)
        ensures
            qos@ == NativeQosView::none(),
    {
        NativeQos {
            reliability: None,
            durability: None,
            durability_service: None,
            deadline: None,
            latency_budget: None,
            ownership: None,
            liveliness: None,
            destination_order: None,
            history: None,
            partitions: None,
            userdata: None,
            ignore_local: None,
        }
    }
}

/// The QoS of a DDS reader or writer.
#[derive(Debug, PartialEq, Eq)]
pub struct Qos {
    pub durability: Durability,
    pub durability_service: DurabilityService,
    pub reliability: Reliability,
    pub deadline: Deadline,
    pub latency_budget: LatencyBudget,
    pub ownership: Ownership,
    pub liveliness: Liveliness,
    pub destination_order: DestinationOrder,
    pub history: History,
    pub partitions: Vec<String>,
    pub userdata: Vec<u8>,
    pub ignore_local_participant: bool,
}

/// The QoS of a DDS reader or writer, over mathematical values.
#[verifier::ext_equal]
pub struct QosView {
    pub durability: Durability,
    pub durability_service: DurabilityService,
    pub reliability: Reliability,
    pub deadline: Deadline,
    pub latency_budget: LatencyBudget,
    pub ownership: Ownership,
    pub liveliness: Liveliness,
    pub destination_order: DestinationOrder,
    pub history: History,
    pub partitions: Seq<Seq<char>>,
    pub userdata: Seq<u8>,
    pub ignore_local_participant: bool,
}

impl View for Qos {
    type V = QosView;

    open spec fn view(&self) -> QosView {
        QosView {
            durability: self.durability,
            durability_service: self.durability_service,
            reliability: self.reliability,
            deadline: self.deadline,
            latency_budget: self.latency_budget,
            ownership: self.ownership,
            liveliness: self.liveliness,
            destination_order: self.destination_order,
            history: self.history,
            partitions: texts(self.partitions@),
            userdata: self.userdata@,
            ignore_local_participant: self.ignore_local_participant,
        }
    }
}

/// Whether `qos` is what `native` tells, with `reliability`:
/// each policy that `native` holds, and the default of each other.
pub open spec fn read_from(qos: QosView, native: NativeQosView, reliability: Reliability) -> bool {
    &&& match native.durability {
        Some(kind) => qos.durability.kind.number() == kind,
        None => qos.durability == (Durability { kind: DurabilityKind::VOLATILE }),
    }
    &&& match native.durability_service {
        Some(service) => {
            &&& qos.durability_service.service_cleanup_delay == service.service_cleanup_delay
            &&& qos.durability_service.history_kind.number() == service.history_kind
            &&& qos.durability_service.history_depth == service.history_depth
            &&& qos.durability_service.max_samples == service.max_samples
            &&& qos.durability_service.max_instances == service.max_instances
            &&& qos.durability_service.max_samples_per_instance == service.max_samples_per_instance
        },
        None => qos.durability_service == default_durability_service(),
    }
    &&& qos.reliability == reliability
    &&& qos.deadline.period == (match native.deadline {
        Some(period) => period,
        None => DDS_INFINITE_TIME,
    })
    &&& qos.latency_budget.duration == (match native.latency_budget {
        Some(duration) => duration,
        None => 0,
    })
    &&& qos.ownership.kind.number() == (match native.ownership {
        Some(kind) => kind,
        None => 0,
    })
    &&& match native.liveliness {
        Some(value) => qos.liveliness.kind.number() == value.0 && qos.liveliness.lease_duration == value.1,
        None => qos.liveliness == (Liveliness { kind: LivelinessKind::AUTOMATIC, lease_duration: DDS_INFINITE_TIME }),
    }
    &&& qos.destination_order.kind.number() == (match native.destination_order {
        Some(kind) => kind,
        None => 0,
    })
    &&& match native.history {
        Some(value) => qos.history.kind.number() == value.0 && qos.history.depth == value.1,
        None => qos.history == (History { kind: HistoryKind::KEEP_LAST, depth: 1 }),
    }
    &&& qos.partitions == (match native.partitions {
        Some(list) => list,
        None => seq![],
    })
    &&& qos.userdata == (match native.userdata {
        Some(bytes) => bytes,
        None => seq![],
    })
    &&& !qos.ignore_local_participant
}

/// The reliability that `native` tells, or one of kind `otherwise` that blocks for a tenth of a second.
pub open spec fn reliability_read(
    reliability: Reliability,
    native: NativeQosView,
    otherwise: ReliabilityKind,
) -> bool {
    match native.reliability {
        Some(value) => reliability.kind.number() == value.0 && reliability.max_blocking_time == value.1,
        None => reliability == (Reliability { kind: otherwise, max_blocking_time: DDS_100MS_DURATION }),
    }
}

/// The native QoS that holds the policies of `qos`: partitions and user data only
/// where there are any, and what is ignored only where something is.
pub open spec fn native_of(qos: QosView) -> NativeQosView {
    NativeQosView {
        reliability: Some((qos.reliability.kind.number(), qos.reliability.max_blocking_time)),
        durability: Some(qos.durability.kind.number()),
        durability_service: Some(
            NativeDurabilityService {
                service_cleanup_delay: qos.durability_service.service_cleanup_delay,
                history_kind: qos.durability_service.history_kind.number(),
                history_depth: qos.durability_service.history_depth,
                max_samples: qos.durability_service.max_samples,
                max_instances: qos.durability_service.max_instances,
                max_samples_per_instance: qos.durability_service.max_samples_per_instance,
            },
        ),
        deadline: Some(qos.deadline.period),
        latency_budget: Some(qos.latency_budget.duration),
        ownership: Some(qos.ownership.kind.number()),
        liveliness: Some((qos.liveliness.kind.number(), qos.liveliness.lease_duration)),
        destination_order: Some(qos.destination_order.kind.number()),
        history: Some((qos.history.kind.number(), qos.history.depth)),
        partitions: if qos.partitions.len() > 0 {
            Some(qos.partitions)
        } else {
            None
        },
        userdata: if qos.userdata.len() > 0 {
            Some(qos.userdata)
        } else {
            None
        },
        ignore_local: if qos.ignore_local_participant {
            Some(IGNORE_LOCAL_PARTICIPANT)
        } else {
            None
        },
    }
}

/// Whether `text` can be handed to DDS: no character of it is NUL.
pub open spec fn no_nul(text: Seq<char>) -> bool {
    forall|i: int| 0 <= i < text.len() ==> text[i] != '\0'
}

/// A copy of bytes.
pub fn clone_bytes(bytes: &Vec<u8>) -> (copy: Vec<u8>)
    ensures
        copy@ == bytes@,
{
    let mut copy: Vec<u8> = Vec::new();
    copy.extend_from_slice(bytes.as_slice());
    assert(copy@ =~= bytes@);
    copy
}

impl Qos {
    /// The QoS that `qos` tells, with `reliability`.
    pub fn from_qos_native_with_reliability(qos: &NativeQos, reliability: Reliability) -> (read: Qos)
        requires
            qos@.kinds_known(),
        ensures
            read_from(read@, qos@, reliability),
    {
        let durability: Durability = match qos.durability {
            Some(kind) => Durability { kind: DurabilityKind::from(kind) },
            None => Durability::default(),
        };
        let durability_service: DurabilityService = match qos.durability_service {
            Some(service) => DurabilityService {
                service_cleanup_delay: service.service_cleanup_delay,
                history_kind: HistoryKind::from(service.history_kind),
                history_depth: service.history_depth,
                max_samples: service.max_samples,
                max_instances: service.max_instances,
                max_samples_per_instance: service.max_samples_per_instance,
            },
            None => DurabilityService::default(),
        };
        let deadline: Deadline = match qos.deadline {
            Some(period) => Deadline { period },
            None => Deadline::default(),
        };
        let latency_budget: LatencyBudget = match qos.latency_budget {
            Some(duration) => LatencyBudget { duration },
            None => LatencyBudget::default(),
        };
        let ownership: Ownership = match qos.ownership {
            Some(kind) => Ownership { kind: OwnershipKind::from(kind) },
            None => Ownership::default(),
        };
        let liveliness: Liveliness = match qos.liveliness {
            Some((kind, lease_duration)) => Liveliness { kind: LivelinessKind::from(kind), lease_duration },
            None => Liveliness::default(),
        };
        let destination_order: DestinationOrder = match qos.destination_order {
            Some(kind) => DestinationOrder { kind: DestinationOrderKind::from(kind) },
            None => DestinationOrder::default(),
        };
        let history: History = match qos.history {
            Some((kind, depth)) => History { kind: HistoryKind::from(kind), depth },
            None => History::default(),
        };
        let partitions: Vec<String> = match &qos.partitions {
            Some(list) => clone_strings(list),
            None => Vec::new(),
        };
        let userdata: Vec<u8> = match &qos.userdata {
            Some(bytes) => clone_bytes(bytes),
            None => Vec::new(),
        };
        let read: Qos = Qos {
            durability,
            durability_service,
            reliability,
            deadline,
            latency_budget,
            ownership,
            liveliness,
            destination_order,
            history,
            partitions,
            userdata,
            ignore_local_participant: false,
        };
        assert(qos@.partitions is None ==> read@.partitions =~= seq![]);
        read
    }

    /// The QoS of a writer that `qos` tells. A writer is reliable where that is not told.
    pub fn from_writer_qos_native(qos: &NativeQos) -> (read: Qos)
        requires
            qos@.kinds_known(),
            qos@.reliability_known(),
        ensures
            read_from(read@, qos@, read.reliability),
            reliability_read(read.reliability, qos@, ReliabilityKind::RELIABLE),
    {
        let reliability: Reliability = match qos.reliability {
            Some((kind, max_blocking_time)) => Reliability { kind: ReliabilityKind::from(kind), max_blocking_time },
            None => Reliability { kind: ReliabilityKind::RELIABLE, max_blocking_time: DDS_100MS_DURATION },
        };
        Qos::from_qos_native_with_reliability(qos, reliability)
    }

    /// The QoS of a reader that `qos` tells. A reader is not reliable where that is not told.
    pub fn from_reader_qos_native(qos: &NativeQos) -> (read: Qos)
        requires
            qos@.kinds_known(),
            qos@.reliability_known(),
        ensures
            read_from(read@, qos@, read.reliability),
            reliability_read(read.reliability, qos@, ReliabilityKind::BEST_EFFORT),
    {
        let reliability: Reliability = match qos.reliability {
            Some((kind, max_blocking_time)) => Reliability { kind: ReliabilityKind::from(kind), max_blocking_time },
            None => Reliability { kind: ReliabilityKind::BEST_EFFORT, max_blocking_time: DDS_100MS_DURATION },
        };
        Qos::from_qos_native_with_reliability(qos, reliability)
    }

    /// The native QoS for this one.
    pub fn to_qos_native(&self) -> (native: NativeQos)
        requires
            forall|i: int| 0 <= i < self.partitions@.len() ==> no_nul(#[trigger] self.partitions@[i]@),
        ensures
            native@ == native_of(self@),
    {
        let native: NativeQos = NativeQos {
            reliability: Some((self.reliability.kind.to_native(), self.reliability.max_blocking_time)),
            durability: Some(self.durability.kind.to_native()),
            durability_service: Some(
                NativeDurabilityService {
                    service_cleanup_delay: self.durability_service.service_cleanup_delay,
                    history_kind: self.durability_service.history_kind.to_native(),
                    history_depth: self.durability_service.history_depth,
                    max_samples: self.durability_service.max_samples,
                    max_instances: self.durability_service.max_instances,
                    max_samples_per_instance: self.durability_service.max_samples_per_instance,
                },
            ),
            deadline: Some(self.deadline.period),
            latency_budget: Some(self.latency_budget.duration),
            ownership: Some(self.ownership.kind.to_native()),
            liveliness: Some((self.liveliness.kind.to_native(), self.liveliness.lease_duration)),
            destination_order: Some(self.destination_order.kind.to_native()),
            history: Some((self.history.kind.to_native(), self.history.depth)),
            partitions: if self.partitions.len() > 0 {
                Some(clone_strings(&self.partitions))
            } else {
                None
            },
            userdata: if self.userdata.len() > 0 {
                Some(clone_bytes(&self.userdata))
            } else {
                None
            },
            ignore_local: if self.ignore_local_participant {
                Some(IGNORE_LOCAL_PARTICIPANT)
            } else {
                None
            },
        };
        native
    }
}

impl Clone for Qos {
    fn clone(&self) -> (copy: Qos)
        ensures
            copy@ == self@,
    {
        Qos {
            durability: self.durability,
            durability_service: self.durability_service,
            reliability: self.reliability,
            deadline: self.deadline,
            latency_budget: self.latency_budget,
            ownership: self.ownership,
            liveliness: self.liveliness,
            destination_order: self.destination_order,
            history: self.history,
            partitions: clone_strings(&self.partitions),
            userdata: clone_bytes(&self.userdata),
            ignore_local_participant: self.ignore_local_participant,
        }
    }
}

/// The QoS of a reader that tells no policy.
pub open spec fn default_qos() -> QosView {
    QosView {
        durability: Durability { kind: DurabilityKind::VOLATILE },
        durability_service: default_durability_service(),
        reliability: Reliability { kind: ReliabilityKind::BEST_EFFORT, max_blocking_time: DDS_100MS_DURATION },
        deadline: Deadline { period: DDS_INFINITE_TIME },
        latency_budget: LatencyBudget { duration: 0 },
        ownership: Ownership { kind: OwnershipKind::SHARED },
        liveliness: Liveliness { kind: LivelinessKind::AUTOMATIC, lease_duration: DDS_INFINITE_TIME },
        destination_order: DestinationOrder { kind: DestinationOrderKind::BY_RECEPTION_TIMESTAMP },
        history: History { kind: HistoryKind::KEEP_LAST, depth: 1 },
        partitions: seq![],
        userdata: seq![],
        ignore_local_participant: false,
    }
}

impl Default for Qos {
    fn default() -> (qos: Qos)
        ensures
            qos@ == default_qos(),
    {
        let native: NativeQos = NativeQos::none();
        Qos::from_reader_qos_native(&native)
    }
}

/// Kinds with the same number are the same.
proof fn lemma_numbers()
    ensures
        forall|a: DurabilityKind, b: DurabilityKind| #[trigger] a.number() == #[trigger] b.number() ==> a == b,
        forall|a: ReliabilityKind, b: ReliabilityKind| #[trigger] a.number() == #[trigger] b.number() ==> a == b,
        forall|a: DestinationOrderKind, b: DestinationOrderKind| #[trigger]
            a.number() == #[trigger] b.number() ==> a == b,
        forall|a: LivelinessKind, b: LivelinessKind| #[trigger] a.number() == #[trigger] b.number() ==> a == b,
        forall|a: OwnershipKind, b: OwnershipKind| #[trigger] a.number() == #[trigger] b.number() ==> a == b,
        forall|a: HistoryKind, b: HistoryKind| #[trigger] a.number() == #[trigger] b.number() ==> a == b,
{
}

/// What is read from the native QoS of `qos` is `qos` again, for a reader as for a writer.
/// What is ignored is not read, so it is left out.
pub proof fn law_native_round_trip(qos: QosView, read: QosView, otherwise: ReliabilityKind)
    requires
        read_from(read, native_of(qos), read.reliability),
        reliability_read(read.reliability, native_of(qos), otherwise),
    ensures
        read == (QosView { ignore_local_participant: false, ..qos }),
{
    lemma_numbers();
    assert(read.partitions =~= qos.partitions);
    assert(read.userdata =~= qos.userdata);
}

/// A native QoS tells one QoS.
pub proof fn law_native_tells_one(one: QosView, other: QosView, native: NativeQosView, otherwise: ReliabilityKind)
    requires
        read_from(one, native, one.reliability),
        reliability_read(one.reliability, native, otherwise),
        read_from(other, native, other.reliability),
        reliability_read(other.reliability, native, otherwise),
    ensures
        one == other,
{
    lemma_numbers();
}

} // verus!
