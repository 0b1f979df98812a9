use zenoh_plugin_dds::json::JsonValue;
use zenoh_plugin_dds::policies::{
    adapt_reader_qos_for_proxy_reader, adapt_reader_qos_for_writer, adapt_writer_qos_for_proxy_writer,
    adapt_writer_qos_for_reader, IgnoreLocal, IgnoreLocalKind, OwnershipStrength, QosPolicies, TimeBasedFilter,
};
use zenoh_plugin_dds::qos::{
    DestinationOrderKind, Durability, DurabilityKind, DurabilityService, History, HistoryKind, LivelinessKind,
    NativeQos, OwnershipKind, Qos, Reliability, ReliabilityKind, DDS_100MS_DURATION, DDS_1S_DURATION,
    DDS_INFINITE_TIME, DDS_LENGTH_UNLIMITED,
};
use zenoh_plugin_dds::qos_helpers::{
    get_durability_service_or_default, get_history_or_default, is_reader_reliable, is_transient_local,
    is_writer_reliable, partition_contains, partition_is_empty,
};
use zenoh_plugin_dds::qos_holder::QosHolder;

#[test]
fn test_to_native() {
    let native = NativeQos::none();
    let mut qos = Qos::from_writer_qos_native(&native);

    let native2 = qos.to_qos_native();
    let qos2 = Qos::from_writer_qos_native(&native2);
    assert!(qos == qos2);

    qos.partitions.push("P1".to_string());
    qos.partitions.push("P2".to_string());

    let native3 = qos.to_qos_native();
    let qos3 = Qos::from_writer_qos_native(&native3);
    assert!(qos3.partitions.len() == 2);
    assert!(qos == qos3);
}

#[test]
fn missing_policies_are_read_as_defaults() {
    let written = Qos::from_writer_qos_native(&NativeQos::none());
    assert_eq!(written.reliability.kind, ReliabilityKind::RELIABLE);
    assert_eq!(written.reliability.max_blocking_time, DDS_100MS_DURATION);
    assert_eq!(written.durability.kind, DurabilityKind::VOLATILE);
    assert_eq!(written.history.kind, HistoryKind::KEEP_LAST);
    assert_eq!(written.history.depth, 1);
    assert_eq!(written.deadline.period, DDS_INFINITE_TIME);
    assert_eq!(written.liveliness.kind, LivelinessKind::AUTOMATIC);
    assert_eq!(written.ownership.kind, OwnershipKind::SHARED);
    assert_eq!(written.destination_order.kind, DestinationOrderKind::BY_RECEPTION_TIMESTAMP);
    assert!(!written.ignore_local_participant);
    let read = Qos::from_reader_qos_native(&NativeQos::none());
    assert_eq!(read.reliability.kind, ReliabilityKind::BEST_EFFORT);
}

#[test]
fn set_policies_are_read_as_they_are() {
    let mut native = NativeQos::none();
    native.reliability = Some((1, 5));
    native.durability = Some(1);
    native.history = Some((1, 0));
    native.liveliness = Some((2, 7));
    native.partitions = Some(vec!["A".to_string()]);
    native.userdata = Some(vec![1, 2, 3]);
    native.ignore_local = Some(1);
    let qos = Qos::from_reader_qos_native(&native);
    assert_eq!(qos.reliability, Reliability { kind: ReliabilityKind::RELIABLE, max_blocking_time: 5 });
    assert_eq!(qos.durability.kind, DurabilityKind::TRANSIENT_LOCAL);
    assert_eq!(qos.history.kind, HistoryKind::KEEP_ALL);
    assert_eq!(qos.liveliness.kind, LivelinessKind::MANUAL_BY_TOPIC);
    assert_eq!(qos.liveliness.lease_duration, 7);
    assert_eq!(qos.partitions, vec!["A".to_string()]);
    assert_eq!(qos.userdata, vec![1, 2, 3]);
    assert!(Qos::from_reader_qos_native(&qos.to_qos_native()) == qos);
    assert!(qos.clone() == qos);
}

#[test]
fn kinds_have_numbers() {
    assert_eq!(DurabilityKind::from(3), DurabilityKind::PERSISTENT);
    assert_eq!(DurabilityKind::TRANSIENT.to_native(), 2);
    assert_eq!(ReliabilityKind::from(0), ReliabilityKind::BEST_EFFORT);
    assert_eq!(HistoryKind::KEEP_ALL.to_native(), 1);
    assert_eq!(OwnershipKind::from(1), OwnershipKind::EXCLUSIVE);
    assert_eq!(DestinationOrderKind::from(1), DestinationOrderKind::BY_SOURCE_TIMESTAMP);
    assert_eq!(LivelinessKind::from(1), LivelinessKind::MANUAL_BY_PARTICIPANT);
}

#[test]
fn holder_asks_and_sets() {
    let mut holder = QosHolder(NativeQos::none());
    assert!(!holder.is_transient_local());
    assert_eq!(holder.get_history(), (0, 1));
    holder.set_history(1, 4);
    assert_eq!(holder.get_history(), (1, 4));
    holder.set_ignore_local_participant();
    assert_eq!(holder.0.ignore_local, Some(1));
    holder.0.durability = Some(1);
    assert!(holder.is_transient_local());
    holder.0.reliability = Some((1, 9));
    holder.inc_reliability_max_blocking_time();
    assert_eq!(holder.0.reliability, Some((1, 10)));
    holder.0.reliability = Some((1, i64::MAX));
    holder.inc_reliability_max_blocking_time();
    assert_eq!(holder.0.reliability, Some((1, i64::MAX)));
    holder.set_durability_service(60_000_000_000, 0, 5, -1, 7, 8);
    let service = holder.0.durability_service.unwrap();
    assert_eq!(service.service_cleanup_delay, 60_000_000_000);
    assert_eq!((service.history_kind, service.history_depth), (0, 5));
    assert_eq!((service.max_samples, service.max_instances, service.max_samples_per_instance), (-1, 7, 8));
    assert!(holder.clone() == holder);
}

#[test]
fn holder_is_shown_in_json() {
    let mut native = NativeQos::none();
    native.durability = Some(1);
    let json = QosHolder(native).to_json();
    if let JsonValue::Object(members) = json {
        assert_eq!(members[0].0, "durability");
        match &members[0].1 {
            JsonValue::Object(inner) => {
                assert_eq!(inner[0].0, "kind");
                assert!(matches!(&inner[0].1, JsonValue::Text(t) if t == "TRANSIENT_LOCAL"));
            }
            _ => panic!("no object"),
        }
        assert_eq!(members[1].0, "reliability");
        assert!(matches!(&members[1].1, JsonValue::Text(t) if t == "FAILED TO RETRIEVE"));
    } else {
        panic!("no object");
    }
}

fn writer_policies() -> QosPolicies {
    let mut qos = QosPolicies::unknown();
    qos.durability = Some(Durability { kind: DurabilityKind::TRANSIENT_LOCAL });
    qos.history = Some(History { kind: HistoryKind::KEEP_LAST, depth: 3 });
    qos.ownership_strength = Some(OwnershipStrength { value: 2 });
    qos.time_based_filter = Some(TimeBasedFilter { minimum_separation: 5 });
    qos.entity_name = Some("name".to_string());
    qos.partition = Some(vec!["P".to_string()]);
    qos
}

#[test]
fn writer_qos_is_adapted_for_a_reader() {
    let reader = adapt_writer_qos_for_reader(&writer_policies());
    assert!(reader.ownership_strength.is_none());
    assert!(reader.entity_name.is_none());
    assert!(reader.ignore_local.is_none());
    assert_eq!(
        reader.reliability,
        Some(Reliability { kind: ReliabilityKind::BEST_EFFORT, max_blocking_time: DDS_100MS_DURATION })
    );
    assert_eq!(reader.history, Some(History { kind: HistoryKind::KEEP_LAST, depth: 3 }));
    assert_eq!(reader.partition, Some(vec!["P".to_string()]));
}

#[test]
fn writer_qos_is_adapted_for_a_proxy() {
    let proxy = adapt_writer_qos_for_proxy_writer(&writer_policies());
    assert!(proxy.entity_name.is_none());
    assert_eq!(proxy.ignore_local, Some(IgnoreLocal { kind: IgnoreLocalKind::PARTICIPANT }));
    assert_eq!(proxy.ownership_strength, Some(OwnershipStrength { value: 2 }));
    assert!(proxy.reliability.is_none());
}

#[test]
fn reader_qos_is_adapted_for_a_writer() {
    let mut reader = writer_policies();
    reader.reliability = Some(Reliability { kind: ReliabilityKind::RELIABLE, max_blocking_time: 10 });
    let writer = adapt_reader_qos_for_writer(&reader);
    assert!(writer.time_based_filter.is_none());
    assert_eq!(writer.ignore_local, Some(IgnoreLocal { kind: IgnoreLocalKind::PARTICIPANT }));
    assert_eq!(
        writer.reliability,
        Some(Reliability { kind: ReliabilityKind::RELIABLE, max_blocking_time: 11 })
    );
    assert_eq!(
        writer.durability_service,
        Some(DurabilityService {
            service_cleanup_delay: 60 * DDS_1S_DURATION,
            history_kind: HistoryKind::KEEP_LAST,
            history_depth: 3,
            max_samples: DDS_LENGTH_UNLIMITED,
            max_instances: DDS_LENGTH_UNLIMITED,
            max_samples_per_instance: DDS_LENGTH_UNLIMITED,
        })
    );
    reader.durability = None;
    reader.reliability = None;
    let writer = adapt_reader_qos_for_writer(&reader);
    assert!(writer.durability_service.is_none());
    assert_eq!(
        writer.reliability,
        Some(Reliability { kind: ReliabilityKind::BEST_EFFORT, max_blocking_time: DDS_100MS_DURATION + 1 })
    );
}

#[test]
fn reader_qos_is_adapted_for_a_proxy() {
    let mut reader = writer_policies();
    reader.ignore_local = Some(IgnoreLocal { kind: IgnoreLocalKind::PROCESS });
    let proxy = adapt_reader_qos_for_proxy_reader(&reader);
    assert!(proxy.ignore_local.is_none());
    assert!(proxy.entity_name.is_none());
    assert_eq!(proxy.time_based_filter, Some(TimeBasedFilter { minimum_separation: 5 }));
}

#[test]
fn helpers_tell_what_policies_mean() {
    let none = QosPolicies::unknown();
    assert_eq!(get_history_or_default(&none), History { kind: HistoryKind::KEEP_LAST, depth: 1 });
    assert_eq!(get_durability_service_or_default(&none).max_instances, DDS_LENGTH_UNLIMITED);
    assert!(!is_transient_local(&none));
    assert!(is_transient_local(&writer_policies()));
    assert!(is_writer_reliable(&None));
    assert!(!is_reader_reliable(&None));
    let best_effort = Some(Reliability { kind: ReliabilityKind::BEST_EFFORT, max_blocking_time: 0 });
    let reliable = Some(Reliability { kind: ReliabilityKind::RELIABLE, max_blocking_time: 0 });
    assert!(!is_writer_reliable(&best_effort) && is_writer_reliable(&reliable));
    assert!(!is_reader_reliable(&best_effort) && is_reader_reliable(&reliable));
    assert!(partition_is_empty(&None) && partition_is_empty(&Some(vec![])));
    assert!(!partition_is_empty(&Some(vec!["P".to_string()])));
    assert!(partition_contains(&Some(vec!["P".to_string(), "Q".to_string()]), &"Q".to_string()));
    assert!(!partition_contains(&None, &"Q".to_string()));
}
