use zenoh_plugin_dds::collections::{KeyMap, KeySet};
use zenoh_plugin_dds::config::{Config, MaxFrequency};
use zenoh_plugin_dds::key_expr::KeyExpr;
use zenoh_plugin_dds::pattern::TopicPattern;
use zenoh_plugin_dds::policies::QosPolicies;
use zenoh_plugin_dds::qos::{Durability, DurabilityKind, DurabilityService, History, HistoryKind};
use zenoh_plugin_dds::queries::Locality;
use zenoh_plugin_dds::routes::{
    congestion_control, delivery, publication_cache_history, CongestionControl, Delivery, RouteDDSZenoh,
    RouteZenohDDS, SubscriberPlan, DDS_ENTITY_NULL,
};

fn key(text: &str) -> KeyExpr {
    KeyExpr::new(text).unwrap()
}

fn name(text: &str) -> String {
    text.to_string()
}

#[test]
fn sets_of_keys() {
    let mut set = KeySet::new();
    assert!(set.is_empty());
    set.insert(name("a/1"));
    set.insert(name("b/1"));
    set.insert(name("a/1"));
    assert_eq!(set.to_vec().len(), 2);
    assert!(set.contains("a/1") && !set.contains("a"));
    assert!(set.any_containing("b/") && !set.any_containing("c/"));
    set.remove_containing("a/");
    assert!(!set.contains("a/1") && set.contains("b/1"));
    set.remove("b/1");
    assert!(set.is_empty());
}

#[test]
fn maps_of_keys() {
    let mut map: KeyMap<Vec<u8>> = KeyMap::new();
    map.insert(name("a"), vec![1]);
    map.insert(name("b"), vec![2]);
    map.insert(name("a"), vec![3]);
    assert_eq!(map.len(), 2);
    assert_eq!(map.get("a"), Some(&vec![3]));
    assert!(map.contains_key("b") && !map.contains_key("c"));
    assert_eq!(map.remove("b"), Some(vec![2]));
    assert_eq!(map.remove("b"), None);
    assert_eq!(map.key_at(0), "a");
    assert_eq!(map.value_at(0), &vec![3]);
    assert_eq!(map.pop(), Some((name("a"), vec![3])));
    assert_eq!(map.pop(), None);
}

#[test]
fn reliable_routes_may_block() {
    assert_eq!(congestion_control(true, true), CongestionControl::Block);
    assert_eq!(congestion_control(true, false), CongestionControl::Drop);
    assert_eq!(congestion_control(false, true), CongestionControl::Drop);
}

#[test]
fn publications_are_cached_by_history() {
    let last = |depth: i32| History { kind: HistoryKind::KEEP_LAST, depth };
    assert_eq!(publication_cache_history(last(5), true, 10), 5);
    assert_eq!(publication_cache_history(last(5), false, 10), 50);
    assert_eq!(publication_cache_history(last(5), false, -1), usize::MAX);
    assert_eq!(publication_cache_history(last(5), false, 0), 5);
    assert_eq!(publication_cache_history(last(i32::MAX), false, 2), usize::MAX);
    assert_eq!(
        publication_cache_history(History { kind: HistoryKind::KEEP_ALL, depth: 0 }, true, 1),
        usize::MAX
    );
}

#[test]
fn route_from_dds_is_planned() {
    let mut config = Config::new(None, None);
    config.max_frequencies.push(MaxFrequency {
        pattern: TopicPattern::new("slow").unwrap(),
        frequency: 2f32.to_bits(),
        shown: name("2"),
    });
    let mut qos = QosPolicies::unknown();
    qos.durability = Some(Durability { kind: DurabilityKind::TRANSIENT_LOCAL });
    qos.history = Some(History { kind: HistoryKind::KEEP_LAST, depth: 4 });
    qos.durability_service = Some(DurabilityService { max_instances: 3, ..DurabilityService::default() });
    let plan = RouteDDSZenoh::plan(
        &config,
        &name("slow"),
        &name("T"),
        false,
        &qos,
        &key("slow"),
        CongestionControl::Block,
    );
    assert_eq!(plan.cache, Some(12));
    assert_eq!(plan.queryable_origin, Locality::Remote);
    assert_eq!(plan.read_frequency, Some(2f32.to_bits()));
    assert_eq!(plan.reader_qos.history, Some(History { kind: HistoryKind::KEEP_LAST, depth: 1 }));
    let plan = RouteDDSZenoh::plan(
        &config,
        &name("fast"),
        &name("T"),
        false,
        &QosPolicies::unknown(),
        &key("fast"),
        CongestionControl::Drop,
    );
    assert_eq!(plan.cache, None);
    assert_eq!(plan.read_frequency, None);
    assert!(plan.reader_qos.history.is_none());
}

#[test]
fn route_from_dds_serves_endpoints() {
    let mut route = RouteDDSZenoh::new(5, &name("topic"), &name("T"), true, None);
    assert_eq!(route.show(&key("k")), "Route DDS->Zenoh (topic -> k)");
    assert!(!route.has_local_routed_writer() && !route.has_remote_routed_reader());
    route.add_local_routed_writer(name("w1"));
    route.add_remote_routed_reader(&key("@/service/u/dds/participant/1/reader/r1/topic"));
    assert!(route.has_local_routed_writer() && route.has_remote_routed_reader());
    assert!(route.is_routing_remote_reader("r1") && !route.is_routing_remote_reader("r2"));
    route.remove_remote_routed_readers_containing("@/service/v/dds/");
    assert!(route.has_remote_routed_reader());
    route.remove_remote_routed_readers_containing("@/service/u/dds/");
    assert!(!route.has_remote_routed_reader());
    route.remove_local_routed_writer("w1");
    assert!(!route.has_local_routed_writer());
    assert_eq!(
        RouteDDSZenoh::keyexpr_failure("topic", &key("k"), "closed"),
        "Route Zenoh->DDS (topic -> k): failed to declare KeyExpr: closed"
    );
    assert_eq!(
        RouteDDSZenoh::cache_failure(&key("k"), "4", "closed"),
        "Failed create PublicationCache for key k (rid=4): closed"
    );
}

#[test]
fn route_to_dds_has_one_writer() {
    let mut route = RouteZenohDDS::new(true, &name("topic"), &name("T"), true);
    assert_eq!(route.show(&key("k")), "Route Zenoh->DDS (k -> topic)");
    assert_eq!(route.dds_writer, DDS_ENTITY_NULL);
    assert_eq!(route.set_dds_writer(7), None);
    assert_eq!(route.set_dds_writer(8), Some(8));
    assert_eq!(route.dds_writer, 7);
    assert_eq!(route.delete_dds_writer(), Some(7));
    assert_eq!(route.delete_dds_writer(), None);
    match RouteZenohDDS::plan_subscriber(&key("k"), true) {
        SubscriberPlan::FetchingSubscriber(selector) => assert_eq!(selector.as_str(), "k/@dds_pub_cache/*"),
        SubscriberPlan::Subscriber => panic!("does not fetch"),
    }
    assert!(matches!(RouteZenohDDS::plan_subscriber(&key("k"), false), SubscriberPlan::Subscriber));
    assert_eq!(
        RouteZenohDDS::subscriber_failure(&key("k"), "topic", true, "closed"),
        "Route Zenoh->DDS (k -> topic): failed to create FetchingSubscriber: closed"
    );
}

#[test]
fn data_waits_for_its_writer() {
    assert_eq!(delivery(7, 0), Delivery::Write(7));
    assert_eq!(delivery(0, 0), Delivery::Retry(1));
    assert_eq!(delivery(0, 28), Delivery::Retry(29));
    assert_eq!(delivery(0, 29), Delivery::Discard);
}
