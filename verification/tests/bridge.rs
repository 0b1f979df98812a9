use std::collections::HashMap;

use zenoh_plugin_dds::admin::{AdminValue, DDSPlugin};
use zenoh_plugin_dds::collections::KeyMap;
use zenoh_plugin_dds::config::Config;
use zenoh_plugin_dds::discoverer::{matched_entities, MatchedEntity};
use zenoh_plugin_dds::entity::{
    discovery_event, participant_event, DdsEntity, DdsParticipant, DiscoveryEvent, EndpointSample,
    ParticipantSample, RouteStatus,
};
use zenoh_plugin_dds::json::{remove_null_qos_values, JsonValue};
use zenoh_plugin_dds::key_expr::KeyExpr;
use zenoh_plugin_dds::keys::{admin_keyexpr_prefix, fwd_key_prefix};
use zenoh_plugin_dds::modes::{DiscoveryMode, ForwardStep, LocalStep, RemoteStep};
use zenoh_plugin_dds::pattern::TopicPattern;
use zenoh_plugin_dds::policies::QosPolicies;
use zenoh_plugin_dds::qos::{Durability, DurabilityKind};
use zenoh_plugin_dds::queries::{ConsolidationMode, Locality, QuerySettings, QueryTarget, ReplyKeyExpr};
use zenoh_plugin_dds::ros_discovery::{
    deserialize_node_entities_info_seq, latest_samples, ros_discovery_reader_qos, ros_discovery_writer_qos,
    NodeEntitiesInfo, ParticipantEntitiesInfo,
};
use zenoh_plugin_dds::runtime::DdsPluginRuntime;

const WRITER: &str = "0a000000000000000000000000000003";
const READER: &str = "0b000000000000000000000000000004";
const PARTICIPANT: &str = "0c0000000000000000000000000000c1";

fn key(text: &str) -> KeyExpr {
    KeyExpr::new(text).unwrap()
}

fn endpoint(key: &str, topic: &str, partitions: &[&str]) -> DdsEntity {
    let mut qos = QosPolicies::unknown();
    if !partitions.is_empty() {
        qos.partition = Some(partitions.iter().map(|p| p.to_string()).collect());
    }
    DdsEntity {
        key: key.to_string(),
        participant_key: PARTICIPANT.to_string(),
        topic_name: topic.to_string(),
        topic_type: "T".to_string(),
        keyless: true,
        qos,
        routes: KeyMap::new(),
    }
}

fn bridge(config: Config) -> DdsPluginRuntime {
    DdsPluginRuntime::new(config)
}

fn forwarding() -> Config {
    let mut config = Config::new(None, None);
    config.forward_discovery = true;
    config
}

/// Routes a local writer, each reader that has to be made being the next after `reader`.
fn route_writer(bridge: &mut DdsPluginRuntime, entity: DdsEntity, reader: i32) {
    let step = bridge.on_local_event(DiscoveryEvent::DiscoveredPublication { entity });
    let mut job = match step {
        Ok(LocalStep::RouteWriter(job)) => job,
        _ => panic!("not routed"),
    };
    let mut next = reader;
    while job.next < job.targets.len() {
        let outcome = match bridge.next_from_dds(&job) {
            Some(_) => {
                next += 1;
                Some(Ok(next))
            }
            None => None,
        };
        assert!(bridge.advance_from_dds(&mut job, outcome));
    }
    bridge.finish_local_writer(job);
}

fn route_reader(bridge: &mut DdsPluginRuntime, entity: DdsEntity, writer: i32) {
    let step = bridge.on_local_event(DiscoveryEvent::DiscoveredSubscription { entity });
    let mut job = match step {
        Ok(LocalStep::RouteReader(job)) => job,
        _ => panic!("not routed"),
    };
    while job.next < job.targets.len() {
        let outcome = bridge.next_to_dds(&job).map(|_| Ok(writer));
        assert!(bridge.advance_to_dds(&mut job, outcome));
    }
    bridge.finish_local_reader(job);
}

fn route_remote_writer(bridge: &mut DdsPluginRuntime, entity: DdsEntity, admin: &KeyExpr, writer: i32) {
    let mut job = match bridge.start_remote_writer(entity, &None, admin.clone()) {
        Ok(job) => job,
        Err(_) => panic!("not routed"),
    };
    while job.next < job.targets.len() {
        let outcome = bridge.next_to_dds(&job).map(|_| Ok(writer));
        assert!(bridge.advance_to_dds(&mut job, outcome));
    }
}

fn route_remote_reader(bridge: &mut DdsPluginRuntime, entity: DdsEntity, admin: &KeyExpr, reader: i32) {
    let mut job = match bridge.start_remote_reader(entity, &None, admin.clone()) {
        Ok(job) => job,
        Err(_) => panic!("not routed"),
    };
    while job.next < job.targets.len() {
        let outcome = bridge.next_from_dds(&job).map(|_| Ok(reader));
        assert!(bridge.advance_from_dds(&mut job, outcome));
    }
}

#[test]
fn topics_are_mapped_to_keys() {
    let name = |topic: &str, scope: Option<KeyExpr>, partition: Option<&String>| {
        DdsPluginRuntime::topic_to_keyexpr(topic, &scope, partition).map(|k| k.to_text())
    };
    let partition = "P".to_string();
    assert_eq!(name("A", None, None), Ok("A".to_string()));
    assert_eq!(name("A", None, Some(&partition)), Ok("P/A".to_string()));
    assert_eq!(name("A", Some(key("S")), None), Ok("S/A".to_string()));
    assert_eq!(name("A", Some(key("S")), Some(&partition)), Ok("S/P/A".to_string()));
    assert_eq!(name("rt/rosout", Some(key("myscope")), None), Ok("myscope/rt/rosout".to_string()));
    assert!(name("a//b", None, None).is_err());
    assert!(name("a//b", Some(key("S")), None).is_err());
}

#[test]
fn samples_become_events() {
    let sample = |alive: bool, topic: Option<&str>| EndpointSample {
        participant_instance_handle: 5,
        alive,
        key: [3; 16],
        participant_key: [1; 16],
        topic_name: topic.map(|t| t.to_string()),
        topic_type: Some("T".to_string()),
        qos: QosPolicies::unknown(),
    };
    match discovery_event(sample(true, Some("topic")), true, 9) {
        Some(DiscoveryEvent::DiscoveredPublication { entity }) => {
            assert_eq!(entity.key, "03".repeat(16));
            assert_eq!(entity.participant_key, "01".repeat(16));
            assert_eq!(entity.topic_name, "topic");
            assert!(entity.keyless);
        }
        _ => panic!("no publication"),
    }
    assert!(matches!(
        discovery_event(sample(false, None), false, 9),
        Some(DiscoveryEvent::UndiscoveredSubscription { key }) if key == "03".repeat(16)
    ));
    assert!(discovery_event(sample(true, Some("topic")), true, 5).is_none());
    assert!(discovery_event(sample(true, Some("DCPSParticipant")), true, 9).is_none());
    assert!(discovery_event(sample(true, None), true, 9).is_none());
}

#[test]
fn endpoints_are_told_by_partition() {
    let name = "topic".to_string();
    let told = matched_entities(true, true, &name, &vec![]);
    assert!(matches!(
        &told[..],
        [MatchedEntity::DiscoveredPublication { name, partition: None }] if name == "topic"
    ));
    let told = matched_entities(false, false, &name, &vec!["P".to_string(), "Q".to_string()]);
    assert_eq!(told.len(), 2);
    assert!(matches!(
        &told[1],
        MatchedEntity::UndiscoveredSubscription { partition: Some(p), .. } if p == "Q"
    ));
}

#[test]
fn local_writer_is_routed_and_forgotten() {
    let mut b = bridge(Config::new(None, None));
    route_writer(&mut b, endpoint(WRITER, "topic", &["P", "Q"]), 10);
    assert_eq!(b.routes_from_dds.len(), 2);
    assert!(b.routes_from_dds.get("P/topic").unwrap().has_local_routed_writer());
    let kept = b.discovered_writers.get(WRITER).unwrap();
    assert!(matches!(kept.routes.get("P"), Some(RouteStatus::Routed(ke)) if ke.as_str() == "P/topic"));
    let admin = format!("participant/{}/writer/{}/topic", PARTICIPANT, WRITER);
    assert!(b.admin_space.contains_key(&admin));
    assert!(b.admin_space.contains_key("route/from_dds/P/topic"));

    let step = b.on_local_event(DiscoveryEvent::UndiscoveredPublication { key: WRITER.to_string() });
    match step {
        Ok(LocalStep::DropFromDds(dropped)) => assert_eq!(dropped.len(), 2),
        _ => panic!("nothing dropped"),
    }
    assert_eq!(b.routes_from_dds.len(), 0);
    assert_eq!(b.discovered_writers.len(), 0);
    // only the settings and the version are left
    assert_eq!(b.admin_space.len(), 2);
}

#[test]
fn routes_are_shared() {
    let mut b = bridge(Config::new(None, None));
    let other = "0d000000000000000000000000000003";
    route_writer(&mut b, endpoint(WRITER, "topic", &[]), 10);
    route_writer(&mut b, endpoint(other, "topic", &[]), 20);
    assert_eq!(b.routes_from_dds.len(), 1);
    assert_eq!(b.routes_from_dds.get("topic").unwrap().dds_reader, 11);
    let _ = b.on_local_event(DiscoveryEvent::UndiscoveredPublication { key: WRITER.to_string() });
    assert_eq!(b.routes_from_dds.len(), 1);
    let _ = b.on_local_event(DiscoveryEvent::UndiscoveredPublication { key: other.to_string() });
    assert_eq!(b.routes_from_dds.len(), 0);
}

#[test]
fn what_is_not_allowed_is_not_routed() {
    let mut config = Config::new(None, None);
    config.deny = Some(TopicPattern::new("^secret").unwrap());
    let mut b = bridge(config);
    route_reader(&mut b, endpoint(READER, "secret", &[]), 10);
    assert_eq!(b.routes_to_dds.len(), 0);
    let kept = b.discovered_readers.get(READER).unwrap();
    assert!(matches!(kept.routes.get("*"), Some(RouteStatus::NotAllowed)));
}

#[test]
fn failures_are_kept() {
    let mut b = bridge(Config::new(None, None));
    let mut job = match b.start_local_reader(endpoint(READER, "topic", &[])) {
        Ok(job) => job,
        Err(_) => panic!("not routed"),
    };
    assert!(b.next_to_dds(&job).is_some());
    assert!(!b.advance_to_dds(&mut job, None));
    assert!(b.advance_to_dds(&mut job, Some(Err("no memory".to_string()))));
    assert!(matches!(job.entity.routes.get("*"), Some(RouteStatus::CreationFailure(m)) if m == "no memory"));
    assert_eq!(b.routes_to_dds.len(), 0);
}

#[test]
fn names_that_are_no_keys_are_refused() {
    let mut b = bridge(Config::new(None, None));
    let step = b.on_local_event(DiscoveryEvent::DiscoveredPublication { entity: endpoint(WRITER, "a//b", &[]) });
    assert!(step.is_err());
    assert_eq!(b.admin_space.len(), 2);
}

#[test]
fn participants_come_and_go() {
    let mut b = bridge(Config::new(None, None));
    let entity = DdsParticipant { key: PARTICIPANT.to_string(), qos: QosPolicies::unknown() };
    assert!(b.on_local_event(DiscoveryEvent::DiscoveredParticipant { entity }).is_ok());
    assert!(b.admin_space.contains_key(&format!("participant/{}", PARTICIPANT)));
    assert!(b.on_local_event(DiscoveryEvent::UndiscoveredParticipant { key: PARTICIPANT.to_string() }).is_ok());
    assert_eq!(b.discovered_participants.len(), 0);
    assert_eq!(b.admin_space.len(), 2);
}

#[test]
fn discovery_is_forwarded() {
    let mut b = bridge(forwarding());
    let prefix = fwd_key_prefix(&key("me"), &None);
    let step = b.on_forward_event(
        DiscoveryEvent::DiscoveredPublication { entity: endpoint(WRITER, "topic", &[]) },
        &prefix,
    );
    let told = match step {
        Ok(ForwardStep::TellWriter(told)) => told,
        _ => panic!("not told"),
    };
    let fwd = format!("@/me/@dds_fwd_disco/writer/participant/{}/writer/{}/topic", PARTICIPANT, WRITER);
    assert_eq!(told.fwd_keyexpr.as_str(), fwd);
    b.keep_told_writer(told);
    // a forwarded writer makes no route here
    assert_eq!(b.routes_from_dds.len(), 0);
    match b.on_forward_event(DiscoveryEvent::UndiscoveredPublication { key: WRITER.to_string() }, &prefix) {
        Ok(ForwardStep::TellWriterGone(Some(ke))) => assert_eq!(ke.as_str(), fwd),
        _ => panic!("not told"),
    }
    match b.on_forward_event(DiscoveryEvent::UndiscoveredPublication { key: WRITER.to_string() }, &prefix) {
        Ok(ForwardStep::TellWriterGone(None)) => {}
        _ => panic!("told twice"),
    }
}

fn forward_reader(b: &mut DdsPluginRuntime, entity: DdsEntity) {
    let prefix = fwd_key_prefix(&key("me"), &None);
    let step = b.on_forward_event(DiscoveryEvent::DiscoveredSubscription { entity }, &prefix);
    let told = match step {
        Ok(ForwardStep::RouteReader(told)) => told,
        _ => panic!("not routed"),
    };
    let mut job = told.job;
    assert!(job.qos.is_none());
    while job.next < job.targets.len() {
        let outcome = b.next_to_dds(&job).map(|_| Ok(0));
        assert!(b.advance_to_dds(&mut job, outcome));
    }
    b.finish_local_reader(job);
}

#[test]
fn forwarded_reader_waits_for_a_writer() {
    let mut b = bridge(forwarding());
    forward_reader(&mut b, endpoint(READER, "topic", &[]));
    assert_eq!(b.routes_to_dds.get("topic").unwrap().dds_writer, 0);
    let admin = key("@/service/you/dds/participant/1/writer/w1/topic");
    route_remote_writer(&mut b, endpoint("w1", "topic", &[]), &admin, 33);
    let route = b.routes_to_dds.get("topic").unwrap();
    assert_eq!(route.dds_writer, 33);
    assert!(route.local_routed_readers.contains(READER));
    // the writer leaves, the reader stays
    match b.on_remote_message(
        &key("@/you/@dds_fwd_disco/writer/participant/1/writer/w1/topic"),
        true,
    ) {
        RemoteStep::DropToDds(dropped, deleted) => {
            assert!(dropped.is_empty());
            assert_eq!(deleted.len(), 1);
            assert_eq!(deleted[0].writer, 33);
        }
        _ => panic!("nothing deleted"),
    }
    assert_eq!(b.routes_to_dds.get("topic").unwrap().dds_writer, 0);
    let prefix = fwd_key_prefix(&key("me"), &None);
    match b.on_forward_event(DiscoveryEvent::UndiscoveredSubscription { key: READER.to_string() }, &prefix) {
        Ok(ForwardStep::TellReaderGone(Some(_), dropped)) => assert_eq!(dropped.len(), 1),
        _ => panic!("nothing dropped"),
    }
    assert_eq!(b.routes_to_dds.len(), 0);
}

#[test]
fn remote_reader_meets_local_writers() {
    let mut b = bridge(forwarding());
    let prefix = fwd_key_prefix(&key("me"), &None);
    let step = b.on_forward_event(
        DiscoveryEvent::DiscoveredPublication { entity: endpoint(WRITER, "topic", &["P"]) },
        &prefix,
    );
    if let Ok(ForwardStep::TellWriter(told)) = step {
        b.keep_told_writer(told);
    }
    let admin = key("@/service/you/dds/participant/1/reader/r1/topic");
    route_remote_reader(&mut b, endpoint("r1", "topic", &["P"]), &admin, 44);
    let route = b.routes_from_dds.get("P/topic").unwrap();
    assert!(route.local_routed_writers.contains(WRITER));
    assert!(route.is_routing_remote_reader("r1"));
    assert!(matches!(
        b.discovered_writers.get(WRITER).unwrap().routes.get("P"),
        Some(RouteStatus::Routed(ke)) if ke.as_str() == "P/topic"
    ));
    match b.on_remote_message(
        &key("@/you/@dds_fwd_disco/reader/participant/1/reader/r1/topic"),
        true,
    ) {
        RemoteStep::DropFromDds(dropped) => {
            assert_eq!(dropped.len(), 1);
            assert_eq!(dropped[0].route.dds_reader, 44);
        }
        _ => panic!("nothing dropped"),
    }
}

#[test]
fn messages_are_told_apart() {
    let mut b = bridge(forwarding());
    let step = b.on_remote_message(&key("@/you/@dds_fwd_disco/writer/participant/1/writer/2/t"), false);
    match step {
        RemoteStep::RouteWriter(admin) => {
            assert_eq!(admin.as_str(), "@/service/you/dds/participant/1/writer/2/t")
        }
        _ => panic!("no writer"),
    }
    assert!(matches!(
        b.on_remote_message(&key("@/you/@dds_fwd_disco/ros_disco/0a"), false),
        RemoteStep::RosNodes
    ));
    assert!(matches!(b.on_remote_message(&key("a/b"), false), RemoteStep::Ignored));
    assert!(matches!(b.on_remote_message(&key("@/service"), false), RemoteStep::Ignored));
}

#[test]
fn querying_routes_ask_a_new_bridge() {
    let mut config = Config::new(None, None);
    config.queries_timeout = 7;
    let mut b = bridge(config);
    let mut transient = endpoint(READER, "topic", &[]);
    transient.qos.durability = Some(Durability { kind: DurabilityKind::TRANSIENT_LOCAL });
    route_reader(&mut b, transient, 10);
    route_reader(&mut b, endpoint("0e000000000000000000000000000004", "other", &[]), 11);
    let queries = match b.member_joined("you") {
        Ok(queries) => queries,
        Err(_) => panic!("not asked"),
    };
    assert_eq!(queries.discovery.as_str(), "@/you/@dds_fwd_disco/**");
    assert_eq!(queries.historical.len(), 1);
    assert_eq!(queries.historical[0].route.as_str(), "topic");
    assert_eq!(queries.historical[0].selector.as_str(), "@/you/@dds_pub_cache/topic");
    let all = QuerySettings {
        target: QueryTarget::All,
        consolidation: ConsolidationMode::Unconsolidated,
        accept_replies: ReplyKeyExpr::Any,
        timeout: 7,
    };
    assert_eq!(queries.historical[0].settings, all);
    assert_eq!(
        queries.discovery_settings,
        QuerySettings { accept_replies: ReplyKeyExpr::MatchingQuery, ..all }
    );
    assert!(b.member_joined("").is_err());
}

fn node(name: &str, readers: &[&str], writers: &[&str]) -> NodeEntitiesInfo {
    NodeEntitiesInfo {
        node_namespace: "/".to_string(),
        node_name: name.to_string(),
        reader_gid_seq: readers.iter().map(|g| g.to_string()).collect(),
        writer_gid_seq: writers.iter().map(|g| g.to_string()).collect(),
    }
}

#[test]
fn nodes_are_told_with_the_ids_of_routes() {
    let mut b = bridge(forwarding());
    route_remote_reader(&mut b, endpoint("r1", "t1", &[]), &key("@/service/you/dds/participant/1/reader/r1/t1"), 44);
    route_remote_writer(&mut b, endpoint("w1", "t2", &[]), &key("@/service/you/dds/participant/1/writer/w1/t2"), 55);
    let nodes = deserialize_node_entities_info_seq(vec![node("a", &["r1", "r2"], &["w1"]), node("b", &["r3"], &[])]);
    let mut guids = HashMap::new();
    let mut info = ParticipantEntitiesInfo::new("me".to_string());
    assert!(!b.guids_known(&nodes, &guids));
    guids.insert(44, "route-reader".to_string());
    guids.insert(55, "route-writer".to_string());
    assert!(b.guids_known(&nodes, &guids));
    assert!(b.take_in_nodes(nodes, &guids, &mut info));
    // the node without routed endpoints is not told of
    assert_eq!(info.node_entities_info_seq.len(), 1);
    let told = info.node_entities_info_seq.get("/a").unwrap();
    assert_eq!(told.reader_gid_seq, vec!["route-reader".to_string()]);
    assert_eq!(told.writer_gid_seq, vec!["route-writer".to_string()]);
    assert_eq!(told.show(), "Node /a : 1 pub / 1 sub");
    assert_eq!(info.show(), "participant me : [(Node /a : 1 pub / 1 sub), ]");

    // the bridge that the endpoints are of leaves
    let (to_dds, from_dds, changed) = b.bridge_left("you", &guids, &mut info);
    assert_eq!(to_dds.len(), 1);
    assert_eq!(from_dds.len(), 1);
    assert!(changed);
    assert_eq!(info.node_entities_info_seq.len(), 0);
    assert_eq!(b.routes_from_dds.len(), 0);
    assert_eq!(b.routes_to_dds.len(), 0);
    assert_eq!(b.admin_space.len(), 2);
}

#[test]
fn other_bridges_stay() {
    let mut b = bridge(forwarding());
    route_remote_reader(&mut b, endpoint("r1", "t1", &[]), &key("@/service/you/dds/participant/1/reader/r1/t1"), 44);
    let mut info = ParticipantEntitiesInfo::new("me".to_string());
    let (to_dds, from_dds, changed) = b.bridge_left("they", &HashMap::new(), &mut info);
    assert!(to_dds.is_empty() && from_dds.is_empty() && !changed);
    assert_eq!(b.routes_from_dds.len(), 1);
}

#[test]
fn nodes_are_kept_by_name() {
    let nodes = deserialize_node_entities_info_seq(vec![node("a", &["r1"], &["w1"]), node("a", &["r2"], &[])]);
    assert_eq!(nodes.len(), 1);
    assert_eq!(nodes.get("/a").unwrap().reader_gid_seq, vec!["r2".to_string()]);
    let mut info = ParticipantEntitiesInfo::new("me".to_string());
    info.update_with(nodes);
    // a node with readers only is not empty
    assert_eq!(info.node_entities_info_seq.len(), 1);
    info.remove_writer_gid("r2");
    info.remove_reader_gid("r2");
    info.cleanup();
    assert_eq!(info.node_entities_info_seq.len(), 0);
}

#[test]
fn last_sample_of_a_participant_counts() {
    let mut first = vec![0u8; 28];
    first[4] = 0xab;
    let mut second = first.clone();
    second[27] = 1;
    let latest = latest_samples(vec![first, second.clone()]);
    assert_eq!(latest.len(), 1);
    let gid = format!("ab{}", "00".repeat(15));
    assert_eq!(latest.get(&gid), Some(&second));
}

#[test]
fn ros_discovery_has_its_qos() {
    let reader = ros_discovery_reader_qos();
    let writer = ros_discovery_writer_qos();
    assert_eq!(reader.durability.kind, DurabilityKind::TRANSIENT_LOCAL);
    assert!(reader.ignore_local_participant && writer.ignore_local_participant);
    assert_eq!(reader.history.depth, 0);
    assert_eq!(writer.history.depth, 1);
    assert_eq!(reader.reliability.max_blocking_time, i64::MAX);
}

#[test]
fn admin_space_answers() {
    let mut b = bridge(Config::new(Some("3".to_string()), None));
    route_writer(&mut b, endpoint(WRITER, "topic", &[]), 10);
    let prefix = admin_keyexpr_prefix(&key("me"));
    let replies = b.treat_admin_query(&key("@/service/me/dds/config"), &prefix).unwrap();
    assert_eq!(replies.len(), 1);
    assert_eq!(replies[0].len(), 1);
    assert_eq!(replies[0][0].key.as_str(), "@/service/me/dds/config");
    assert!(matches!(&replies[0][0].value, AdminValue::Config(JsonValue::Object(_))));
    assert!(matches!(
        &b.treat_admin_query(&key("@/service/me/dds/version"), &prefix).unwrap()[0][0].value,
        AdminValue::Version
    ));
    assert!(b.treat_admin_query(&key("@/service/me/dds/nothing"), &prefix).unwrap()[0].is_empty());
    assert!(b.treat_admin_query(&key("a/b"), &prefix).is_none());

    let replies = b.treat_admin_query(&key("@/service/me/dds/route/**"), &prefix).unwrap();
    let found: Vec<&str> = replies.iter().flatten().map(|r| r.key.as_str()).collect();
    assert_eq!(found, vec!["@/service/me/dds/route/from_dds/topic"]);
    assert!(matches!(&replies[0][0].value, AdminValue::FromDdsRoute(r) if r.dds_reader == 11));

    let replies = b.treat_admin_query(&key("@/service/*/dds/**/topic"), &prefix).unwrap();
    let mut found: Vec<&str> = replies.iter().flatten().map(|r| r.key.as_str()).collect();
    found.sort();
    found.dedup();
    assert_eq!(found.len(), 2);
    assert!(found[0].starts_with("@/service/me/dds/participant/"));
}

#[test]
fn null_policies_are_not_shown() {
    let value = JsonValue::Object(vec![
        ("key".to_string(), JsonValue::Null),
        (
            "qos".to_string(),
            JsonValue::Object(vec![
                ("a".to_string(), JsonValue::Null),
                ("b".to_string(), JsonValue::Number(1)),
            ]),
        ),
    ]);
    match remove_null_qos_values(value) {
        JsonValue::Object(members) => {
            assert!(matches!(&members[0].1, JsonValue::Null));
            match &members[1].1 {
                JsonValue::Object(inner) => {
                    assert_eq!(inner.len(), 1);
                    assert_eq!(inner[0].0, "b");
                }
                _ => panic!("no object"),
            }
        }
        _ => panic!("no object"),
    }
}

#[test]
fn participants_are_told_of() {
    let sample = |alive: bool| ParticipantSample { alive, key: [0x0c; 16], qos: QosPolicies::unknown() };
    let key = "0c".repeat(16);
    match participant_event(sample(true), "00") {
        Some(DiscoveryEvent::DiscoveredParticipant { entity }) => assert_eq!(entity.key, key),
        _ => panic!("the participant is not told of"),
    }
    assert!(matches!(
        participant_event(sample(false), "00"),
        Some(DiscoveryEvent::UndiscoveredParticipant { key: gone }) if gone == key
    ));
    assert!(participant_event(sample(true), &key).is_none());
}

#[test]
fn plugin_tells_its_version() {
    let status = key("@/router/local/status/plugins/dds");
    let told = DDSPlugin::adminspace_getter(&key("@/router/local/**"), &status);
    assert_eq!(told.map(|k| k.to_text()), Some("@/router/local/status/plugins/dds/__version__".to_string()));
    assert!(DDSPlugin::adminspace_getter(&key("@/router/other/**"), &status).is_none());
}

#[test]
fn settings_tell_the_mode() {
    assert_eq!(bridge(Config::new(None, None)).mode(), DiscoveryMode::Local);
    assert_eq!(bridge(forwarding()).mode(), DiscoveryMode::Forward);
}

#[test]
fn subscriber_of_a_route_is_planned() {
    let mut config = Config::new(None, None);
    config.queries_timeout = 9;
    let mut b = bridge(config);
    let step = b.on_local_event(DiscoveryEvent::DiscoveredSubscription { entity: endpoint(READER, "topic", &[]) });
    let job = match step {
        Ok(LocalStep::RouteReader(job)) => job,
        _ => panic!("not routed"),
    };
    let plan = b.next_to_dds(&job).unwrap();
    assert_eq!(plan.key.as_str(), "topic");
    assert_eq!(plan.allowed_origin, Locality::Remote);
    assert_eq!(plan.accept_replies, ReplyKeyExpr::Any);
    assert_eq!(plan.queries_timeout, 9);
}

#[test]
fn writer_with_a_reader_in_its_topic_is_replicated() {
    let mut b = bridge(forwarding());
    let fwd_ke = key("@/0a/@dds_fwd_disco/writer/participant/p1/writer/w1/rt/reader/x");
    match b.on_remote_message(&fwd_ke, false) {
        RemoteStep::RouteWriter(admin) => {
            assert_eq!(admin.as_str(), "@/service/0a/dds/participant/p1/writer/w1/rt/reader/x")
        }
        _ => panic!("not a writer"),
    }
}
