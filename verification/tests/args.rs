use zenoh_plugin_dds::args::{config_edits, customize_dds_args, get_expected_args2, BridgeArgs};

fn no_args() -> BridgeArgs {
    BridgeArgs {
        id: None,
        mode: None,
        connect: None,
        listen: None,
        no_multicast_scouting: false,
        rest_http_port: None,
        scope: None,
        domain: None,
        group_member_id: None,
        group_lease: None,
        allow: None,
        deny: None,
        max_frequency: None,
        generalise_pub: None,
        generalise_sub: None,
        fwd_discovery: false,
        dds_localhost_only: false,
        dds_enable_shm: false,
        queries_timeout: None,
    }
}

fn edits(args: &BridgeArgs) -> Vec<(String, String)> {
    match config_edits(args) {
        Ok(list) => list.iter().map(|e| (e.key.to_string(), e.json.clone())).collect(),
        Err(_) => panic!("refused"),
    }
}

/// What is set whatever is told.
fn always() -> (String, String) {
    edit("timestamping/enabled", "true")
}

fn edit(key: &str, json: &str) -> (String, String) {
    (key.to_string(), json.to_string())
}

#[test]
fn arguments_are_expected_in_order() {
    let args = get_expected_args2();
    assert_eq!(args.len(), 5);
    assert!(args[0].usage.starts_with("--dds-scope=[String]"));
    assert!(args[3].usage.starts_with("--dds-domain=[ID]"));
    assert!(args[4].usage.contains("'.*/TopicA', 'Partition-?/.*', 'cmd_vel|rosout'..."));
    assert!(args.iter().all(|a| a.short.is_none() && a.visible_alias.is_none()));
}

#[test]
fn arguments_have_short_forms() {
    let args = customize_dds_args(get_expected_args2());
    let shorts: Vec<&str> = args.iter().map(|a| a.short.unwrap()).collect();
    assert_eq!(shorts, vec!["s", "w", "r", "d", "a"]);
    let aliases: Vec<&str> = args.iter().map(|a| a.visible_alias.unwrap()).collect();
    assert_eq!(aliases, vec!["scope", "generalise-pub", "generalise-sub", "domain", "allow"]);
    assert!(args[1].usage.starts_with("--dds-generalise-pub="));
}

#[test]
fn nothing_told_changes_nothing() {
    assert_eq!(edits(&no_args()), vec![always()]);
}

#[test]
fn zenoh_arguments_override_the_configuration() {
    let mut args = no_args();
    args.id = Some("0a0b".to_string());
    args.mode = Some("client".to_string());
    args.connect = Some(vec!["tcp/a:7447".to_string(), "tcp/b:7447".to_string()]);
    args.listen = Some(vec!["udp/c:7448".to_string()]);
    args.no_multicast_scouting = true;
    assert_eq!(
        edits(&args),
        vec![
            edit("id", "\"0a0b\""),
            edit("mode", "\"client\""),
            edit("connect/endpoints", "[\"tcp/a:7447\",\"tcp/b:7447\"]"),
            edit("listen/endpoints", "[\"udp/c:7448\"]"),
            edit("scouting/multicast/enabled", "false"),
            always(),
        ]
    );
}

#[test]
fn arguments_override_the_configuration() {
    let mut args = no_args();
    args.rest_http_port = Some("8000".to_string());
    args.scope = Some("my\"scope".to_string());
    args.domain = Some("+007".to_string());
    args.group_member_id = Some("tab\there".to_string());
    args.group_lease = Some("2.5".to_string());
    args.allow = Some(vec!["a".to_string(), "b\\d".to_string()]);
    args.max_frequency = Some(vec!["x=1".to_string()]);
    args.fwd_discovery = true;
    args.dds_localhost_only = true;
    args.queries_timeout = Some("3.0".to_string());
    assert_eq!(
        edits(&args),
        vec![
            edit("plugins/rest/http_port", "\"8000\""),
            always(),
            edit("plugins/dds/scope", "\"my\\\"scope\""),
            edit("plugins/dds/domain", "7"),
            edit("plugins/dds/group_member_id", "\"tab\\there\""),
            edit("plugins/dds/group_lease", "2.5"),
            edit("plugins/dds/allow", "[\"a\",\"b\\\\d\"]"),
            edit("plugins/dds/max_frequencies", "[\"x=1\"]"),
            edit("plugins/dds/forward_discovery", "true"),
            edit("plugins/dds/localhost_only", "true"),
            edit("plugins/dds/queries_timeout", "3.0"),
        ]
    );
}

#[test]
fn control_characters_are_escaped() {
    let mut args = no_args();
    args.scope = Some("\u{1}\u{8}\u{c}\n\r\u{1f}\u{7f}\u{e9}/".to_string());
    assert_eq!(
        edits(&args),
        vec![always(), edit("plugins/dds/scope", "\"\\u0001\\b\\f\\n\\r\\u001f\u{7f}\u{e9}/\"")]
    );
}

#[test]
fn domain_has_to_be_a_number() {
    let mut args = no_args();
    args.domain = Some("zero".to_string());
    assert!(config_edits(&args).is_err());
    args.domain = Some("18446744073709551616".to_string());
    assert!(config_edits(&args).is_err());
}

#[test]
fn several_lists_are_told() {
    let mut args = no_args();
    args.deny = Some(vec![]);
    args.generalise_pub = Some(vec!["a/**".to_string()]);
    args.generalise_sub = Some(vec!["b/**".to_string(), "c".to_string()]);
    args.dds_enable_shm = true;
    assert_eq!(
        edits(&args),
        vec![
            always(),
            edit("plugins/dds/deny", "[]"),
            edit("plugins/dds/generalise_pubs", "[\"a/**\"]"),
            edit("plugins/dds/generalise_subs", "[\"b/**\",\"c\"]"),
            edit("plugins/dds/shm_enabled", "true"),
        ]
    );
}
