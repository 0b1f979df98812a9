use zenoh_plugin_dds::discovery::{forwarded, Forwarded};
use zenoh_plugin_dds::key_expr::{is_joinable, KeyExpr};
use zenoh_plugin_dds::keys::{
    admin_keyexpr_prefix, admin_queryable_keyexpr, full_admin_keyexpr, fwd_cache_keyexpr, fwd_discovery_keyexpr,
    fwd_discovery_selector, fwd_key_prefix, group_keyexpr, historical_data_selector, ke_any_1_segment, member_keyexpr,
    parse_fwd_discovery_keyexpr, pub_cache_keyexpr, pub_cache_selector, zenoh_id, FwdKind,
};
use zenoh_plugin_dds::sub_paths::DdsPlugin;

fn key(text: &str) -> KeyExpr {
    KeyExpr::new(text).unwrap()
}

#[test]
fn key_expressions_are_checked() {
    for text in ["a", "a/b", "*", "**", "a/**/b", "a$*b", "@/service/x", "a/*/b"] {
        assert!(KeyExpr::new(text).is_ok(), "{}", text);
    }
    for text in ["", "/a", "a/", "a//b", "a#b", "a?b", "a$b", "$*", "a*", "**/**", "**/*", "a$*$*"] {
        assert!(KeyExpr::new(text).is_err(), "{}", text);
    }
}

#[test]
fn key_expressions_are_joined() {
    assert_eq!(key("a").join("b").unwrap().as_str(), "a/b");
    assert_eq!(key("a").join("b/**/**").unwrap().as_str(), "a/b/**");
    assert!(key("a").join("b//c").is_err());
    assert!(key("a").join("").is_err());
    assert_eq!(key("a").slash(&key("b/c")).as_str(), "a/b/c");
    assert_eq!(key("a/**").slash(&key("**/b")).as_str(), "a/**/b");
}

#[test]
fn repeated_stars_are_joined() {
    for (text, joined) in [
        ("a$*$*bc", Some("l/a$*bc")),
        ("$*$*", Some("l/*")),
        ("$*$*b/$*$*", Some("l/$*b/*")),
        ("a$*$*xyz/$*$*", Some("l/a$*xyz/*")),
        ("a$*$*\u{e9}", Some("l/a$*\u{e9}")),
        ("a$*$*\u{20ac}$*$*/b", Some("l/a$*\u{20ac}$*/b")),
        ("a$*$*$*$*", None),
    ] {
        assert!(is_joinable(text), "{}", text);
        assert_eq!(key("l").join(text).ok().map(|k| k.to_text()), joined.map(|j| j.to_string()));
    }
    for text in ["a$*$*", "a$*$*b", "a$*$*x/$*$*", "a$*$*\u{e9}$*$*"] {
        assert!(!is_joinable(text), "{}", text);
    }
}

#[test]
fn key_expressions_intersect() {
    assert!(key("a/*").intersects(&key("a/b")));
    assert!(key("**").intersects(&key("x/y/z")));
    assert!(!key("a/*").intersects(&key("a/b/c")));
    assert!(key("a/b").intersects(&key("a/b")));
    assert!(!key("a/b").intersects(&key("a/c")));
    assert!(key("a/*").is_wild() && !key("a/b").is_wild());
}

#[test]
fn prefixes_are_stripped() {
    let rest = key("@/service/u/dds/config").strip_prefix(&key("@/service/u/dds"));
    assert_eq!(rest.len(), 1);
    assert_eq!(rest[0].as_str(), "config");
    assert!(key("a/b").strip_prefix(&key("c")).is_empty());
    let rest = key("@/service/**").strip_prefix(&key("@/service/u/dds"));
    assert!(rest.iter().any(|r| r.as_str() == "**"));
}

#[test]
fn admin_space_has_a_prefix() {
    let uuid = key("abc");
    assert_eq!(admin_keyexpr_prefix(&uuid).as_str(), "@/service/abc/dds");
    assert_eq!(admin_queryable_keyexpr(&uuid).as_str(), "@/service/abc/dds/**");
    assert_eq!(
        full_admin_keyexpr(&uuid, &key("participant/1/writer/2/t")).as_str(),
        "@/service/abc/dds/participant/1/writer/2/t"
    );
}

#[test]
fn discovery_is_forwarded_on_keys() {
    let uuid = key("abc");
    let scope = Some(key("s"));
    let prefix = fwd_key_prefix(&uuid, &scope);
    assert_eq!(prefix.as_str(), "@/abc/@dds_fwd_disco/s");
    assert_eq!(fwd_key_prefix(&uuid, &None).as_str(), "@/abc/@dds_fwd_disco");
    let ke = fwd_discovery_keyexpr(&prefix, FwdKind::Writer, &key("participant/1/writer/2/t"));
    assert_eq!(ke.as_str(), "@/abc/@dds_fwd_disco/s/writer/participant/1/writer/2/t");
    assert_eq!(fwd_cache_keyexpr(&prefix).as_str(), "@/abc/@dds_fwd_disco/s/**");
    assert_eq!(
        fwd_discovery_selector(&ke_any_1_segment(), &scope).as_str(),
        "@/*/@dds_fwd_disco/s/**"
    );
    assert_eq!(fwd_discovery_selector(&uuid, &None).as_str(), "@/abc/@dds_fwd_disco/**");
}

#[test]
fn forwarded_keys_are_taken_apart() {
    let parts = parse_fwd_discovery_keyexpr(&key("@/abc/@dds_fwd_disco/s/writer/participant/1/writer/2/t"));
    assert_eq!(
        parts,
        Some(("abc".to_string(), FwdKind::Writer, "participant/1/writer/2/t".to_string()))
    );
    let parts = parse_fwd_discovery_keyexpr(&key("@/abc/@dds_fwd_disco/ros_disco/0a0b"));
    assert_eq!(parts, Some(("abc".to_string(), FwdKind::RosDisco, "0a0b".to_string())));
    assert_eq!(parse_fwd_discovery_keyexpr(&key("other/abc/@dds_fwd_disco/reader/x")), None);
    assert_eq!(parse_fwd_discovery_keyexpr(&key("@/service/abc/other/reader/x")), None);
    assert_eq!(parse_fwd_discovery_keyexpr(&key("@/abc/@dds_fwd_disco/x")), None);
    assert_eq!(parse_fwd_discovery_keyexpr(&key("@/service/abc")), None);
    assert_eq!(parse_fwd_discovery_keyexpr(&key("@/service/abc/@dds_fwd_disco/reader/x")), None);
    let parts = parse_fwd_discovery_keyexpr(&key("@/service/@dds_fwd_disco/@dds_fwd_disco/reader/x"));
    assert_eq!(parts, Some(("service".to_string(), FwdKind::Reader, "x".to_string())));
    assert_eq!(parse_fwd_discovery_keyexpr(&key("@")), None);
}

#[test]
fn first_kind_in_a_key_counts() {
    let rest = "participant/p1/writer/w1/rt/reader/x";
    for (kind, chunk) in
        [(FwdKind::Writer, "writer"), (FwdKind::Reader, "reader"), (FwdKind::RosDisco, "ros_disco")]
    {
        let fwd_ke = key(&format!("@/0a/@dds_fwd_disco/{chunk}/{rest}"));
        assert_eq!(
            parse_fwd_discovery_keyexpr(&fwd_ke),
            Some(("0a".to_string(), kind, rest.to_string()))
        );
    }
    match forwarded(&key("@/0a/@dds_fwd_disco/writer/participant/p1/writer/w1/rt/reader/x")) {
        Some(Forwarded::Writer(ke)) => {
            assert_eq!(ke.as_str(), "@/service/0a/dds/participant/p1/writer/w1/rt/reader/x")
        }
        _ => panic!("not a writer"),
    }
}

#[test]
fn forwarded_messages_are_understood() {
    let uuid = key("abc");
    let prefix = fwd_key_prefix(&uuid, &None);
    let admin = key("participant/1/reader/2/t");
    match forwarded(&fwd_discovery_keyexpr(&prefix, FwdKind::Reader, &admin)) {
        Some(Forwarded::Reader(ke)) => assert_eq!(ke.as_str(), full_admin_keyexpr(&uuid, &admin).as_str()),
        _ => panic!("not a reader"),
    }
    assert!(matches!(
        forwarded(&fwd_discovery_keyexpr(&prefix, FwdKind::RosDisco, &key("0a"))),
        Some(Forwarded::RosDisco)
    ));
    assert!(forwarded(&key("@/service")).is_none());
    assert!(forwarded(&key("a/b")).is_none());
}

#[test]
fn bridges_find_each_other() {
    let uuid = key("abc");
    assert_eq!(member_keyexpr(&uuid).as_str(), "zenoh-plugin-dds/abc");
    assert_eq!(group_keyexpr().as_str(), "zenoh-plugin-dds/**");
    assert_eq!(zenoh_id(&member_keyexpr(&uuid)), "abc");
    assert_eq!(zenoh_id(&uuid), "abc");
    assert_eq!(
        pub_cache_selector(&uuid, &key("rt/tf")).as_str(),
        "@/abc/@dds_pub_cache/rt/tf"
    );
    assert_eq!(pub_cache_keyexpr(&uuid).as_str(), "@dds_pub_cache/abc");
    assert_eq!(historical_data_selector(&key("rt/tf")).as_str(), "rt/tf/@dds_pub_cache/*");
}

#[test]
fn paths_go_on_behind_a_prefix() {
    assert_eq!(DdsPlugin::get_first_parts("/a/**"), vec!["/a/**", "/a/", "/"]);
    let prefix = "/@/service/u/dds/";
    assert_eq!(
        DdsPlugin::get_sub_path_exprs("/@/service/u/dds/config", prefix, &vec![false; 6]),
        vec!["config"]
    );
    // "/@/**" matches the prefix up to its end
    assert_eq!(DdsPlugin::get_sub_path_exprs("/@/**", prefix, &vec![true, false, false]), vec!["**"]);
    // "/@/**/" matches the prefix, and so does "/@/**/x/"
    let parts = DdsPlugin::get_first_parts("/@/**/x/y");
    assert_eq!(parts, vec!["/@/**/x/y", "/@/**/x/", "/@/**/", "/@/", "/"]);
    assert_eq!(
        DdsPlugin::get_sub_path_exprs("/@/**/x/y", prefix, &vec![false, true, true, false, false]),
        vec!["y", "**/x/y"]
    );
    assert!(DdsPlugin::get_sub_path_exprs("/b/c", prefix, &vec![false; 3]).is_empty());
}
