use zenoh_plugin_dds::config::{
    default_domain, default_localhost_only, deserialize_path, deserialize_regex, split_max_frequencies, split_max_frequency, Config,
    MaxFrequency, PathSetting, RegexSetting, CYCLONEDDS_CONFIG_ENABLE_SHM, CYCLONEDDS_CONFIG_LOCALHOST_ONLY,
};
use zenoh_plugin_dds::json::JsonValue;
use zenoh_plugin_dds::key_expr::KeyExpr;
use zenoh_plugin_dds::pattern::TopicPattern;

fn path_setting(value: Option<&serde_json::Value>) -> PathSetting {
    match value {
        Some(serde_json::Value::String(path)) => PathSetting::Text(path.clone()),
        Some(serde_json::Value::Array(list)) => {
            PathSetting::List(list.iter().map(|v| v.as_str().unwrap().to_string()).collect())
        }
        _ => PathSetting::Null,
    }
}

fn read_config(json: &str) -> Result<Config, serde_json::Error> {
    let value = serde_json::from_str::<serde_json::Value>(json)?;
    let mut config = Config::new(None, None);
    config.__required__ = value.get("__required__").and_then(|v| v.as_bool());
    config.__path__ = deserialize_path(&path_setting(value.get("__path__")));
    Ok(config)
}

#[test]
fn test_path_field() {
    let config = read_config(r#"{"__path__": "/example/path"}"#);

    assert!(config.is_ok());
    let Config { __required__, __path__, .. } = config.unwrap();

    assert_eq!(__path__, Some(vec![String::from("/example/path")]));
    assert_eq!(__required__, None);
}

#[test]
fn test_required_field() {
    let config = read_config(r#"{"__required__": true}"#);
    assert!(config.is_ok());
    let Config { __required__, __path__, .. } = config.unwrap();

    assert_eq!(__path__, None);
    assert_eq!(__required__, Some(true));
}

#[test]
fn test_path_field_and_required_field() {
    let config = read_config(r#"{"__path__": "/example/path", "__required__": true}"#);

    assert!(config.is_ok());
    let Config { __required__, __path__, .. } = config.unwrap();

    assert_eq!(__path__, Some(vec![String::from("/example/path")]));
    assert_eq!(__required__, Some(true));
}

#[test]
fn test_no_path_field_and_no_required_field() {
    let config = read_config("{}");

    assert!(config.is_ok());
    let Config { __required__, __path__, .. } = config.unwrap();

    assert_eq!(__path__, None);
    assert_eq!(__required__, None);
}

#[test]
fn paths_may_be_listed() {
    let config = read_config(r#"{"__path__": ["/a", "/b"]}"#).unwrap();
    assert_eq!(config.__path__, Some(vec!["/a".to_string(), "/b".to_string()]));
}

fn key(text: &str) -> KeyExpr {
    KeyExpr::new(text).unwrap()
}

fn pattern(source: &str) -> Option<TopicPattern> {
    Some(TopicPattern::new(source).unwrap())
}

#[test]
fn environment_gives_defaults() {
    assert_eq!(default_domain(&None), 0);
    assert_eq!(default_domain(&Some("42".to_string())), 42);
    assert_eq!(default_domain(&Some("many".to_string())), 0);
    assert!(default_localhost_only(&Some("1".to_string())));
    assert!(!default_localhost_only(&Some("0".to_string())));
    assert!(!default_localhost_only(&None));
    let config = Config::new(Some("7".to_string()), Some("1".to_string()));
    assert_eq!(config.domain, 7);
    assert!(config.localhost_only);
    assert!(!config.forward_discovery);
    assert!(config.reliable_routes_blocking);
    assert_eq!(config.queries_timeout, 5_000_000_000);
}

#[test]
fn everything_is_allowed_by_default() {
    let config = Config::new(None, None);
    assert!(config.is_allowed(&key("rt/cmd_vel")));
    assert!(config.is_allowed(&key("ros_discovery_info")));
}

#[test]
fn allow_and_deny_are_regular_expressions() {
    let mut config = Config::new(None, None);
    config.allow = pattern(".*/TopicA");
    assert!(config.is_allowed(&key("P/TopicA")));
    assert!(!config.is_allowed(&key("P/TopicB")));
    config.allow = pattern("cmd_vel|rosout");
    assert!(config.is_allowed(&key("rt/cmd_vel")));
    assert!(config.is_allowed(&key("rt/rosout")));
    assert!(!config.is_allowed(&key("rt/tf")));
    config.deny = pattern("rosout");
    assert!(config.is_allowed(&key("rt/cmd_vel")));
    assert!(!config.is_allowed(&key("rt/rosout")));
    config.allow = None;
    assert!(config.is_allowed(&key("rt/tf")));
    assert!(!config.is_allowed(&key("rt/rosout")));
}

#[test]
fn ros_discovery_is_not_routed_where_discovery_is_forwarded() {
    let mut config = Config::new(None, None);
    config.forward_discovery = true;
    assert!(!config.is_allowed(&key("ros_discovery_info")));
    assert!(!config.is_allowed(&key("scope/ros_discovery_info")));
    assert!(config.is_allowed(&key("rt/cmd_vel")));
}

#[test]
fn several_regular_expressions_are_one() {
    let setting = RegexSetting::List(vec!["cmd_vel".to_string(), "rosout".to_string()]);
    let read = deserialize_regex(&setting).unwrap().unwrap();
    assert_eq!(read.as_str(), "cmd_vel|rosout");
    assert!(read.is_match("rt/rosout"));
    assert!(deserialize_regex(&RegexSetting::Null).unwrap().is_none());
    let message = match deserialize_regex(&RegexSetting::Text("(".to_string())) {
        Err(message) => message,
        Ok(_) => panic!("an open bracket was read"),
    };
    assert!(message.starts_with("Invalid regex '(': "));
    assert!(message.contains("unclosed group"));
}

#[test]
fn frequencies_are_set_by_topic() {
    let (first, number) = match split_max_frequency(".*/scan=10.5") {
        Ok(parts) => parts,
        Err(message) => panic!("{}", message),
    };
    assert_eq!(first.as_str(), ".*/scan");
    assert_eq!(number, "10.5");
    assert_eq!(split_max_frequency("scan").err(), Some("Invalid 'max_frequency': scan".to_string()));
    assert!(split_max_frequency("(=1").err().unwrap().starts_with("Invalid regex for 'max_frequency': '(=1': "));

    let mut config = Config::new(None, None);
    config.max_frequencies.push(MaxFrequency {
        pattern: first,
        frequency: 10.5f32.to_bits(),
        shown: "10.5".to_string(),
    });
    config.max_frequencies.push(MaxFrequency {
        pattern: TopicPattern::new("scan").unwrap(),
        frequency: 1f32.to_bits(),
        shown: "1".to_string(),
    });
    assert_eq!(config.get_read_frequency(&key("rt/scan")), Some(10.5f32.to_bits()));
    assert_eq!(config.get_read_frequency(&key("scanner")), Some(1f32.to_bits()));
    assert_eq!(config.get_read_frequency(&key("rt/tf")), None);
}

#[test]
fn frequencies_are_read_as_a_list() {
    let texts = |list: &[&str]| list.iter().map(|t| t.to_string()).collect::<Vec<String>>();
    let list = match split_max_frequencies(&texts(&["b=2", "a=1=x", "="])) {
        Ok(list) => list,
        Err(message) => panic!("{}", message),
    };
    let shown: Vec<(&str, &str)> = list.iter().map(|(p, n)| (p.as_str(), n.as_str())).collect();
    assert_eq!(shown, vec![("b", "2"), ("a", "1=x"), ("", "")]);
    assert!(matches!(split_max_frequencies(&vec![]), Ok(list) if list.is_empty()));
    assert_eq!(
        split_max_frequencies(&texts(&["a=1", "bad", "(=1"])).err(),
        Some("Invalid 'max_frequency': bad".to_string())
    );
    assert!(split_max_frequencies(&texts(&["a=1", "(=1", "bad"])).err().unwrap().starts_with("Invalid regex"));
}

#[test]
fn settings_are_shown() {
    let mut config = Config::new(Some("3".to_string()), None);
    config.scope = Some(key("myscope"));
    config.deny = pattern("rosout");
    config.max_frequencies.push(MaxFrequency {
        pattern: TopicPattern::new("scan").unwrap(),
        frequency: 2.5f32.to_bits(),
        shown: "2.5".to_string(),
    });
    let members = match config.to_json() {
        JsonValue::Object(members) => members,
        _ => panic!("no object"),
    };
    let names: Vec<&str> = members.iter().map(|m| m.0.as_str()).collect();
    assert_eq!(
        names,
        vec![
            "domain",
            "scope",
            "allow",
            "deny",
            "max-frequencies",
            "forward_discovery",
            "reliable_routes_blocking"
        ]
    );
    assert!(matches!(&members[0].1, JsonValue::Number(3)));
    assert!(matches!(&members[1].1, JsonValue::Text(t) if t == "myscope"));
    assert!(matches!(&members[2].1, JsonValue::Text(t) if t == ".*"));
    assert!(matches!(&members[3].1, JsonValue::Text(t) if t == "rosout"));
    match &members[4].1 {
        JsonValue::List(items) => assert!(matches!(&items[0], JsonValue::Text(t) if t == "scan=2.5")),
        _ => panic!("no list"),
    }
    assert!(matches!(&members[5].1, JsonValue::Bool(false)));
    assert!(matches!(&members[6].1, JsonValue::Bool(true)));
}

#[test]
fn cyclonedds_is_told_of_the_network() {
    let mut config = Config::new(None, None);
    assert_eq!(config.cyclonedds_uri("file"), "file");
    config.localhost_only = true;
    assert_eq!(config.cyclonedds_uri("file"), format!("{}file", CYCLONEDDS_CONFIG_LOCALHOST_ONLY));
    config.shm_enabled = true;
    assert_eq!(
        config.cyclonedds_uri(""),
        format!("{}{}", CYCLONEDDS_CONFIG_ENABLE_SHM, CYCLONEDDS_CONFIG_LOCALHOST_ONLY)
    );
}
