//! The settings of the bridge.
use vstd::prelude::*;

use crate::json::{add_member, members_view, JsonValue, JsonView};
use crate::key_expr::{key_texts, optional_key, KeyExpr};
use crate::number::{parse_u32, parsed_u32};
use crate::pattern::{optional_pattern, regex_error, regex_matches, TopicPattern};
use crate::text::{
    clone_strings, concat, ends_with, find, first_index, join, joined, optional_texts, same, skip, take, texts,
};

verus! {

/// The DDS domain that is used unless told otherwise.
pub const DEFAULT_DOMAIN: u32 = 0;

/// Whether discovery is forwarded, unless told otherwise.
pub const DEFAULT_FORWARD_DISCOVERY: bool = false;

/// Whether the routes of reliable endpoints block, unless told otherwise.
pub const DEFAULT_RELIABLE_ROUTES_BLOCKING: bool = true;

/// How long queries to other bridges may take unless told otherwise, in nanoseconds.
pub const DEFAULT_QUERIES_TIMEOUT: u64 = 5_000_000_000;

/// Whether DDS keeps to the local host, unless told otherwise.
pub const DEFAULT_DDS_LOCALHOST_ONLY: bool = false;

/// The topic on which ROS nodes tell of themselves.
pub const ROS_DISCOVERY_INFO_TOPIC_NAME: &'static str = "ros_discovery_info";

/// The setting that keeps DDS to the local host.
pub const CYCLONEDDS_CONFIG_LOCALHOST_ONLY: &'static str =
    "<CycloneDDS><Domain><General><Interfaces><NetworkInterface address=\"127.0.0.1\"/></Interfaces></General></Domain></CycloneDDS>,";

/// The setting that lets DDS use shared memory.
pub const CYCLONEDDS_CONFIG_ENABLE_SHM: &'static str =
    "<CycloneDDS><Domain><SharedMemory><Enable>true</Enable></SharedMemory></Domain></CycloneDDS>,";

/// How often data of some topics is routed at most.
pub struct MaxFrequency {
    /// The keys of those topics.
    pub pattern: TopicPattern,
    /// The frequency in Hertz, as the bits of a number of single precision.
    pub frequency: u32,
    /// The frequency as it is shown.
    pub shown: String,
}

/// How often data of some topics is routed at most, over mathematical values.
pub struct MaxFrequencyView {
    pub pattern: Seq<char>,
    pub frequency: u32,
    pub shown: Seq<char>,
}

impl View for MaxFrequency {
    type V = MaxFrequencyView;

    open spec fn view(&self) -> MaxFrequencyView {
        MaxFrequencyView { pattern: self.pattern@, frequency: self.frequency, shown: self.shown@ }
    }
}

/// The settings of the bridge.
pub struct Config {
    pub scope: Option<KeyExpr>,
    pub domain: u32,
    pub allow: Option<TopicPattern>,
    pub deny: Option<TopicPattern>,
    pub max_frequencies: Vec<MaxFrequency>,
    pub generalise_subs: Vec<KeyExpr>,
    pub generalise_pubs: Vec<KeyExpr>,
    pub forward_discovery: bool,
    pub reliable_routes_blocking: bool,
    pub localhost_only: bool,
    pub shm_enabled: bool,
    pub queries_timeout: u64,
    pub __required__: Option<bool>,
    pub __path__: Option<Vec<String>>,
}

/// The settings of the bridge, over mathematical values.
#[verifier::ext_equal]
pub struct ConfigView {
    pub scope: Option<Seq<char>>,
    pub domain: u32,
    pub allow: Option<Seq<char>>,
    pub deny: Option<Seq<char>>,
    pub max_frequencies: Seq<MaxFrequencyView>,
    pub generalise_subs: Seq<Seq<char>>,
    pub generalise_pubs: Seq<Seq<char>>,
    pub forward_discovery: bool,
    pub reliable_routes_blocking: bool,
    pub localhost_only: bool,
    pub shm_enabled: bool,
    pub queries_timeout: u64,
    pub required: Option<bool>,
    pub path: Option<Seq<Seq<char>>>,
}

impl View for Config {
    type V = ConfigView;

    open spec fn view(&self) -> ConfigView {
        ConfigView {
            scope: optional_key(self.scope),
            domain: self.domain,
            allow: optional_pattern(self.allow),
            deny: optional_pattern(self.deny),
            max_frequencies: self.max_frequencies@.map_values(|f: MaxFrequency| f@),
            generalise_subs: key_texts(self.generalise_subs@),
            generalise_pubs: key_texts(self.generalise_pubs@),
            forward_discovery: self.forward_discovery,
            reliable_routes_blocking: self.reliable_routes_blocking,
            localhost_only: self.localhost_only,
            shm_enabled: self.shm_enabled,
            queries_timeout: self.queries_timeout,
            required: self.__required__,
            path: optional_texts(self.__path__),
        }
    }
}

/// Whether a pattern that may be set matches.
pub open spec fn pattern_hits(pattern: Option<Seq<char>>, key: Seq<char>) -> bool {
    pattern matches Some(p) && regex_matches(p, key)
}

impl ConfigView {
    /// Whether `key` may be routed: it matches what is allowed, where that is set, and does not match
    /// what is denied. What ROS nodes tell of themselves is not routed where discovery is forwarded.
    pub open spec fn allows(self, key: Seq<char>) -> bool {
        &&& !(self.forward_discovery && ROS_DISCOVERY_INFO_TOPIC_NAME@.is_suffix_of(key))
        &&& self.allow is None || pattern_hits(self.allow, key)
        &&& !pattern_hits(self.deny, key)
    }

    /// The first frequency that is set for `key`, from the one at `from` on.
    pub open spec fn frequency_from(self, key: Seq<char>, from: int) -> Option<u32>
        decreases self.max_frequencies.len() - from,
    {
        if from >= self.max_frequencies.len() {
            None
        } else if regex_matches(self.max_frequencies[from].pattern, key) {
            Some(self.max_frequencies[from].frequency)
        } else {
            self.frequency_from(key, from + 1)
        }
    }

    /// The settings as they are shown in the admin space.
    pub open spec fn json(self) -> JsonView {
        JsonView::Object(
            seq![
                ("domain"@, JsonView::Number(self.domain as int)),
                (
                    "scope"@,
                    match self.scope {
                        Some(scope) => JsonView::Text(scope),
                        None => JsonView::Null,
                    },
                ),
                (
                    "allow"@,
                    JsonView::Text(
                        match self.allow {
                            Some(pattern) => pattern,
                            None => ".*"@,
                        },
                    ),
                ),
                (
                    "deny"@,
                    JsonView::Text(
                        match self.deny {
                            Some(pattern) => pattern,
                            None => ""@,
                        },
                    ),
                ),
                (
                    "max-frequencies"@,
                    JsonView::List(
                        self.max_frequencies.map_values(
                            |f: MaxFrequencyView| JsonView::Text(f.pattern + "="@ + f.shown),
                        ),
                    ),
                ),
                ("forward_discovery"@, JsonView::Bool(self.forward_discovery)),
                ("reliable_routes_blocking"@, JsonView::Bool(self.reliable_routes_blocking)),
            ],
        )
    }
}

impl Config {
    /// The settings where nothing is told, with the domain and the keeping to the local host
    /// that the environment tells.
    pub fn new(ros_domain_id: Option<String>, ros_localhost_only: Option<String>) -> (config: Config)
        ensures
            config@ == (ConfigView {
                scope: None,
                domain: domain_told(crate::text::optional_text(ros_domain_id)),
                allow: None,
                deny: None,
                max_frequencies: seq![],
                generalise_subs: seq![],
                generalise_pubs: seq![],
                forward_discovery: DEFAULT_FORWARD_DISCOVERY,
                reliable_routes_blocking: DEFAULT_RELIABLE_ROUTES_BLOCKING,
                localhost_only: crate::text::optional_text(ros_localhost_only) == Some("1"@),
                shm_enabled: false,
                queries_timeout: DEFAULT_QUERIES_TIMEOUT,
                required: None,
                path: None,
            }),
    {
        Config {
            scope: None,
            domain: default_domain(&ros_domain_id),
            allow: None,
            deny: None,
            max_frequencies: Vec::new(),
            generalise_subs: Vec::new(),
            generalise_pubs: Vec::new(),
            forward_discovery: default_forward_discovery(),
            reliable_routes_blocking: default_reliable_routes_blocking(),
            localhost_only: default_localhost_only(&ros_localhost_only),
            shm_enabled: false,
            queries_timeout: default_queries_timeout(),
            __required__: None,
            __path__: None,
        }
    }

    /// Whether `key` may be routed.
    pub fn is_allowed(&self, key: &KeyExpr) -> (allowed: bool)
        ensures
            allowed == self@.allows(key@),
    {
        let text: &str = key.as_str();
        if self.forward_discovery && ends_with(text, ROS_DISCOVERY_INFO_TOPIC_NAME) {
            // the forwarding of discovery takes care of it
            return false;
        }
        match (&self.allow, &self.deny) {
            (Some(allow), None) => allow.is_match(text),
            (None, Some(deny)) => !deny.is_match(text),
            (Some(allow), Some(deny)) => allow.is_match(text) && !deny.is_match(text),
            (None, None) => true,
        }
    }

    /// How often data for `key` is routed at most: the first frequency that is set for it,
    /// as the bits of a number of single precision.
    pub fn get_read_frequency(&self, key: &KeyExpr) -> (frequency: Option<u32>)
        ensures
            frequency == self@.frequency_from(key@, 0),
    {
        let mut i: usize = 0;
        while i < self.max_frequencies.len()
            invariant
                i <= self.max_frequencies@.len(),
                self@.frequency_from(key@, 0) == self@.frequency_from(key@, i as int),
            decreases self.max_frequencies@.len() - i,
        {
            assert(self@.max_frequencies[i as int] == self.max_frequencies@[i as int]@);
            if self.max_frequencies[i].pattern.is_match(key.as_str()) {
                return Some(self.max_frequencies[i].frequency);
            }
            i += 1;
        }
        None
    }

    /// The settings as they are shown in the admin space.
    pub fn to_json(&self) -> (json: JsonValue)
        ensures
            json@ == self@.json(),
    {
        let mut frequencies: Vec<JsonValue> = Vec::new();
        let ghost shown = |f: MaxFrequencyView| JsonView::Text(f.pattern + "="@ + f.shown);
        let ghost all = self@.max_frequencies;
        let mut i: usize = 0;
        while i < self.max_frequencies.len()
            invariant
                i <= self.max_frequencies@.len(),
                all == self@.max_frequencies,
                shown == (|f: MaxFrequencyView| JsonView::Text(f.pattern + "="@ + f.shown)),
                crate::json::items_view(frequencies@) == all.take(i as int).map_values(shown),
            decreases self.max_frequencies@.len() - i,
        {
            let mut text: String = concat(self.max_frequencies[i].pattern.as_str(), "=");
            text.append(self.max_frequencies[i].shown.as_str());
            let item: JsonValue = JsonValue::Text(text);
            let ghost before = frequencies@;
            proof {
                assert(all[i as int] == self.max_frequencies@[i as int]@);
                assert(item@ == shown(all[i as int]));
                assert(before.push(item).drop_last() =~= before);
                assert(all.take(i + 1).map_values(shown) =~= all.take(i as int).map_values(shown).push(
                    shown(all[i as int]),
                ));
            }
            frequencies.push(item);
            i += 1;
        }
        assert(all.take(i as int) =~= all);
        let mut members: Vec<(String, JsonValue)> = Vec::new();
        add_member(&mut members, "domain", JsonValue::Number(self.domain as i64));
        let scope: JsonValue = match &self.scope {
            Some(scope) => JsonValue::Text(scope.to_text()),
            None => JsonValue::Null,
        };
        add_member(&mut members, "scope", scope);
        let allow: String = match &self.allow {
            Some(pattern) => String::from_str(pattern.as_str()),
            None => String::from_str(".*"),
        };
        add_member(&mut members, "allow", JsonValue::Text(allow));
        let deny: String = match &self.deny {
            Some(pattern) => String::from_str(pattern.as_str()),
            None => String::from_str(""),
        };
        add_member(&mut members, "deny", JsonValue::Text(deny));
        add_member(&mut members, "max-frequencies", JsonValue::List(frequencies));
        add_member(&mut members, "forward_discovery", JsonValue::Bool(self.forward_discovery));
        add_member(&mut members, "reliable_routes_blocking", JsonValue::Bool(self.reliable_routes_blocking));
        assert(members_view(members@) =~= self@.json()->Object_0);
        JsonValue::Object(members)
    }

    /// The settings of CycloneDDS, where `current` are those of the environment.
    pub fn cyclonedds_uri(&self, current: &str) -> (uri: String)
        ensures
            uri@ == (if self.shm_enabled {
                CYCLONEDDS_CONFIG_ENABLE_SHM@
            } else {
                seq![]
            }) + (if self.localhost_only {
                CYCLONEDDS_CONFIG_LOCALHOST_ONLY@
            } else {
                seq![]
            }) + current@,
    {
        let mut uri: String = String::from_str(current);
        if self.localhost_only {
            uri = concat(CYCLONEDDS_CONFIG_LOCALHOST_ONLY, uri.as_str());
        }
        if self.shm_enabled {
            uri = concat(CYCLONEDDS_CONFIG_ENABLE_SHM, uri.as_str());
        }
        assert(uri@ =~= (if self.shm_enabled {
            CYCLONEDDS_CONFIG_ENABLE_SHM@
        } else {
            seq![]
        }) + (if self.localhost_only {
            CYCLONEDDS_CONFIG_LOCALHOST_ONLY@
        } else {
            seq![]
        }) + current@);
        uri
    }
}

/// The domain that the environment tells: the number it is set to, or the default where that is none.
pub open spec fn domain_told(ros_domain_id: Option<Seq<char>>) -> u32 {
    match ros_domain_id {
        Some(text) => match parsed_u32(text) {
            Some(domain) => domain,
            None => DEFAULT_DOMAIN,
        },
        None => DEFAULT_DOMAIN,
    }
}

/// The domain that is used unless told otherwise, where the environment tells `ros_domain_id`.
pub fn default_domain(ros_domain_id: &Option<String>) -> (domain: u32)
    ensures
        domain == domain_told(crate::text::optional_text(*ros_domain_id)),
{
    match ros_domain_id {
        Some(text) => match parse_u32(text.as_str()) {
            Some(domain) => domain,
            None => DEFAULT_DOMAIN,
        },
        None => DEFAULT_DOMAIN,
    }
}

/// How long queries may take unless told otherwise, in nanoseconds.
pub fn default_queries_timeout() -> (timeout: u64)
    ensures
        timeout == DEFAULT_QUERIES_TIMEOUT,
{
    DEFAULT_QUERIES_TIMEOUT
}

/// Whether discovery is forwarded, unless told otherwise.
pub fn default_forward_discovery() -> (b: bool)
    ensures
        b == DEFAULT_FORWARD_DISCOVERY,
{
    DEFAULT_FORWARD_DISCOVERY
}

/// Whether the routes of reliable endpoints block, unless told otherwise.
pub fn default_reliable_routes_blocking() -> (b: bool)
    ensures
        b == DEFAULT_RELIABLE_ROUTES_BLOCKING,
{
    DEFAULT_RELIABLE_ROUTES_BLOCKING
}

/// Whether DDS keeps to the local host unless told otherwise, where the environment tells `ros_localhost_only`.
pub fn default_localhost_only(ros_localhost_only: &Option<String>) -> (b: bool)
    ensures
        b == (crate::text::optional_text(*ros_localhost_only) == Some("1"@)),
{
    match ros_localhost_only {
        Some(text) => same(text.as_str(), "1"),
        None => false,
    }
}

/// How a regular expression is told: not at all, by one, or by several of which one is to match.
pub enum RegexSetting {
    Null,
    Text(String),
    List(Vec<String>),
}

impl RegexSetting {
    /// The one regular expression that is told.
    pub open spec fn source(self) -> Option<Seq<char>> {
        match self {
            RegexSetting::Null => None,
            RegexSetting::Text(text) => Some(text@),
            RegexSetting::List(list) => Some(joined(texts(list@), "|"@)),
        }
    }
}

/// Why a regular expression is not accepted.
pub open spec fn invalid_regex_message(source: Seq<char>, error: Seq<char>) -> Seq<char> {
    "Invalid regex '"@ + source + "': "@ + error
}

/// Reads a regular expression, or says why it is none.
pub fn deserialize_regex(setting: &RegexSetting) -> (pattern: Result<Option<TopicPattern>, String>)
    ensures
        match (pattern, setting.source()) {
            (Ok(None), None) => true,
            (Ok(Some(p)), Some(source)) => regex_error(source) is None && p@ == source,
            (Err(message), Some(source)) => regex_error(source) matches Some(error) && message@
                == invalid_regex_message(source, error),
            _ => false,
        },
{
    let source: String = match setting {
        RegexSetting::Null => {
            return Ok(None);
        },
        RegexSetting::Text(text) => text.clone(),
        RegexSetting::List(list) => join(list, "|"),
    };
    match TopicPattern::new(source.as_str()) {
        Ok(pattern) => Ok(Some(pattern)),
        Err(error) => {
            let mut message: String = concat("Invalid regex '", source.as_str());
            message.append("': ");
            message.append(error.as_str());
            Err(message)
        },
    }
}

/// How a list of paths is told: not at all, by one, or by several.
pub enum PathSetting {
    Null,
    Text(String),
    List(Vec<String>),
}

impl PathSetting {
    /// The paths that are told.
    pub open spec fn paths(self) -> Option<Seq<Seq<char>>> {
        match self {
            PathSetting::Null => None,
            PathSetting::Text(text) => Some(seq![text@]),
            PathSetting::List(list) => Some(texts(list@)),
        }
    }
}

/// Reads a list of paths.
pub fn deserialize_path(setting: &PathSetting) -> (paths: Option<Vec<String>>)
    ensures
        optional_texts(paths) == setting.paths(),
{
    match setting {
        PathSetting::Null => None,
        PathSetting::Text(text) => {
            let mut list: Vec<String> = Vec::new();
            list.push(text.clone());
            assert(texts(list@) =~= seq![text@]);
            Some(list)
        },
        PathSetting::List(list) => Some(clone_strings(list)),
    }
}

/// Reads the part of a maximum frequency that is before the number: a regular expression, up to the first `=`.
/// What stands behind it is given back as text.
pub fn split_max_frequency(setting: &str) -> (parts: Result<(TopicPattern, String), String>)
    ensures
        match first_index(setting@, "="@) {
            None => parts matches Err(message) && message@ == "Invalid 'max_frequency': "@ + setting@,
            Some(i) => match regex_error(setting@.take(i)) {
                Some(error) => parts matches Err(message) && message@ == "Invalid regex for 'max_frequency': '"@
                    + setting@ + "': "@ + error,
                None => parts matches Ok((pattern, frequency)) && pattern@ == setting@.take(i) && frequency@
                    == setting@.skip(i + 1),
            },
        },
{
    proof {
        reveal_strlit("=");
    }
    match find(setting, "=") {
        None => Err(concat("Invalid 'max_frequency': ", setting)),
        Some(i) => {
            let source: String = take(setting, i);
            match TopicPattern::new(source.as_str()) {
                Err(error) => {
                    let mut message: String = concat("Invalid regex for 'max_frequency': '", setting);
                    message.append("': ");
                    message.append(error.as_str());
                    Err(message)
                },
                Ok(pattern) => Ok((pattern, skip(setting, i + 1))),
            }
        },
    }
}

/// Whether a setting of a maximum frequency can be split.
pub open spec fn splits(setting: Seq<char>) -> bool {
    first_index(setting, "="@) matches Some(i) && regex_error(setting.take(i)) is None
}

/// The message for a setting of a maximum frequency that cannot be split.
pub open spec fn split_failure(setting: Seq<char>) -> Seq<char> {
    match first_index(setting, "="@) {
        None => "Invalid 'max_frequency': "@ + setting,
        Some(i) => "Invalid regex for 'max_frequency': '"@ + setting + "': "@ + regex_error(setting.take(i))->Some_0,
    }
}

/// Reads a list of maximum frequencies up to their numbers, in order: of each setting the regular expression and,
/// as text, what stands behind the first `=`. The first setting that cannot be read makes the whole list fail.
pub fn split_max_frequencies(settings: &Vec<String>) -> (list: Result<Vec<(TopicPattern, String)>, String>)
    ensures
        list is Ok <==> forall|k: int| 0 <= k < settings@.len() ==> splits(#[trigger] settings@[k]@),
        list matches Ok(parts) ==> {
            &&& parts@.len() == settings@.len()
            &&& forall|k: int|
                0 <= k < settings@.len() ==> {
                    let setting = (#[trigger] settings@[k])@;
                    let i = first_index(setting, "="@)->Some_0;
                    parts@[k].0@ == setting.take(i) && parts@[k].1@ == setting.skip(i + 1)
                }
        },
        list matches Err(message) ==> exists|k: int|
            0 <= k < settings@.len() && !splits(#[trigger] settings@[k]@) && message@ == split_failure(settings@[k]@)
                && forall|j: int| 0 <= j < k ==> splits(#[trigger] settings@[j]@),
{
    let mut parts: Vec<(TopicPattern, String)> = Vec::new();
    let mut k: usize = 0;
    while k < settings.len()
        invariant
            k <= settings@.len(),
            parts@.len() == k,
            forall|j: int| 0 <= j < k ==> splits(#[trigger] settings@[j]@),
            forall|j: int|
                0 <= j < k ==> {
                    let setting = (#[trigger] settings@[j])@;
                    let i = first_index(setting, "="@)->Some_0;
                    parts@[j].0@ == setting.take(i) && parts@[j].1@ == setting.skip(i + 1)
                },
        decreases settings@.len() - k,
    {
        match split_max_frequency(settings[k].as_str()) {
            Ok(part) => {
                parts.push(part);
            },
            Err(message) => {
                assert(!splits(settings@[k as int]@));
                return Err(message);
            },
        }
        k += 1;
    }
    Ok(parts)
}

/// A key is routed where both patterns are set if it matches only the one that allows.
/// What ROS nodes tell of themselves is left out where discovery is forwarded.
pub proof fn law_allow_and_deny(config: ConfigView, allow: Seq<char>, deny: Seq<char>, key: Seq<char>)
    requires
        config.allow == Some(allow),
        config.deny == Some(deny),
        !(config.forward_discovery && ROS_DISCOVERY_INFO_TOPIC_NAME@.is_suffix_of(key)),
    ensures
        config.allows(key) <==> regex_matches(allow, key) && !regex_matches(deny, key),
{
}

/// Where nothing is set, every key is routed.
/// What ROS nodes tell of themselves is left out where discovery is forwarded.
pub proof fn law_all_allowed_by_default(config: ConfigView, key: Seq<char>)
    requires
        config.allow is None,
        config.deny is None,
        !(config.forward_discovery && ROS_DISCOVERY_INFO_TOPIC_NAME@.is_suffix_of(key)),
    ensures
        config.allows(key),
{
}

} // verus!
