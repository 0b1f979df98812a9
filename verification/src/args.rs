//! What the bridge is told on the command line.
use vstd::prelude::*;

use crate::gid::hex_digit;
use crate::number::{decimal_text, parse_u64, parsed_u64, write_u64};
use crate::text::{concat, join, joined, optional_text, optional_texts, texts};

verus! {

/// An argument that is expected: its usage, and how else it can be written.
pub struct ExpectedArg {
    pub usage: &'static str,
    pub short: Option<&'static str>,
    pub visible_alias: Option<&'static str>,
}

/// An argument that is expected, over mathematical values.
pub struct ExpectedArgView {
    pub usage: Seq<char>,
    pub short: Option<Seq<char>>,
    pub visible_alias: Option<Seq<char>>,
}

impl View for ExpectedArg {
    type V = ExpectedArgView;

    open spec fn view(&self) -> ExpectedArgView {
        ExpectedArgView {
            usage: self.usage@,
            short: match self.short {
                Some(s) => Some(s@),
                None => None,
            },
            visible_alias: match self.visible_alias {
                Some(s) => Some(s@),
                None => None,
            },
        }
    }
}

pub const SCOPE_USAGE: &'static str = "--dds-scope=[String]   'A string used as prefix to scope DDS traffic.'";

pub const GENERALISE_PUB_USAGE: &'static str =
    "--dds-generalise-pub=[String]...   'A list of key expression to use for generalising publications (usable multiple times).'";

pub const GENERALISE_SUB_USAGE: &'static str =
    "--dds-generalise-sub=[String]...   'A list of key expression to use for generalising subscriptions (usable multiple times).'";

pub const DOMAIN_USAGE: &'static str =
    "--dds-domain=[ID]   'The DDS Domain ID (if using with ROS this should be the same as ROS_DOMAIN_ID).'";

pub const ALLOW_USAGE: &'static str =
    "--dds-allow=[String]   'A regular expression matching the set of 'partition/topic-name' that should be bridged. By default, all partitions and topic are allowed. Examples of expressions: '.*/TopicA', 'Partition-?/.*', 'cmd_vel|rosout'...'";

/// An argument with nothing but its usage.
pub open spec fn plain_arg(usage: Seq<char>) -> ExpectedArgView {
    ExpectedArgView { usage, short: None, visible_alias: None }
}

/// The arguments about DDS, in order.
pub open spec fn expected_args() -> Seq<ExpectedArgView> {
    seq![
        plain_arg(SCOPE_USAGE@),
        plain_arg(GENERALISE_PUB_USAGE@),
        plain_arg(GENERALISE_SUB_USAGE@),
        plain_arg(DOMAIN_USAGE@),
        plain_arg(ALLOW_USAGE@),
    ]
}

/// The views of a list of arguments.
pub open spec fn arg_views(args: Seq<ExpectedArg>) -> Seq<ExpectedArgView> {
    args.map_values(|a: ExpectedArg| a@)
}

fn arg_from_usage(usage: &'static str) -> (arg: ExpectedArg)
    ensures
        arg@ == plain_arg(usage@),
{
    ExpectedArg { usage, short: None, visible_alias: None }
}

/// The arguments about DDS.
pub fn get_expected_args2() -> (args: Vec<ExpectedArg>)
    ensures
        arg_views(args@) == expected_args(),
{
    let mut args: Vec<ExpectedArg> = Vec::new();
    args.push(arg_from_usage(SCOPE_USAGE));
    args.push(arg_from_usage(GENERALISE_PUB_USAGE));
    args.push(arg_from_usage(GENERALISE_SUB_USAGE));
    args.push(arg_from_usage(DOMAIN_USAGE));
    args.push(arg_from_usage(ALLOW_USAGE));
    assert(arg_views(args@) =~= expected_args());
    args
}

/// An argument that can also be written in short, and under another name.
pub open spec fn renamed(arg: ExpectedArgView, short: Seq<char>, alias: Seq<char>) -> ExpectedArgView {
    ExpectedArgView { short: Some(short), visible_alias: Some(alias), ..arg }
}

fn rename(arg: ExpectedArg, short: &'static str, alias: &'static str) -> (other: ExpectedArg)
    ensures
        other@ == renamed(arg@, short@, alias@),
{
    ExpectedArg { usage: arg.usage, short: Some(short), visible_alias: Some(alias) }
}

/// Lets the arguments about DDS, in their order, also be written in short, and without the prefix `dds-`.
pub fn customize_dds_args(args: Vec<ExpectedArg>) -> (custom: Vec<ExpectedArg>)
    requires
        args@.len() == 5,
    ensures
        arg_views(custom@) == seq![
            renamed(args@[0]@, "s"@, "scope"@),
            renamed(args@[1]@, "w"@, "generalise-pub"@),
            renamed(args@[2]@, "r"@, "generalise-sub"@),
            renamed(args@[3]@, "d"@, "domain"@),
            renamed(args@[4]@, "a"@, "allow"@),
        ],
{
    let ghost all = args@;
    let mut args: Vec<ExpectedArg> = args;
    let arg: ExpectedArg = args.remove(0);
    args.push(rename(arg, "s", "scope"));
    let arg: ExpectedArg = args.remove(0);
    args.push(rename(arg, "w", "generalise-pub"));
    let arg: ExpectedArg = args.remove(0);
    args.push(rename(arg, "r", "generalise-sub"));
    let arg: ExpectedArg = args.remove(0);
    args.push(rename(arg, "d", "domain"));
    let arg: ExpectedArg = args.remove(0);
    args.push(rename(arg, "a", "allow"));
    assert(arg_views(args@) =~= seq![
        renamed(all[0]@, "s"@, "scope"@),
        renamed(all[1]@, "w"@, "generalise-pub"@),
        renamed(all[2]@, "r"@, "generalise-sub"@),
        renamed(all[3]@, "d"@, "domain"@),
        renamed(all[4]@, "a"@, "allow"@),
    ]);
    args
}

/// What stands for a character in a JSON string.
pub open spec fn json_char(c: char) -> Seq<char> {
    if c == '"' {
        seq!['\\', '"']
    } else if c == '\\' {
        seq!['\\', '\\']
    } else if c == '\u{8}' {
        seq!['\\', 'b']
    } else if c == '\t' {
        seq!['\\', 't']
    } else if c == '\n' {
        seq!['\\', 'n']
    } else if c == '\u{c}' {
        seq!['\\', 'f']
    } else if c == '\r' {
        seq!['\\', 'r']
    } else if ' ' > c {
        seq!['\\', 'u', '0', '0', hex_digit(c as int / 16), hex_digit(c as int % 16)]
    } else {
        seq![c]
    }
}

/// A text as a JSON string.
pub open spec fn json_string(text: Seq<char>) -> Seq<char> {
    seq!['"'] + text.map_values(|c: char| json_char(c)).flatten() + seq!['"']
}

/// Calls `serde_json::to_string` on a string, which writes it in quotes, with a quote, a backslash
/// and the control characters escaped. This cannot fail.
#[verifier::external_body]
fn to_json_string(text: &str) -> (json: String)
    ensures
        json@ == json_string(text@),
{
    serde_json::to_string(text).unwrap()
}

/// Some texts as a JSON array of strings.
pub open spec fn json_strings(list: Seq<Seq<char>>) -> Seq<char> {
    "["@ + joined(list.map_values(|text: Seq<char>| json_string(text)), ","@) + "]"@
}

/// Writes some texts as a JSON array of strings.
fn to_json_strings(list: &Vec<String>) -> (json: String)
    ensures
        json@ == json_strings(texts(list@)),
{
    let mut parts: Vec<String> = Vec::new();
    let mut i: usize = 0;
    while i < list.len()
        invariant
            i <= list@.len(),
            parts@.len() == i,
            forall|j: int| 0 <= j < i ==> #[trigger] parts@[j]@ == json_string(list@[j]@),
        decreases list@.len() - i,
    {
        parts.push(to_json_string(list[i].as_str()));
        i += 1;
    }
    assert(texts(parts@) =~= texts(list@).map_values(|text: Seq<char>| json_string(text)));
    let inner: String = join(&parts, ",");
    let mut json: String = concat("[", inner.as_str());
    json.append("]");
    json
}

/// What the standalone bridge is told: each argument that is given.
pub struct BridgeArgs {
    pub id: Option<String>,
    pub mode: Option<String>,
    pub connect: Option<Vec<String>>,
    pub listen: Option<Vec<String>>,
    pub no_multicast_scouting: bool,
    pub rest_http_port: Option<String>,
    pub scope: Option<String>,
    pub domain: Option<String>,
    pub group_member_id: Option<String>,
    /// A number, as it stands in JSON.
    pub group_lease: Option<String>,
    pub allow: Option<Vec<String>>,
    pub deny: Option<Vec<String>>,
    pub max_frequency: Option<Vec<String>>,
    pub generalise_pub: Option<Vec<String>>,
    pub generalise_sub: Option<Vec<String>>,
    pub fwd_discovery: bool,
    pub dds_localhost_only: bool,
    pub dds_enable_shm: bool,
    /// A number, as it stands in JSON.
    pub queries_timeout: Option<String>,
}

/// What the standalone bridge is told, over mathematical values.
pub struct BridgeArgsView {
    pub id: Option<Seq<char>>,
    pub mode: Option<Seq<char>>,
    pub connect: Option<Seq<Seq<char>>>,
    pub listen: Option<Seq<Seq<char>>>,
    pub no_multicast_scouting: bool,
    pub rest_http_port: Option<Seq<char>>,
    pub scope: Option<Seq<char>>,
    pub domain: Option<Seq<char>>,
    pub group_member_id: Option<Seq<char>>,
    pub group_lease: Option<Seq<char>>,
    pub allow: Option<Seq<Seq<char>>>,
    pub deny: Option<Seq<Seq<char>>>,
    pub max_frequency: Option<Seq<Seq<char>>>,
    pub generalise_pub: Option<Seq<Seq<char>>>,
    pub generalise_sub: Option<Seq<Seq<char>>>,
    pub fwd_discovery: bool,
    pub dds_localhost_only: bool,
    pub dds_enable_shm: bool,
    pub queries_timeout: Option<Seq<char>>,
}

impl View for BridgeArgs {
    type V = BridgeArgsView;

    open spec fn view(&self) -> BridgeArgsView {
        BridgeArgsView {
            id: optional_text(self.id),
            mode: optional_text(self.mode),
            connect: optional_texts(self.connect),
            listen: optional_texts(self.listen),
            no_multicast_scouting: self.no_multicast_scouting,
            rest_http_port: optional_text(self.rest_http_port),
            scope: optional_text(self.scope),
            domain: optional_text(self.domain),
            group_member_id: optional_text(self.group_member_id),
            group_lease: optional_text(self.group_lease),
            allow: optional_texts(self.allow),
            deny: optional_texts(self.deny),
            max_frequency: optional_texts(self.max_frequency),
            generalise_pub: optional_texts(self.generalise_pub),
            generalise_sub: optional_texts(self.generalise_sub),
            fwd_discovery: self.fwd_discovery,
            dds_localhost_only: self.dds_localhost_only,
            dds_enable_shm: self.dds_enable_shm,
            queries_timeout: optional_text(self.queries_timeout),
        }
    }
}

/// A setting to put into the configuration, in JSON.
pub struct ConfigEdit {
    pub key: &'static str,
    pub json: String,
}

impl View for ConfigEdit {
    type V = (Seq<char>, Seq<char>);

    open spec fn view(&self) -> (Seq<char>, Seq<char>) {
        (self.key@, self.json@)
    }
}

/// The settings of a list.
pub open spec fn edit_views(edits: Seq<ConfigEdit>) -> Seq<(Seq<char>, Seq<char>)> {
    edits.map_values(|e: ConfigEdit| e@)
}

/// A domain that is not a number.
#[derive(Clone, Copy, Debug, PartialEq, Eq, Structural)]
pub struct InvalidDomain;

/// A setting, where it is told.
pub open spec fn edit(key: Seq<char>, json: Option<Seq<char>>) -> Seq<(Seq<char>, Seq<char>)> {
    match json {
        Some(j) => seq![(key, j)],
        None => seq![],
    }
}

/// A text as a JSON string, where it is told.
pub open spec fn told_string(text: Option<Seq<char>>) -> Option<Seq<char>> {
    match text {
        Some(t) => Some(json_string(t)),
        None => None,
    }
}

/// Some texts as a JSON array, where they are told.
pub open spec fn told_strings(list: Option<Seq<Seq<char>>>) -> Option<Seq<char>> {
    match list {
        Some(l) => Some(json_strings(l)),
        None => None,
    }
}

/// What is set by a flag.
pub open spec fn told_flag(flag: bool) -> Option<Seq<char>> {
    if flag {
        Some("true"@)
    } else {
        None
    }
}

impl BridgeArgsView {
    /// Whether the domain, where it is told, is a number.
    pub open spec fn domain_is_number(self) -> bool {
        self.domain matches Some(d) ==> parsed_u64(d) is Some
    }

    /// The settings of zenoh that have an argument, each with what is told. Publications always get a timestamp,
    /// by which caches order them.
    pub open spec fn zenoh_settings(self) -> Seq<(Seq<char>, Option<Seq<char>>)> {
        seq![
            ("id"@, told_string(self.id)),
            ("mode"@, told_string(self.mode)),
            ("connect/endpoints"@, told_strings(self.connect)),
            ("listen/endpoints"@, told_strings(self.listen)),
            (
                "scouting/multicast/enabled"@,
                if self.no_multicast_scouting {
                    Some("false"@)
                } else {
                    None
                },
            ),
            (
                "plugins/rest/http_port"@,
                match self.rest_http_port {
                    Some(p) => Some("\""@ + p + "\""@),
                    None => None,
                },
            ),
            ("timestamping/enabled"@, Some("true"@)),
        ]
    }

    /// Where the bridge stands that the arguments tell of.
    pub open spec fn place_settings(self) -> Seq<(Seq<char>, Option<Seq<char>>)> {
        seq![
            ("plugins/dds/scope"@, told_string(self.scope)),
            (
                "plugins/dds/domain"@,
                match self.domain {
                    Some(d) => Some(decimal_text(parsed_u64(d)->Some_0 as nat)),
                    None => None,
                },
            ),
            ("plugins/dds/group_member_id"@, told_string(self.group_member_id)),
            ("plugins/dds/group_lease"@, self.group_lease),
        ]
    }

    /// What to route and how, as the arguments tell it.
    pub open spec fn routing_settings(self) -> Seq<(Seq<char>, Option<Seq<char>>)> {
        seq![
            ("plugins/dds/allow"@, told_strings(self.allow)),
            ("plugins/dds/deny"@, told_strings(self.deny)),
            ("plugins/dds/max_frequencies"@, told_strings(self.max_frequency)),
            ("plugins/dds/generalise_pubs"@, told_strings(self.generalise_pub)),
            ("plugins/dds/generalise_subs"@, told_strings(self.generalise_sub)),
        ]
    }

    /// How the bridge works, as the arguments tell it.
    pub open spec fn mode_settings(self) -> Seq<(Seq<char>, Option<Seq<char>>)> {
        seq![
            ("plugins/dds/forward_discovery"@, told_flag(self.fwd_discovery)),
            ("plugins/dds/localhost_only"@, told_flag(self.dds_localhost_only)),
            ("plugins/dds/shm_enabled"@, told_flag(self.dds_enable_shm)),
            ("plugins/dds/queries_timeout"@, self.queries_timeout),
        ]
    }

    /// All settings that have an argument, each with what is told.
    pub open spec fn settings(self) -> Seq<(Seq<char>, Option<Seq<char>>)> {
        self.zenoh_settings() + self.place_settings() + self.routing_settings() + self.mode_settings()
    }

    /// The settings that the arguments put into the configuration, in order.
    pub open spec fn edits(self) -> Seq<(Seq<char>, Seq<char>)> {
        told(self.settings())
    }
}

/// Of some settings those that are told.
pub open spec fn told(settings: Seq<(Seq<char>, Option<Seq<char>>)>) -> Seq<(Seq<char>, Seq<char>)>
    decreases settings.len(),
{
    if settings.len() == 0 {
        seq![]
    } else {
        told(settings.drop_last()) + edit(settings.last().0, settings.last().1)
    }
}

proof fn lemma_told_push(settings: Seq<(Seq<char>, Option<Seq<char>>)>, key: Seq<char>, json: Option<Seq<char>>)
    ensures
        told(settings.push((key, json))) == told(settings) + edit(key, json),
{
    assert(settings.push((key, json)).drop_last() =~= settings);
}

/// One more setting.
proof fn lemma_told_next(settings: Seq<(Seq<char>, Option<Seq<char>>)>, at: int)
    requires
        0 <= at < settings.len(),
    ensures
        told(settings.take(at + 1)) == told(settings.take(at)) + edit(settings[at].0, settings[at].1),
{
    assert(settings.take(at + 1) =~= settings.take(at).push(settings[at]));
    lemma_told_push(settings.take(at), settings[at].0, settings[at].1);
}

proof fn lemma_told_add(
    first: Seq<(Seq<char>, Option<Seq<char>>)>,
    second: Seq<(Seq<char>, Option<Seq<char>>)>,
)
    ensures
        told(first + second) == told(first) + told(second),
    decreases second.len(),
{
    if second.len() == 0 {
        assert(first + second =~= first);
        assert(told(first) + told(second) =~= told(first));
    } else {
        lemma_told_add(first, second.drop_last());
        assert((first + second).drop_last() =~= first + second.drop_last());
        assert(told(first + second) =~= told(first) + told(second));
    }
}

fn put(edits: &mut Vec<ConfigEdit>, key: &'static str, json: Option<String>)
    ensures
        edit_views(final(edits)@) == edit_views(old(edits)@) + edit(key@, optional_text(json)),
{
    let ghost before = edits@;
    match json {
        Some(json) => {
            edits.push(ConfigEdit { key, json });
            assert(edit_views(edits@) =~= edit_views(before) + seq![(key@, json@)]);
        },
        None => {
            assert(edit_views(edits@) =~= edit_views(before) + seq![]);
        },
    }
}

fn optional_json_string(text: &Option<String>) -> (json: Option<String>)
    ensures
        optional_text(json) == told_string(optional_text(*text)),
{
    match text {
        Some(t) => Some(to_json_string(t.as_str())),
        None => None,
    }
}

fn optional_json_strings(list: &Option<Vec<String>>) -> (json: Option<String>)
    ensures
        optional_text(json) == told_strings(optional_texts(*list)),
{
    match list {
        Some(l) => Some(to_json_strings(l)),
        None => None,
    }
}

fn flag_json(flag: bool) -> (json: Option<String>)
    ensures
        optional_text(json) == told_flag(flag),
{
    if flag {
        Some(String::from_str("true"))
    } else {
        None
    }
}

fn zenoh_edits(args: &BridgeArgs) -> (edits: Vec<ConfigEdit>)
    ensures
        edit_views(edits@) == told(args@.zenoh_settings()),
{
    let port: Option<String> = match &args.rest_http_port {
        Some(p) => {
            let mut json: String = concat("\"", p.as_str());
            json.append("\"");
            Some(json)
        },
        None => None,
    };
    let scouting: Option<String> = if args.no_multicast_scouting {
        Some(String::from_str("false"))
    } else {
        None
    };
    let ghost all = args@.zenoh_settings();
    let mut edits: Vec<ConfigEdit> = Vec::new();
    assert(edit_views(edits@) =~= told(all.take(0)));
    put(&mut edits, "id", optional_json_string(&args.id));
    proof {
        lemma_told_next(all, 0);
    }
    put(&mut edits, "mode", optional_json_string(&args.mode));
    proof {
        lemma_told_next(all, 1);
    }
    put(&mut edits, "connect/endpoints", optional_json_strings(&args.connect));
    proof {
        lemma_told_next(all, 2);
    }
    put(&mut edits, "listen/endpoints", optional_json_strings(&args.listen));
    proof {
        lemma_told_next(all, 3);
    }
    put(&mut edits, "scouting/multicast/enabled", scouting);
    proof {
        lemma_told_next(all, 4);
    }
    put(&mut edits, "plugins/rest/http_port", port);
    proof {
        lemma_told_next(all, 5);
    }
    // the caches for late readers order publications by their timestamps
    put(&mut edits, "timestamping/enabled", Some(String::from_str("true")));
    proof {
        lemma_told_next(all, 6);
        assert(all.take(7) =~= all);
    }
    edits
}

fn place_edits(args: &BridgeArgs) -> (edits: Option<Vec<ConfigEdit>>)
    ensures
        edits is Some <==> args@.domain_is_number(),
        edits matches Some(list) ==> edit_views(list@) == told(args@.place_settings()),
{
    let domain: Option<String> = match &args.domain {
        Some(text) => match parse_u64(text.as_str()) {
            Some(n) => Some(write_u64(n)),
            None => {
                return None;
            },
        },
        None => None,
    };
    let ghost all = args@.place_settings();
    let mut edits: Vec<ConfigEdit> = Vec::new();
    assert(edit_views(edits@) =~= told(all.take(0)));
    put(&mut edits, "plugins/dds/scope", optional_json_string(&args.scope));
    proof {
        lemma_told_next(all, 0);
    }
    put(&mut edits, "plugins/dds/domain", domain);
    proof {
        lemma_told_next(all, 1);
    }
    put(&mut edits, "plugins/dds/group_member_id", optional_json_string(&args.group_member_id));
    proof {
        lemma_told_next(all, 2);
    }
    put(&mut edits, "plugins/dds/group_lease", args.group_lease.clone());
    proof {
        lemma_told_next(all, 3);
        assert(all.take(4) =~= all);
    }
    Some(edits)
}

fn routing_edits(args: &BridgeArgs) -> (edits: Vec<ConfigEdit>)
    ensures
        edit_views(edits@) == told(args@.routing_settings()),
{
    let ghost all = args@.routing_settings();
    let mut edits: Vec<ConfigEdit> = Vec::new();
    assert(edit_views(edits@) =~= told(all.take(0)));
    put(&mut edits, "plugins/dds/allow", optional_json_strings(&args.allow));
    proof {
        lemma_told_next(all, 0);
    }
    put(&mut edits, "plugins/dds/deny", optional_json_strings(&args.deny));
    proof {
        lemma_told_next(all, 1);
    }
    put(&mut edits, "plugins/dds/max_frequencies", optional_json_strings(&args.max_frequency));
    proof {
        lemma_told_next(all, 2);
    }
    put(&mut edits, "plugins/dds/generalise_pubs", optional_json_strings(&args.generalise_pub));
    proof {
        lemma_told_next(all, 3);
    }
    put(&mut edits, "plugins/dds/generalise_subs", optional_json_strings(&args.generalise_sub));
    proof {
        lemma_told_next(all, 4);
        assert(all.take(5) =~= all);
    }
    edits
}

fn mode_edits(args: &BridgeArgs) -> (edits: Vec<ConfigEdit>)
    ensures
        edit_views(edits@) == told(args@.mode_settings()),
{
    let ghost all = args@.mode_settings();
    let mut edits: Vec<ConfigEdit> = Vec::new();
    assert(edit_views(edits@) =~= told(all.take(0)));
    put(&mut edits, "plugins/dds/forward_discovery", flag_json(args.fwd_discovery));
    proof {
        lemma_told_next(all, 0);
    }
    put(&mut edits, "plugins/dds/localhost_only", flag_json(args.dds_localhost_only));
    proof {
        lemma_told_next(all, 1);
    }
    put(&mut edits, "plugins/dds/shm_enabled", flag_json(args.dds_enable_shm));
    proof {
        lemma_told_next(all, 2);
    }
    put(&mut edits, "plugins/dds/queries_timeout", args.queries_timeout.clone());
    proof {
        lemma_told_next(all, 3);
        assert(all.take(4) =~= all);
    }
    edits
}

/// The settings that the arguments put into the configuration, in order; fails where the domain is not a number.
pub fn config_edits(args: &BridgeArgs) -> (edits: Result<Vec<ConfigEdit>, InvalidDomain>)
    ensures
        edits is Ok <==> args@.domain_is_number(),
        edits matches Ok(list) ==> edit_views(list@) == args@.edits(),
{
    let mut list: Vec<ConfigEdit> = zenoh_edits(args);
    let mut place: Vec<ConfigEdit> = match place_edits(args) {
        Some(place) => place,
        None => {
            return Err(InvalidDomain);
        },
    };
    let mut routing: Vec<ConfigEdit> = routing_edits(args);
    let mut mode: Vec<ConfigEdit> = mode_edits(args);
    let ghost parts = (list@, place@, routing@, mode@);
    list.append(&mut place);
    list.append(&mut routing);
    list.append(&mut mode);
    proof {
        let (zenoh, place, routing, mode) = (
            args@.zenoh_settings(),
            args@.place_settings(),
            args@.routing_settings(),
            args@.mode_settings(),
        );
        lemma_told_add(zenoh, place);
        lemma_told_add(zenoh + place, routing);
        lemma_told_add(zenoh + place + routing, mode);
        assert(edit_views(list@) =~= edit_views(parts.0) + edit_views(parts.1) + edit_views(parts.2) + edit_views(
            parts.3,
        ));
    }
    Ok(list)
}

/// The configuration that settings make of one that is read from a file: each is put in place of what is there.
pub open spec fn configured(file: Map<Seq<char>, Seq<char>>, edits: Seq<(Seq<char>, Seq<char>)>) -> Map<
    Seq<char>,
    Seq<char>,
>
    decreases edits.len(),
{
    if edits.len() == 0 {
        file
    } else {
        configured(file, edits.drop_last()).insert(edits.last().0, edits.last().1)
    }
}

proof fn lemma_configured(
    file: Map<Seq<char>, Seq<char>>,
    settings: Seq<(Seq<char>, Option<Seq<char>>)>,
    key: Seq<char>,
)
    requires
        forall|i: int, j: int|
            0 <= i < j < settings.len() ==> (#[trigger] settings[i]).0 != (#[trigger] settings[j]).0,
    ensures
        ({
            let result = configured(file, told(settings));
            &&& (forall|i: int| 0 <= i < settings.len() ==> (#[trigger] settings[i]).0 != key) ==> (
                result.contains_key(key) <==> file.contains_key(key)) && result[key] == file[key]
            &&& forall|i: int|
                0 <= i < settings.len() && (#[trigger] settings[i]).0 == key ==> match settings[i].1 {
                    Some(json) => result.contains_key(key) && result[key] == json,
                    None => (result.contains_key(key) <==> file.contains_key(key)) && result[key] == file[key],
                }
        }),
    decreases settings.len(),
{
    if settings.len() > 0 {
        let before = settings.drop_last();
        lemma_configured(file, before, key);
        let edits = told(settings);
        match settings.last().1 {
            Some(json) => {
                assert(edits.drop_last() =~= told(before));
                assert(edits.last() == (settings.last().0, json));
            },
            None => {
                assert(edits =~= told(before));
            },
        }
        let last = settings.len() - 1;
        if settings[last].0 == key {
            assert forall|i: int| 0 <= i < before.len() implies (#[trigger] before[i]).0 != key by {
                assert(settings[i].0 != settings[last].0);
            }
        } else {
            assert forall|i: int| 0 <= i < settings.len() && (#[trigger] settings[i]).0 == key implies i < last
                && before[i] == settings[i] by {}
            assert forall|i: int| 0 <= i < before.len() implies #[trigger] before[i] == settings[i] by {}
        }
    }
}

/// A number that tells the keys of the settings apart: by their lengths, and their last characters but three.
spec fn key_sign(key: Seq<char>) -> int {
    key.len() * 256 + if key.len() >= 4 {
        key[key.len() - 4] as int
    } else {
        0
    }
}

/// Each setting has its own key.
proof fn lemma_setting_keys(args: BridgeArgsView)
    ensures
        args.settings().len() == 20,
        forall|i: int, j: int|
            0 <= i < j < args.settings().len() ==> (#[trigger] args.settings()[i]).0 != (#[trigger] args.settings()[j]).0,
{
    reveal_strlit("id");
    reveal_strlit("mode");
    reveal_strlit("connect/endpoints");
    reveal_strlit("listen/endpoints");
    reveal_strlit("scouting/multicast/enabled");
    reveal_strlit("plugins/rest/http_port");
    reveal_strlit("timestamping/enabled");
    reveal_strlit("plugins/dds/scope");
    reveal_strlit("plugins/dds/domain");
    reveal_strlit("plugins/dds/group_member_id");
    reveal_strlit("plugins/dds/group_lease");
    reveal_strlit("plugins/dds/allow");
    reveal_strlit("plugins/dds/deny");
    reveal_strlit("plugins/dds/max_frequencies");
    reveal_strlit("plugins/dds/generalise_pubs");
    reveal_strlit("plugins/dds/generalise_subs");
    reveal_strlit("plugins/dds/forward_discovery");
    reveal_strlit("plugins/dds/localhost_only");
    reveal_strlit("plugins/dds/shm_enabled");
    reveal_strlit("plugins/dds/queries_timeout");
    let all = args.settings();
    assert(key_sign(all[0].0) == 512);
    assert(key_sign(all[1].0) == 1133);
    assert(key_sign(all[2].0) == 4457);
    assert(key_sign(all[3].0) == 4201);
    assert(key_sign(all[4].0) == 6754);
    assert(key_sign(all[5].0) == 5744);
    assert(key_sign(all[6].0) == 5218);
    assert(key_sign(all[7].0) == 4451);
    assert(key_sign(all[8].0) == 4717);
    assert(key_sign(all[9].0) == 7026);
    assert(key_sign(all[10].0) == 5989);
    assert(key_sign(all[11].0) == 4460);
    assert(key_sign(all[12].0) == 4196);
    assert(key_sign(all[13].0) == 7011);
    assert(key_sign(all[14].0) == 7024);
    assert(key_sign(all[15].0) == 7027);
    assert(key_sign(all[16].0) == 7542);
    assert(key_sign(all[17].0) == 6767);
    assert(key_sign(all[18].0) == 5986);
    assert(key_sign(all[19].0) == 7013);
    assert forall|i: int, j: int| 0 <= i < j < all.len() implies key_sign((#[trigger] all[i]).0) != key_sign(
        (#[trigger] all[j]).0,
    ) by {}
}

/// The arguments override the configuration file: a setting that has an argument is what that tells,
/// or what the file says where it is not given, and every other setting is what the file says.
pub proof fn law_arguments_override_the_file(args: BridgeArgsView, file: Map<Seq<char>, Seq<char>>, key: Seq<char>)
    ensures
        ({
            let settings = args.settings();
            let result = configured(file, args.edits());
            &&& (forall|i: int| 0 <= i < settings.len() ==> (#[trigger] settings[i]).0 != key) ==> (
                result.contains_key(key) <==> file.contains_key(key)) && result[key] == file[key]
            &&& forall|i: int|
                0 <= i < settings.len() && (#[trigger] settings[i]).0 == key ==> match settings[i].1 {
                    Some(json) => result.contains_key(key) && result[key] == json,
                    None => (result.contains_key(key) <==> file.contains_key(key)) && result[key] == file[key],
                }
        }),
{
    lemma_setting_keys(args);
    lemma_configured(file, args.settings(), key);
}

} // verus!
