//! What the settings mean: what is routed, and what the command line sets.
use vstd::prelude::*;

use crate::args::{
    configured, expected_args, json_char, json_string, json_strings, law_arguments_override_the_file, renamed,
    BridgeArgsView, ExpectedArgView,
};
use crate::config::{
    domain_told, invalid_regex_message, split_failure, splits, ConfigView, MaxFrequencyView, PathSetting, RegexSetting,
    DEFAULT_DDS_LOCALHOST_ONLY, DEFAULT_DOMAIN, DEFAULT_FORWARD_DISCOVERY, DEFAULT_QUERIES_TIMEOUT,
    DEFAULT_RELIABLE_ROUTES_BLOCKING,
};
use crate::json::JsonView;
use crate::number::{decimal_text, parsed, parsed_u64};
use crate::pattern::{regex_error, regex_matches};
use crate::text::{first_index, joined, occurs, occurs_at};

verus! {

/// What is routed: every key that matches the pattern that allows, where one is set, and does not match the pattern
/// that denies, where one is set. Where discovery is forwarded, no key that ends in `ros_discovery_info` is.
pub proof fn law_what_is_routed(config: ConfigView, key: Seq<char>)
    ensures
        config.allows(key) <==> {
            &&& config.allow is Some ==> regex_matches(config.allow->Some_0, key)
            &&& config.deny is Some ==> !regex_matches(config.deny->Some_0, key)
            &&& config.forward_discovery ==> !"ros_discovery_info"@.is_suffix_of(key)
        },
{
}

/// The DDS domain is the number that the environment tells, or zero where it tells no number of 32 bits.
pub proof fn law_domain_of_the_environment(n: u32, text: Seq<char>)
    ensures
        domain_told(Some(decimal_text(n as nat))) == n,
        domain_told(None) == 0,
        crate::number::parsed(text) is None ==> domain_told(Some(text)) == 0,
        crate::number::parsed(text) is Some && crate::number::parsed(text)->Some_0 > u32::MAX ==> domain_told(Some(text))
            == 0,
{
    crate::number::law_number_round_trip(n as u64);
}

/// Several patterns are told as one of which any may match: with `|` between them.
pub proof fn law_patterns_are_alternatives(setting: RegexSetting)
    ensures
        setting is Null ==> setting.source() is None,
        setting matches RegexSetting::Text(text) ==> setting.source() == Some(text@),
        setting matches RegexSetting::List(list) ==> setting.source() is Some,
        setting matches RegexSetting::List(list) ==> (list@.len() == 0 ==> setting.source()->Some_0.len() == 0),
        setting matches RegexSetting::List(list) ==> (list@.len() == 1 ==> setting.source() == Some(list@[0]@)),
        setting matches RegexSetting::List(list) ==> (list@.len() == 2 ==> setting.source() == Some(
            list@[0]@ + "|"@ + list@[1]@,
        )),
{
    reveal_with_fuel(joined, 3);
    if let RegexSetting::List(list) = setting {
        let all = crate::text::texts(list@);
        if list@.len() == 2 {
            assert(all.drop_last()[0] == list@[0]@);
        }
    }
}

/// One path is a list of one.
pub proof fn law_paths(setting: PathSetting, i: int)
    ensures
        setting is Null <==> setting.paths() is None,
        setting matches PathSetting::Text(text) ==> setting.paths() == Some(seq![text@]),
        setting matches PathSetting::List(list) ==> setting.paths()->Some_0.len() == list@.len() && (0 <= i < list@.len()
            ==> setting.paths()->Some_0[i] == list@[i]@),
{
}

/// Texts that are joined keep their order, and have the separator between each and the next, wherever they are parted.
pub proof fn law_joining(one: Seq<Seq<char>>, other: Seq<Seq<char>>, text: Seq<char>, separator: Seq<char>)
    ensures
        joined(seq![], separator).len() == 0,
        joined(seq![text], separator) == text,
        one.len() > 0 && other.len() > 0 ==> joined(one + other, separator) == joined(one, separator) + separator + joined(
            other,
            separator,
        ),
    decreases other.len(),
{
    if one.len() > 0 && other.len() > 0 {
        let rest = other.drop_last();
        assert((one + other).drop_last() =~= one + rest);
        assert((one + other).last() == other.last());
        if other.len() == 1 {
            assert(one + rest =~= one);
        } else {
            law_joining(one, rest, text, separator);
            assert(joined(one + other, separator) =~= joined(one, separator) + separator + joined(other, separator));
        }
    }
}

/// Some texts are told as a JSON array of strings, in their order.
pub proof fn law_json_arrays(list: Seq<Seq<char>>, text: Seq<char>)
    ensures
        json_strings(seq![]) == "[]"@,
        json_strings(seq![text]) == "["@ + json_string(text) + "]"@,
        list.len() > 0 ==> json_strings(list.push(text)) == json_strings(list).drop_last() + ","@ + json_string(text)
            + "]"@,
{
    reveal_strlit("[");
    reveal_strlit("]");
    reveal_strlit("[]");
    let none = Seq::<Seq<char>>::empty();
    let as_json = |t: Seq<char>| json_string(t);
    assert(none.map_values(as_json) =~= seq![]);
    assert(json_strings(none) =~= "[]"@);
    assert(seq![text].map_values(as_json) =~= seq![json_string(text)]);
    assert(list.push(text).map_values(as_json) =~= list.map_values(as_json).push(json_string(text)));
    assert(list.push(text).map_values(as_json).drop_last() =~= list.map_values(as_json));
    if list.len() > 0 {
        let before = joined(list.map_values(as_json), ","@);
        assert(json_strings(list) =~= "["@ + before + "]"@);
        assert(json_strings(list).drop_last() =~= "["@ + before);
        assert(json_strings(list.push(text)) =~= json_strings(list).drop_last() + ","@ + json_string(text) + "]"@);
    }
}

/// Whether a setting is what is told, or as it was where nothing is told.
pub open spec fn is_told(
    result: Map<Seq<char>, Seq<char>>,
    file: Map<Seq<char>, Seq<char>>,
    key: Seq<char>,
    json: Option<Seq<char>>,
) -> bool {
    match json {
        Some(j) => result.contains_key(key) && result[key] == j,
        None => (result.contains_key(key) <==> file.contains_key(key)) && result[key] == file[key],
    }
}

/// Each argument of the command line sets the setting that it is for, in place of what the file says, and no other;
/// one that is not given leaves the file as it is. Publications get timestamps in any case.
#[verifier::rlimit(40)]
pub proof fn law_each_argument_has_its_setting(args: BridgeArgsView, file: Map<Seq<char>, Seq<char>>, other: Seq<char>)
    ensures
        ({
            let result = configured(file, args.edits());
            &&& is_told(
                result,
                file,
                "id"@,
                match args.id {
                    Some(v) => Some(json_string(v)),
                    None => None,
                },
            )
            &&& is_told(
                result,
                file,
                "mode"@,
                match args.mode {
                    Some(v) => Some(json_string(v)),
                    None => None,
                },
            )
            &&& is_told(
                result,
                file,
                "connect/endpoints"@,
                match args.connect {
                    Some(v) => Some(json_strings(v)),
                    None => None,
                },
            )
            &&& is_told(
                result,
                file,
                "listen/endpoints"@,
                match args.listen {
                    Some(v) => Some(json_strings(v)),
                    None => None,
                },
            )
            &&& is_told(
                result,
                file,
                "scouting/multicast/enabled"@,
                if args.no_multicast_scouting {
                    Some("false"@)
                } else {
                    None
                },
            )
            &&& is_told(
                result,
                file,
                "plugins/rest/http_port"@,
                match args.rest_http_port {
                    Some(v) => Some("\""@ + v + "\""@),
                    None => None,
                },
            )
            &&& is_told(
                result,
                file,
                "timestamping/enabled"@,
                Some("true"@),
            )
            &&& is_told(
                result,
                file,
                "plugins/dds/scope"@,
                match args.scope {
                    Some(v) => Some(json_string(v)),
                    None => None,
                },
            )
            &&& is_told(
                result,
                file,
                "plugins/dds/domain"@,
                match args.domain {
                    Some(v) => Some(decimal_text(parsed_u64(v)->Some_0 as nat)),
                    None => None,
                },
            )
            &&& is_told(
                result,
                file,
                "plugins/dds/group_member_id"@,
                match args.group_member_id {
                    Some(v) => Some(json_string(v)),
                    None => None,
                },
            )
            &&& is_told(
                result,
                file,
                "plugins/dds/group_lease"@,
                args.group_lease,
            )
            &&& is_told(
                result,
                file,
                "plugins/dds/allow"@,
                match args.allow {
                    Some(v) => Some(json_strings(v)),
                    None => None,
                },
            )
            &&& is_told(
                result,
                file,
                "plugins/dds/deny"@,
                match args.deny {
                    Some(v) => Some(json_strings(v)),
                    None => None,
                },
            )
            &&& is_told(
                result,
                file,
                "plugins/dds/max_frequencies"@,
                match args.max_frequency {
                    Some(v) => Some(json_strings(v)),
                    None => None,
                },
            )
            &&& is_told(
                result,
                file,
                "plugins/dds/generalise_pubs"@,
                match args.generalise_pub {
                    Some(v) => Some(json_strings(v)),
                    None => None,
                },
            )
            &&& is_told(
                result,
                file,
                "plugins/dds/generalise_subs"@,
                match args.generalise_sub {
                    Some(v) => Some(json_strings(v)),
                    None => None,
                },
            )
            &&& is_told(
                result,
                file,
                "plugins/dds/forward_discovery"@,
                if args.fwd_discovery {
                    Some("true"@)
                } else {
                    None
                },
            )
            &&& is_told(
                result,
                file,
                "plugins/dds/localhost_only"@,
                if args.dds_localhost_only {
                    Some("true"@)
                } else {
                    None
                },
            )
            &&& is_told(
                result,
                file,
                "plugins/dds/shm_enabled"@,
                if args.dds_enable_shm {
                    Some("true"@)
                } else {
                    None
                },
            )
            &&& is_told(
                result,
                file,
                "plugins/dds/queries_timeout"@,
                args.queries_timeout,
            )
            &&& other != "id"@
                && other != "mode"@
                && other != "connect/endpoints"@
                && other != "listen/endpoints"@
                && other != "scouting/multicast/enabled"@
                && other != "plugins/rest/http_port"@
                && other != "timestamping/enabled"@
                && other != "plugins/dds/scope"@
                && other != "plugins/dds/domain"@
                && other != "plugins/dds/group_member_id"@
                && other != "plugins/dds/group_lease"@
                && other != "plugins/dds/allow"@
                && other != "plugins/dds/deny"@
                && other != "plugins/dds/max_frequencies"@
                && other != "plugins/dds/generalise_pubs"@
                && other != "plugins/dds/generalise_subs"@
                && other != "plugins/dds/forward_discovery"@
                && other != "plugins/dds/localhost_only"@
                && other != "plugins/dds/shm_enabled"@
                && other != "plugins/dds/queries_timeout"@ ==> is_told(result, file, other, None)
        }),
{
    let all = args.settings();
    law_arguments_override_the_file(args, file, "id"@);
    assert(all[0].0 == "id"@);
    law_arguments_override_the_file(args, file, "mode"@);
    assert(all[1].0 == "mode"@);
    law_arguments_override_the_file(args, file, "connect/endpoints"@);
    assert(all[2].0 == "connect/endpoints"@);
    law_arguments_override_the_file(args, file, "listen/endpoints"@);
    assert(all[3].0 == "listen/endpoints"@);
    law_arguments_override_the_file(args, file, "scouting/multicast/enabled"@);
    assert(all[4].0 == "scouting/multicast/enabled"@);
    law_arguments_override_the_file(args, file, "plugins/rest/http_port"@);
    assert(all[5].0 == "plugins/rest/http_port"@);
    law_arguments_override_the_file(args, file, "timestamping/enabled"@);
    assert(all[6].0 == "timestamping/enabled"@);
    law_arguments_override_the_file(args, file, "plugins/dds/scope"@);
    assert(all[7].0 == "plugins/dds/scope"@);
    law_arguments_override_the_file(args, file, "plugins/dds/domain"@);
    assert(all[8].0 == "plugins/dds/domain"@);
    law_arguments_override_the_file(args, file, "plugins/dds/group_member_id"@);
    assert(all[9].0 == "plugins/dds/group_member_id"@);
    law_arguments_override_the_file(args, file, "plugins/dds/group_lease"@);
    assert(all[10].0 == "plugins/dds/group_lease"@);
    law_arguments_override_the_file(args, file, "plugins/dds/allow"@);
    assert(all[11].0 == "plugins/dds/allow"@);
    law_arguments_override_the_file(args, file, "plugins/dds/deny"@);
    assert(all[12].0 == "plugins/dds/deny"@);
    law_arguments_override_the_file(args, file, "plugins/dds/max_frequencies"@);
    assert(all[13].0 == "plugins/dds/max_frequencies"@);
    law_arguments_override_the_file(args, file, "plugins/dds/generalise_pubs"@);
    assert(all[14].0 == "plugins/dds/generalise_pubs"@);
    law_arguments_override_the_file(args, file, "plugins/dds/generalise_subs"@);
    assert(all[15].0 == "plugins/dds/generalise_subs"@);
    law_arguments_override_the_file(args, file, "plugins/dds/forward_discovery"@);
    assert(all[16].0 == "plugins/dds/forward_discovery"@);
    law_arguments_override_the_file(args, file, "plugins/dds/localhost_only"@);
    assert(all[17].0 == "plugins/dds/localhost_only"@);
    law_arguments_override_the_file(args, file, "plugins/dds/shm_enabled"@);
    assert(all[18].0 == "plugins/dds/shm_enabled"@);
    law_arguments_override_the_file(args, file, "plugins/dds/queries_timeout"@);
    assert(all[19].0 == "plugins/dds/queries_timeout"@);
    law_arguments_override_the_file(args, file, other);
    assert(all.len() == 20);
}

/// Whether an object has a member with this name and value.
pub open spec fn has_member(json: JsonView, name: Seq<char>, value: JsonView) -> bool {
    json matches JsonView::Object(members) && exists|i: int| 0 <= i < members.len() && members[i] == (name, value)
}

/// What is shown of the settings: each under its name, with what stands for it where it is not set.
pub proof fn law_settings_are_shown(config: ConfigView)
    ensures
        has_member(config.json(), "domain"@, JsonView::Number(config.domain as int)),
        config.scope matches Some(scope) ==> has_member(config.json(), "scope"@, JsonView::Text(scope)),
        config.scope is None ==> has_member(config.json(), "scope"@, JsonView::Null),
        config.allow matches Some(pattern) ==> has_member(config.json(), "allow"@, JsonView::Text(pattern)),
        config.allow is None ==> has_member(config.json(), "allow"@, JsonView::Text(".*"@)),
        config.deny matches Some(pattern) ==> has_member(config.json(), "deny"@, JsonView::Text(pattern)),
        config.deny is None ==> has_member(config.json(), "deny"@, JsonView::Text(""@)),
        has_member(config.json(), "forward_discovery"@, JsonView::Bool(config.forward_discovery)),
        has_member(config.json(), "reliable_routes_blocking"@, JsonView::Bool(config.reliable_routes_blocking)),
        config.json() matches JsonView::Object(members) && members.len() == 7,
        exists|list: Seq<JsonView>| {
            &&& #[trigger] has_member(config.json(), "max-frequencies"@, JsonView::List(list))
            &&& list.len() == config.max_frequencies.len()
            &&& forall|i: int|
                0 <= i < list.len() ==> #[trigger] list[i] == JsonView::Text(
                    config.max_frequencies[i].pattern + "="@ + config.max_frequencies[i].shown,
                )
        },
{
    let members = config.json()->Object_0;
    assert(members[0].0 == "domain"@);
    assert(members[1].0 == "scope"@);
    assert(members[2].0 == "allow"@);
    assert(members[3].0 == "deny"@);
    assert(members[4].0 == "max-frequencies"@);
    assert(members[5].0 == "forward_discovery"@);
    assert(members[6].0 == "reliable_routes_blocking"@);
    let list = config.max_frequencies.map_values(
        |f: MaxFrequencyView| JsonView::Text(f.pattern + "="@ + f.shown),
    );
    assert(members[4] == ("max-frequencies"@, JsonView::List(list)));
    assert(has_member(config.json(), "max-frequencies"@, JsonView::List(list)));
}

/// A maximum frequency is told as `<pattern>=<number>`, parted at the first `=`; the pattern has to be one.
pub proof fn law_frequencies_are_parted(pattern: Seq<char>, number: Seq<char>, text: Seq<char>)
    requires
        !pattern.contains('='),
        !text.contains('='),
    ensures
        first_index(pattern + "="@ + number, "="@) == Some(pattern.len() as int),
        splits(pattern + "="@ + number) <==> regex_error(pattern) is None,
        !splits(text),
        split_failure(text) == "Invalid 'max_frequency': "@ + text,
        regex_error(pattern) matches Some(error) ==> split_failure(pattern + "="@ + number)
            == "Invalid regex for 'max_frequency': '"@ + pattern + "="@ + number + "': "@ + error,
{
    reveal_strlit("=");
    let setting = pattern + "="@ + number;
    let at = pattern.len() as int;
    assert(setting.subrange(at, at + 1) =~= "="@);
    assert(occurs_at(setting, "="@, at));
    assert forall|earlier: int| earlier < at implies !occurs_at(setting, "="@, earlier) by {
        if occurs_at(setting, "="@, earlier) {
            assert(setting.subrange(earlier, earlier + 1)[0] == setting[earlier]);
            assert(setting[earlier] == pattern[earlier]);
            assert(pattern.contains(pattern[earlier]));
        }
    }
    crate::text::lemma_first_index(setting, "="@, at);
    assert(setting.take(at) =~= pattern);
    if occurs(text, "="@) {
        let at = choose|at: int| occurs_at(text, "="@, at);
        assert(text.subrange(at, at + 1)[0] == text[at]);
        assert(text.contains(text[at]));
    }
    if let Some(error) = regex_error(pattern) {
        assert(split_failure(setting) =~= "Invalid regex for 'max_frequency': '"@ + pattern + "="@ + number + "': "@
            + error);
    }
}

/// Why a pattern is not accepted tells the pattern and what is wrong with it.
pub proof fn law_bad_patterns_are_told(source: Seq<char>, error: Seq<char>)
    ensures
        invalid_regex_message(source, error) == "Invalid regex '"@ + source + "': "@ + error,
{
}

/// The command line is refused exactly where a domain is given that is no number of 64 bits.
pub proof fn law_which_arguments_are_refused(args: BridgeArgsView)
    ensures
        args.domain is None ==> args.domain_is_number(),
        args.domain matches Some(text) ==> (args.domain_is_number() <==> parsed(text) is Some && parsed(text)->Some_0
            <= u64::MAX),
{
}

/// The arguments about DDS, in their order. One that is renamed keeps its usage.
pub proof fn law_arguments_about_dds(arg: ExpectedArgView, short: Seq<char>, alias: Seq<char>, i: int)
    ensures
        expected_args().len() == 5,
        "--dds-scope="@.is_prefix_of(expected_args()[0].usage),
        "--dds-generalise-pub="@.is_prefix_of(expected_args()[1].usage),
        "--dds-generalise-sub="@.is_prefix_of(expected_args()[2].usage),
        "--dds-domain="@.is_prefix_of(expected_args()[3].usage),
        "--dds-allow="@.is_prefix_of(expected_args()[4].usage),
        0 <= i < 5 ==> expected_args()[i].short is None && expected_args()[i].visible_alias is None,
        renamed(arg, short, alias).usage == arg.usage,
        renamed(arg, short, alias).short == Some(short),
        renamed(arg, short, alias).visible_alias == Some(alias),
{
    reveal_strlit("--dds-scope=");
    reveal_strlit("--dds-generalise-pub=");
    reveal_strlit("--dds-generalise-sub=");
    reveal_strlit("--dds-domain=");
    reveal_strlit("--dds-allow=");
    reveal_strlit("--dds-scope=[String]   'A string used as prefix to scope DDS traffic.'");
    reveal_strlit(
        "--dds-generalise-pub=[String]...   'A list of key expression to use for generalising publications (usable multiple times).'",
    );
    reveal_strlit(
        "--dds-generalise-sub=[String]...   'A list of key expression to use for generalising subscriptions (usable multiple times).'",
    );
    reveal_strlit(
        "--dds-domain=[ID]   'The DDS Domain ID (if using with ROS this should be the same as ROS_DOMAIN_ID).'",
    );
    reveal_strlit(
        "--dds-allow=[String]   'A regular expression matching the set of 'partition/topic-name' that should be bridged. By default, all partitions and topic are allowed. Examples of expressions: '.*/TopicA', 'Partition-?/.*', 'cmd_vel|rosout'...'",
    );
}

/// What holds where nothing is told: the first domain, discovery that is routed here and not kept to this host,
/// routes of reliable endpoints that block, and five seconds for queries.
pub proof fn law_default_settings()
    ensures
        DEFAULT_DOMAIN == 0,
        !DEFAULT_FORWARD_DISCOVERY,
        DEFAULT_RELIABLE_ROUTES_BLOCKING,
        !DEFAULT_DDS_LOCALHOST_ONLY,
        DEFAULT_QUERIES_TIMEOUT == 5 * 1_000_000_000,
{
}

/// A text is told as a JSON string character by character, between quotes. A quote and a backslash stand behind
/// a backslash, and so does a letter for a backspace, a tab, a line feed, a form feed and a carriage return.
/// Other control characters are told by their numbers, as `\u00` and two digits, and all else stands as it is.
pub proof fn law_json_strings(text: Seq<char>, c: char)
    ensures
        json_string(seq![]) == seq!['"', '"'],
        json_string(text.push(c)) == json_string(text).drop_last() + json_char(c) + seq!['"'],
        json_char('"') == seq!['\\', '"'],
        json_char('\\') == seq!['\\', '\\'],
        json_char('\u{8}') == seq!['\\', 'b'],
        json_char('\t') == seq!['\\', 't'],
        json_char('\n') == seq!['\\', 'n'],
        json_char('\u{c}') == seq!['\\', 'f'],
        json_char('\r') == seq!['\\', 'r'],
        c >= ' ' && c != '"' && c != '\\' ==> json_char(c) == seq![c],
        ' ' > c && json_char(c).len() != 2 ==> {
            &&& json_char(c).take(4) == seq!['\\', 'u', '0', '0']
            &&& json_char(c).len() == 6
            &&& json_char(c)[4] == if c as int >= 16 {
                '1'
            } else {
                '0'
            }
            &&& c as int % 16 <= 9 ==> json_char(c)[5] as int == '0' as int + c as int % 16
            &&& c as int % 16 >= 10 ==> json_char(c)[5] as int == 'a' as int + c as int % 16 - 10
        },
        ' ' > c && json_char(c).len() == 2 ==> c == '\u{8}' || c == '\t' || c == '\n' || c == '\u{c}' || c == '\r',
{
    let as_json = |c: char| json_char(c);
    let none = Seq::<char>::empty();
    assert(none.map_values(as_json) =~= seq![]);
    assert(json_string(none) =~= seq!['"', '"']);
    assert(text.push(c).map_values(as_json) =~= text.map_values(as_json).push(json_char(c)));
    text.map_values(as_json).lemma_flatten_push(json_char(c));
    assert(json_string(text).drop_last() =~= seq!['"'] + text.map_values(as_json).flatten());
    assert(json_string(text.push(c)) =~= json_string(text).drop_last() + json_char(c) + seq!['"']);
}

} // verus!
