//! What QoS, JSON, ids, numbers and texts stand for.
use vstd::prelude::*;

use crate::discoverer::told_of;
use crate::entity::{is_keyless, sampled_entity, EndpointSample};
use crate::gid::{hex_bytes, hex_text, ros_gid_of, ros_gids_of, text_bytes};
use crate::json::{null_qos_removed, without_nulls, JsonView};
use crate::key_expr::{slashed, valid_key_expr};
use crate::number::{parsed, signed_text};
use crate::policies::PoliciesView;
use crate::qos::{
    default_qos, native_of, read_from, reliability_read, DestinationOrderKind, DurabilityKind, HistoryKind,
    LivelinessKind, NativeQosView, OwnershipKind, QosView, Reliability, ReliabilityKind,
};
use crate::qos_helpers::{
    durability_service_or_default, history_or_default, in_partition, no_partition, reader_reliable, transient_local,
    writer_reliable,
};
use crate::qos_holder::{
    deadline_json, destination_order_json, durability_json, holder_json, kind_json, latency_budget_json, liveliness_json,
    ownership_json, reliability_json,
};
use crate::sub_paths::{cuts, first_parts, rest_behind, rests_behind, sub_paths};
use crate::text::{first_at, first_index, occurs, occurs_at, optional_text, optional_texts, texts};

use super::settings::has_member;

verus! {

/// The numbers by which DDS names the kinds of policies.
pub proof fn law_numbers_of_kinds(
    durability: DurabilityKind,
    reliability: ReliabilityKind,
    order: DestinationOrderKind,
    liveliness: LivelinessKind,
    ownership: OwnershipKind,
    history: HistoryKind,
)
    ensures
        durability.number() == 0 <==> durability == DurabilityKind::VOLATILE,
        durability.number() == 1 <==> durability == DurabilityKind::TRANSIENT_LOCAL,
        durability.number() == 2 <==> durability == DurabilityKind::TRANSIENT,
        durability.number() == 3 <==> durability == DurabilityKind::PERSISTENT,
        reliability.number() == 0 <==> reliability == ReliabilityKind::BEST_EFFORT,
        reliability.number() == 1 <==> reliability == ReliabilityKind::RELIABLE,
        order.number() == 0 <==> order == DestinationOrderKind::BY_RECEPTION_TIMESTAMP,
        order.number() == 1 <==> order == DestinationOrderKind::BY_SOURCE_TIMESTAMP,
        liveliness.number() == 0 <==> liveliness == LivelinessKind::AUTOMATIC,
        liveliness.number() == 1 <==> liveliness == LivelinessKind::MANUAL_BY_PARTICIPANT,
        liveliness.number() == 2 <==> liveliness == LivelinessKind::MANUAL_BY_TOPIC,
        ownership.number() == 0 <==> ownership == OwnershipKind::SHARED,
        ownership.number() == 1 <==> ownership == OwnershipKind::EXCLUSIVE,
        history.number() == 0 <==> history == HistoryKind::KEEP_LAST,
        history.number() == 1 <==> history == HistoryKind::KEEP_ALL,
{
}

/// The native QoS for a QoS holds each of its policies, as that policy. Partitions and user data are held where there are any,
/// and that the own participant is ignored where it is.
pub proof fn law_native_qos_holds_each_policy(qos: QosView)
    ensures
        ({
            let native = native_of(qos);
            &&& native.reliability == Some((qos.reliability.kind.number(), qos.reliability.max_blocking_time))
            &&& native.durability == Some(qos.durability.kind.number())
            &&& native.deadline == Some(qos.deadline.period)
            &&& native.latency_budget == Some(qos.latency_budget.duration)
            &&& native.ownership == Some(qos.ownership.kind.number())
            &&& native.liveliness == Some((qos.liveliness.kind.number(), qos.liveliness.lease_duration))
            &&& native.destination_order == Some(qos.destination_order.kind.number())
            &&& native.history == Some((qos.history.kind.number(), qos.history.depth))
            &&& native.durability_service is Some
            &&& native.durability_service->Some_0.service_cleanup_delay == qos.durability_service.service_cleanup_delay
            &&& native.durability_service->Some_0.history_kind == qos.durability_service.history_kind.number()
            &&& native.durability_service->Some_0.history_depth == qos.durability_service.history_depth
            &&& native.durability_service->Some_0.max_samples == qos.durability_service.max_samples
            &&& native.durability_service->Some_0.max_instances == qos.durability_service.max_instances
            &&& native.durability_service->Some_0.max_samples_per_instance
                == qos.durability_service.max_samples_per_instance
            &&& native.partitions is Some <==> qos.partitions.len() > 0
            &&& qos.partitions.len() > 0 ==> native.partitions == Some(qos.partitions)
            &&& native.userdata is Some <==> qos.userdata.len() > 0
            &&& qos.userdata.len() > 0 ==> native.userdata == Some(qos.userdata)
            &&& qos.ignore_local_participant ==> native.ignore_local == Some(1u32)
            &&& !qos.ignore_local_participant ==> native.ignore_local is None
        }),
{
}

/// What is read from a native QoS that holds nothing are the defaults of DDS: nothing is kept for late readers,
/// nothing is late, the last sample counts. A reader is best effort, and a writer reliable,
/// as is told where they are read.
pub proof fn law_defaults_of_dds(read: QosView, otherwise: ReliabilityKind)
    requires
        read_from(read, NativeQosView::none(), read.reliability),
        reliability_read(read.reliability, NativeQosView::none(), otherwise),
    ensures
        read.durability.kind == DurabilityKind::VOLATILE,
        read.reliability == (Reliability { kind: otherwise, max_blocking_time: 100_000_000 }),
        read.deadline.period == i64::MAX,
        read.latency_budget.duration == 0,
        read.ownership.kind == OwnershipKind::SHARED,
        read.liveliness.kind == LivelinessKind::AUTOMATIC,
        read.liveliness.lease_duration == i64::MAX,
        read.destination_order.kind == DestinationOrderKind::BY_RECEPTION_TIMESTAMP,
        read.history.kind == HistoryKind::KEEP_LAST,
        read.history.depth == 1,
        read.durability_service.service_cleanup_delay == 0,
        read.durability_service.history_kind == HistoryKind::KEEP_LAST,
        read.durability_service.history_depth == 1,
        read.durability_service.max_samples == i32::MAX,
        read.durability_service.max_instances == i32::MAX,
        read.durability_service.max_samples_per_instance == i32::MAX,
        read.partitions.len() == 0,
        read.userdata.len() == 0,
        !read.ignore_local_participant,
        otherwise == ReliabilityKind::BEST_EFFORT ==> read == default_qos(),
{
}

/// What is read from a native QoS is each policy that it holds, as that policy.
pub proof fn law_what_is_read(read: QosView, native: NativeQosView, otherwise: ReliabilityKind)
    requires
        read_from(read, native, read.reliability),
        reliability_read(read.reliability, native, otherwise),
    ensures
        native.reliability matches Some((kind, time)) ==> read.reliability.kind.number() == kind
            && read.reliability.max_blocking_time == time,
        native.durability matches Some(kind) ==> read.durability.kind.number() == kind,
        native.deadline matches Some(period) ==> read.deadline.period == period,
        native.latency_budget matches Some(duration) ==> read.latency_budget.duration == duration,
        native.ownership matches Some(kind) ==> read.ownership.kind.number() == kind,
        native.liveliness matches Some((kind, lease)) ==> read.liveliness.kind.number() == kind
            && read.liveliness.lease_duration == lease,
        native.destination_order matches Some(kind) ==> read.destination_order.kind.number() == kind,
        native.history matches Some((kind, depth)) ==> read.history.kind.number() == kind && read.history.depth == depth,
        native.partitions matches Some(list) ==> read.partitions == list,
        native.userdata matches Some(bytes) ==> read.userdata == bytes,
        native.durability_service matches Some(service) ==> {
            &&& read.durability_service.service_cleanup_delay == service.service_cleanup_delay
            &&& read.durability_service.history_kind.number() == service.history_kind
            &&& read.durability_service.history_depth == service.history_depth
            &&& read.durability_service.max_samples == service.max_samples
            &&& read.durability_service.max_instances == service.max_instances
            &&& read.durability_service.max_samples_per_instance == service.max_samples_per_instance
        },
{
}

/// A kind is shown by its name, and one that has none by its number.
pub proof fn law_kinds_are_shown(names: Seq<Seq<char>>, kind: u32)
    ensures
        kind < names.len() ==> kind_json(names, kind) == JsonView::Text(names[kind as int]),
        kind >= names.len() ==> kind_json(names, kind) == JsonView::Number(kind as int),
{
}

/// How a native QoS is shown: each policy under its name, as that policy.
pub proof fn law_native_qos_is_shown(qos: NativeQosView)
    ensures
        has_member(holder_json(qos), "durability"@, durability_json(qos.durability)),
        has_member(holder_json(qos), "reliability"@, reliability_json(qos.reliability)),
        has_member(holder_json(qos), "deadline"@, deadline_json(qos.deadline)),
        has_member(holder_json(qos), "latency_budget"@, latency_budget_json(qos.latency_budget)),
        has_member(holder_json(qos), "ownership"@, ownership_json(qos.ownership)),
        has_member(holder_json(qos), "liveliness"@, liveliness_json(qos.liveliness)),
        has_member(holder_json(qos), "destination_order"@, destination_order_json(qos.destination_order)),
        holder_json(qos) matches JsonView::Object(members) && members.len() == 7,
{
    let members = holder_json(qos)->Object_0;
    assert(members[0].0 == "durability"@);
    assert(members[1].0 == "reliability"@);
    assert(members[2].0 == "deadline"@);
    assert(members[3].0 == "latency_budget"@);
    assert(members[4].0 == "ownership"@);
    assert(members[5].0 == "liveliness"@);
    assert(members[6].0 == "destination_order"@);
}

/// How a policy is shown: its kind by name, and its times as they are. A deadline that is not known never comes, a latency
/// budget that is not known is zero, and of any other policy that is not known it is told that it could not be had.
pub proof fn law_policies_are_shown(kind: u32, time: i64)
    ensures
        ({
            let shown = durability_json(Some(kind));
            &&& kind == 0 ==> has_member(shown, "kind"@, JsonView::Text("VOLATILE"@))
            &&& kind == 1 ==> has_member(shown, "kind"@, JsonView::Text("TRANSIENT_LOCAL"@))
            &&& kind == 2 ==> has_member(shown, "kind"@, JsonView::Text("TRANSIENT"@))
            &&& kind == 3 ==> has_member(shown, "kind"@, JsonView::Text("PERSISTENT"@))
            &&& kind > 3 ==> has_member(shown, "kind"@, JsonView::Number(kind as int))
        }),
        ({
            let shown = reliability_json(Some((kind, time)));
            &&& kind == 0 ==> has_member(shown, "kind"@, JsonView::Text("BEST_EFFORT"@))
            &&& kind == 1 ==> has_member(shown, "kind"@, JsonView::Text("RELIABLE"@))
            &&& kind > 1 ==> has_member(shown, "kind"@, JsonView::Number(kind as int))
            &&& has_member(shown, "max_blocking_time"@, JsonView::Number(time as int))
        }),
        ({
            let shown = ownership_json(Some(kind));
            &&& kind == 0 ==> has_member(shown, "kind"@, JsonView::Text("SHARED"@))
            &&& kind == 1 ==> has_member(shown, "kind"@, JsonView::Text("EXCLUSIVE"@))
            &&& kind > 1 ==> has_member(shown, "kind"@, JsonView::Number(kind as int))
        }),
        ({
            let shown = liveliness_json(Some((kind, time)));
            &&& kind == 0 ==> has_member(shown, "kind"@, JsonView::Text("AUTOMATIC"@))
            &&& kind == 1 ==> has_member(shown, "kind"@, JsonView::Text("MANUAL_BY_PARTICIPANT"@))
            &&& kind == 2 ==> has_member(shown, "kind"@, JsonView::Text("MANUAL_BY_TOPIC"@))
            &&& kind > 2 ==> has_member(shown, "kind"@, JsonView::Number(kind as int))
            &&& has_member(shown, "lease_duration"@, JsonView::Number(time as int))
        }),
        ({
            let shown = destination_order_json(Some(kind));
            &&& kind == 0 ==> has_member(shown, "kind"@, JsonView::Text("BY_RECEPTION_TIMESTAMP"@))
            &&& kind == 1 ==> has_member(shown, "kind"@, JsonView::Text("BY_SOURCE_TIMESTAMP"@))
            &&& kind > 1 ==> has_member(shown, "kind"@, JsonView::Number(kind as int))
        }),
        has_member(deadline_json(Some(time)), "period"@, JsonView::Number(time as int)),
        has_member(deadline_json(None), "period"@, JsonView::Number(i64::MAX as int)),
        has_member(latency_budget_json(Some(time)), "duration"@, JsonView::Number(time as int)),
        has_member(latency_budget_json(None), "duration"@, JsonView::Number(0)),
        durability_json(None) == JsonView::Text("FAILED TO RETRIEVE"@),
        reliability_json(None) == JsonView::Text("FAILED TO RETRIEVE"@),
        ownership_json(None) == JsonView::Text("FAILED TO RETRIEVE"@),
        liveliness_json(None) == JsonView::Text("FAILED TO RETRIEVE"@),
        destination_order_json(None) == JsonView::Text("FAILED TO RETRIEVE"@),
{
    assert(durability_json(Some(kind))->Object_0[0].0 == "kind"@);
    assert(reliability_json(Some((kind, time)))->Object_0[0].0 == "kind"@);
    assert(reliability_json(Some((kind, time)))->Object_0[1].0 == "max_blocking_time"@);
    assert(ownership_json(Some(kind))->Object_0[0].0 == "kind"@);
    assert(liveliness_json(Some((kind, time)))->Object_0[0].0 == "kind"@);
    assert(liveliness_json(Some((kind, time)))->Object_0[1].0 == "lease_duration"@);
    assert(destination_order_json(Some(kind))->Object_0[0].0 == "kind"@);
    assert(deadline_json(Some(time))->Object_0[0].0 == "period"@);
    assert(deadline_json(None)->Object_0[0].0 == "period"@);
    assert(latency_budget_json(Some(time))->Object_0[0].0 == "duration"@);
    assert(latency_budget_json(None)->Object_0[0].0 == "duration"@);
}

/// Of members in a row the null ones are left out of each part, and a member that is not null stays.
pub proof fn law_nulls_are_left_out(
    one: Seq<(Seq<char>, JsonView)>,
    other: Seq<(Seq<char>, JsonView)>,
    name: Seq<char>,
    value: JsonView,
)
    ensures
        without_nulls(one + other) == without_nulls(one) + without_nulls(other),
        value is Null ==> without_nulls(seq![(name, value)]).len() == 0,
        value !is Null ==> without_nulls(seq![(name, value)]) == seq![(name, value)],
{
    Seq::filter_distributes_over_add(one, other, |m: (Seq<char>, JsonView)| m.1 !is Null);
    reveal_with_fuel(Seq::filter, 2);
    let single = seq![(name, value)];
    assert(single.drop_last() =~= Seq::<(Seq<char>, JsonView)>::empty());
    if value !is Null {
        assert(without_nulls(single) =~= single);
    }
}

/// Only the member `qos` of an object loses its null members; all other members, and all other values, are as they were.
pub proof fn law_only_qos_loses_nulls(members: Seq<(Seq<char>, JsonView)>, value: JsonView, i: int)
    requires
        0 <= i < members.len(),
    ensures
        null_qos_removed(JsonView::Object(members)) matches JsonView::Object(cleaned) && {
            &&& cleaned.len() == members.len()
            &&& cleaned[i].0 == members[i].0
            &&& members[i].0 != "qos"@ ==> cleaned[i].1 == members[i].1
            &&& members[i].1 !is Object ==> cleaned[i].1 == members[i].1
            &&& members[i].0 == "qos"@ ==> (members[i].1 matches JsonView::Object(inner) ==> cleaned[i].1
                == JsonView::Object(without_nulls(inner)))
        },
        value !is Object ==> null_qos_removed(value) == value,
{
}

/// An id is written with two digits for each byte, the higher first, in lower case.
pub proof fn law_digits_of_ids(bytes: Seq<u8>, i: int)
    requires
        0 <= i < bytes.len(),
    ensures
        hex_text(bytes).len() == 2 * bytes.len(),
        ({
            let high = hex_text(bytes)[2 * i];
            let low = hex_text(bytes)[2 * i + 1];
            &&& ('0' <= high <= '9' && high as int - '0' as int == bytes[i] as int / 16) || ('a' <= high <= 'f' && high as int
                - 'a' as int + 10 == bytes[i] as int / 16)
            &&& ('0' <= low <= '9' && low as int - '0' as int == bytes[i] as int % 16) || ('a' <= low <= 'f' && low as int
                - 'a' as int + 10 == bytes[i] as int % 16)
        }),
{
    let text = hex_text(bytes);
    assert((2 * i) % 2 == 0 && (2 * i) / 2 == i);
    assert((2 * i + 1) % 2 == 1 && (2 * i + 1) / 2 == i);
}

/// In the messages of ROS an id has 24 bytes: its own first, and zeros behind them.
pub proof fn law_ids_in_messages(bytes: Seq<u8>, i: int)
    ensures
        ros_gid_of(bytes).len() == 24,
        0 <= i < 24 && i < bytes.len() ==> ros_gid_of(bytes)[i] == bytes[i],
        0 <= i < 24 && i >= bytes.len() ==> ros_gid_of(bytes)[i] == 0,
{
}

/// A number is read digit by digit, behind a `+` or not. A text with anything else is none.
pub proof fn law_numbers_are_read(text: Seq<char>, digit: char, at: int)
    ensures
        '0' <= digit <= '9' ==> parsed(seq![digit]) == Some((digit as int - '0' as int) as nat),
        '0' <= digit <= '9' && parsed(text) is Some ==> parsed(text.push(digit)) == Some(
            (10 * parsed(text)->Some_0 + (digit as int - '0' as int)) as nat,
        ),
        text.len() > 0 && '0' <= text[0] <= '9' ==> parsed(seq!['+'] + text) == parsed(text),
        0 < at < text.len() && !('0' <= text[at] <= '9') ==> parsed(text) is None,
        parsed(seq![]) is None,
{
    let single = seq![digit];
    reveal_with_fuel(crate::number::decimal_value, 2);
    assert(single.drop_last() =~= seq![]);
    if '0' <= digit <= '9' && parsed(text) is Some {
        let more = text.push(digit);
        if text[0] == '+' {
            assert(more.skip(1) =~= text.skip(1).push(digit));
            assert(more.skip(1).drop_last() =~= text.skip(1));
        } else {
            assert(more.drop_last() =~= text);
        }
    }
    if text.len() > 0 && '0' <= text[0] <= '9' {
        assert((seq!['+'] + text).skip(1) =~= text);
    }
    if 0 < at < text.len() && !('0' <= text[at] <= '9') {
        if text[0] == '+' {
            assert(text.skip(1)[at - 1] == text[at]);
        }
    }
}

/// A negative number is written as its opposite behind a `-`.
pub proof fn law_negative_numbers(n: nat)
    requires
        n > 0,
    ensures
        signed_text(-n) == "-"@ + signed_text(n as int),
        parsed(signed_text(n as int)) == Some(n),
{
    reveal_strlit("-");
    assert(signed_text(-n) =~= "-"@ + signed_text(n as int));
    lemma_written(n);
}

proof fn lemma_written(n: nat)
    ensures
        parsed(crate::number::decimal_text(n)) == Some(n),
    decreases n,
{
    let text = crate::number::decimal_text(n);
    if n < 10 {
        law_numbers_are_read(text, crate::number::digit_char(n as int), 0);
    } else {
        lemma_written(n / 10);
        law_numbers_are_read(crate::number::decimal_text(n / 10), crate::number::digit_char((n % 10) as int), 0);
    }
}

/// A text stands in another exactly where that is made of something, the text, and something.
pub proof fn law_standing_in(before: Seq<char>, pattern: Seq<char>, after: Seq<char>, text: Seq<char>)
    ensures
        occurs(before + pattern + after, pattern),
        occurs(text, pattern) ==> exists|a: Seq<char>, b: Seq<char>| text == #[trigger] (a + pattern + b),
{
    let made = before + pattern + after;
    let at = before.len() as int;
    assert(made.subrange(at, at + pattern.len()) =~= pattern);
    assert(occurs_at(made, pattern, at));
    if occurs(text, pattern) {
        let at = choose|at: int| occurs_at(text, pattern, at);
        let a = text.take(at);
        let b = text.skip(at + pattern.len());
        assert(text =~= a + text.subrange(at, at + pattern.len()) + b);
        assert(text == a + pattern + b);
    }
}

/// The first place where a text stands is one where it stands, and it stands nowhere before.
pub proof fn law_first_place(text: Seq<char>, pattern: Seq<char>, earlier: int)
    ensures
        first_index(text, pattern) is Some <==> occurs(text, pattern),
        first_index(text, pattern) matches Some(at) ==> {
            &&& 0 <= at
            &&& at + pattern.len() <= text.len()
            &&& text == text.take(at) + pattern + text.skip(at + pattern.len())
            &&& 0 <= earlier < at ==> text.subrange(earlier, earlier + pattern.len()) != pattern
        },
{
    crate::text::lemma_index_occurs(text, pattern);
    if let Some(at) = first_index(text, pattern) {
        assert(text =~= text.take(at) + text.subrange(at, at + pattern.len()) + text.skip(at + pattern.len()));
        assert(first_at(text, pattern, at));
        if 0 <= earlier < at {
            assert(!occurs_at(text, pattern, earlier));
        }
    }
}

/// A key expression has no empty chunk and holds neither `#` nor `?`. A text of other characters than
/// these, `$` and `*` is one, where it has no empty chunk. One behind another and a `/` is `<left>/<right>`.
pub proof fn law_key_expressions(text: Seq<char>, left: Seq<char>, right: Seq<char>, i: int)
    ensures
        valid_key_expr(text) ==> text.len() > 0 && text[0] != '/' && text.last() != '/',
        valid_key_expr(text) && 0 <= i < text.len() ==> text[i] != '#' && text[i] != '?',
        valid_key_expr(text) && 0 <= i < text.len() - 1 && text[i] == '/' ==> text[i + 1] != '/',
        valid_key_expr(text) && 0 <= i < text.len() && text[i] == '$' ==> i + 1 < text.len() && text[i + 1] == '*',
        slashed(left, right) == left + "/"@ + right,
{
    reveal_strlit("/");
    assert(slashed(left, right) =~= left + "/"@ + right);
    if valid_key_expr(text) {
        assert(crate::key_expr::fits(text, 0));
        assert(crate::key_expr::fits(text, text.len() - 1));
        if 0 <= i < text.len() {
            assert(crate::key_expr::fits(text, i));
        }
    }
}

/// A text without `#`, `?`, `$` and `*` is a key expression where no chunk is empty.
pub proof fn law_plain_texts_are_key_expressions(text: Seq<char>)
    requires
        text.len() > 0,
        text[0] != '/',
        text.last() != '/',
        forall|i: int|
            0 <= i < text.len() ==> #[trigger] text[i] != '#' && text[i] != '?' && text[i] != '$' && text[i] != '*',
        forall|i: int, j: int| 0 <= i && j == i + 1 && j < text.len() && #[trigger] text[i] == '/' ==> #[trigger] text[j] != '/',
    ensures
        valid_key_expr(text),
{
    assert forall|at: int| 0 <= at < text.len() implies #[trigger] crate::key_expr::fits(text, at) by {
        if text[at] == '/' {
            assert(at + 1 < text.len());
            assert(text[at + 1] != '/');
        }
    }
}

/// What is told of an endpoint: once for each of its partitions, in order, or once without one, with its topic,
/// and as what it is.
pub proof fn law_endpoints_are_told_by_partition(
    is_publication: bool,
    alive: bool,
    name: Seq<char>,
    partitions: Seq<Seq<char>>,
    i: int,
)
    ensures
        ({
            let told = told_of(is_publication, alive, name, partitions);
            &&& partitions.len() == 0 ==> told.len() == 1 && told[0].partition is None
            &&& partitions.len() > 0 ==> told.len() == partitions.len()
            &&& 0 <= i < partitions.len() ==> told[i].partition == Some(partitions[i])
            &&& 0 <= i < told.len() ==> told[i].is_publication == is_publication && told[i].alive == alive && told[i].name
                == name
        }),
{
}

/// What a sample tells of an endpoint: the keys are the bytes in hexadecimal, the names and the QoS are its own, it has no keys
/// where the last byte of its key is 3 or 4, and nothing is routed yet.
pub proof fn law_discovered_endpoints(sample: EndpointSample, topic_name: Seq<char>, topic_type: Seq<char>)
    ensures
        ({
            let e = sampled_entity(sample, topic_name, topic_type);
            &&& e.key == hex_text(sample.key@)
            &&& e.participant_key == hex_text(sample.participant_key@)
            &&& e.topic_name == topic_name
            &&& e.topic_type == topic_type
            &&& e.keyless <==> sample.key@[15] == 3 || sample.key@[15] == 4
            &&& e.qos == sample.qos@
            &&& e.routes.dom() == Set::<Seq<char>>::empty()
        }),
        is_keyless(sample.key@) <==> sample.key@[15] == 3 || sample.key@[15] == 4,
{
}

proof fn lemma_cuts_before(path: Seq<char>, end: int, at: int)
    requires
        0 <= end <= path.len(),
    ensures
        crate::sub_paths::cuts_before(path, end).contains(at) <==> 0 <= at < end && (path[at] == '/' || (at == path.len() - 1
            && path[at] <= '\u{7f}')),
        forall|i: int, j: int|
            0 <= i < j < crate::sub_paths::cuts_before(path, end).len() ==> #[trigger] crate::sub_paths::cuts_before(
                path,
                end,
            )[i] > #[trigger] crate::sub_paths::cuts_before(path, end)[j],
        forall|i: int|
            0 <= i < crate::sub_paths::cuts_before(path, end).len() ==> 0 <= #[trigger] crate::sub_paths::cuts_before(
                path,
                end,
            )[i] < end,
    decreases end,
{
    if end > 0 {
        lemma_cuts_before(path, end - 1, at);
        let rest = crate::sub_paths::cuts_before(path, end - 1);
        let all = crate::sub_paths::cuts_before(path, end);
        if crate::sub_paths::is_cut(path, end - 1) {
            assert(all =~= seq![end - 1] + rest);
            assert(all[0] == end - 1);
            if rest.contains(at) {
                let k = choose|k: int| 0 <= k < rest.len() && rest[k] == at;
                assert(all[k + 1] == at);
            }
            if all.contains(at) && at != end - 1 {
                let k = choose|k: int| 0 <= k < all.len() && all[k] == at;
                assert(rest[k - 1] == at);
            }
            assert forall|i: int, j: int| 0 <= i < j < all.len() implies #[trigger] all[i] > #[trigger] all[j] by {
                assert(all[j] == rest[j - 1]);
                if i > 0 {
                    assert(all[i] == rest[i - 1]);
                }
            }
            assert forall|i: int| 0 <= i < all.len() implies 0 <= #[trigger] all[i] < end by {
                if i > 0 {
                    assert(all[i] == rest[i - 1]);
                }
            }
        }
    }
}

/// The first parts of a path are those up to a `/`, and the whole path where it ends in an ASCII character:
/// all of them, the longest first.
pub proof fn law_first_parts_of_a_path(path: Seq<char>, at: int, i: int, j: int)
    ensures
        first_parts(path).len() == cuts(path).len(),
        cuts(path).contains(at) <==> 0 <= at < path.len() && (path[at] == '/' || (at == path.len() - 1 && path[at]
            <= '\u{7f}')),
        0 <= i < cuts(path).len() ==> 0 <= cuts(path)[i] < path.len() && first_parts(path)[i] == path.take(
            cuts(path)[i] + 1,
        ),
        0 <= i < j < cuts(path).len() ==> cuts(path)[i] > cuts(path)[j],
{
    lemma_cuts_before(path, path.len() as int, at);
}

/// What goes on behind a first part of a path is the rest of it. Where the part ends in `**`, with or without a `/`,
/// that goes on too, for it may match more.
pub proof fn law_rest_of_a_path(path: Seq<char>, at: int)
    requires
        0 <= at < path.len(),
    ensures
        ({
            let part = path.take(at + 1);
            let rest = rest_behind(path, at);
            &&& !"**/"@.is_suffix_of(part) && !"**"@.is_suffix_of(part) ==> path == part + rest
            &&& "**/"@.is_suffix_of(part) ==> "**/"@.is_prefix_of(rest) && path == path.take(at - 2) + rest
            &&& "**"@.is_suffix_of(part) ==> "**"@.is_prefix_of(rest) && path == path.take(at - 1) + rest
        }),
{
    reveal_strlit("**/");
    reveal_strlit("**");
    let part = path.take(at + 1);
    let rest = rest_behind(path, at);
    if "**/"@.is_suffix_of(part) {
        assert(part.last() == '/') by {
            assert(part.subrange(part.len() - 3, part.len() as int) =~= "**/"@);
            assert(part.subrange(part.len() - 3, part.len() as int)[2] == part[at]);
        }
        assert(!"**"@.is_suffix_of(part)) by {
            if "**"@.is_suffix_of(part) {
                assert(part.subrange(part.len() - 2, part.len() as int)[1] == part[at]);
                assert("**"@[1] == '*');
            }
        }
        assert(path =~= path.take(at - 2) + rest);
        assert(rest.take(3) =~= part.subrange(part.len() - 3, part.len() as int));
    } else if "**"@.is_suffix_of(part) {
        assert(path =~= path.take(at - 1) + rest);
        assert(rest.take(2) =~= part.subrange(part.len() - 2, part.len() as int));
    } else {
        assert(path =~= part + rest);
    }
}

/// What follows a prefix in the paths that a path matches. Of a path that begins with the prefix, the rest.
/// Else what goes on behind the first parts that match the prefix, and nothing more, or `**` where that is among it,
/// which covers all.
pub proof fn law_sub_paths(path: Seq<char>, prefix: Seq<char>, matching: Seq<bool>, rest: Seq<char>, k: int)
    requires
        matching.len() == cuts(path).len(),
    ensures
        sub_paths(prefix + rest, prefix, matching) == seq![rest],
        !prefix.is_prefix_of(path) && 0 <= k < matching.len() && matching[k] ==> sub_paths(path, prefix, matching).contains(
            rest_behind(path, cuts(path)[k]),
        ) || sub_paths(path, prefix, matching) == seq!["**"@],
        !prefix.is_prefix_of(path) && sub_paths(path, prefix, matching).contains(rest) ==> exists|n: int|
            0 <= n < matching.len() && matching[n] && rest == #[trigger] rest_behind(path, cuts(path)[n]),
        !prefix.is_prefix_of(path) && (forall|n: int| 0 <= n < matching.len() ==> !#[trigger] matching[n]) ==> sub_paths(
            path,
            prefix,
            matching,
        ).len() == 0,
{
    let whole = prefix + rest;
    assert(prefix.is_prefix_of(whole)) by {
        assert(whole.take(prefix.len() as int) =~= prefix);
    }
    assert(whole.skip(prefix.len() as int) =~= rest);
    let n = cuts(path).len() as int;
    lemma_rests(path, matching, n, k, rest);
    lemma_rests(path, matching, n, k, "**"@);
    if !prefix.is_prefix_of(path) && rests_behind(path, matching, n).contains("**"@) {
        assert(sub_paths(path, prefix, matching) == seq!["**"@]);
    }
}

proof fn lemma_rests(path: Seq<char>, matching: Seq<bool>, n: int, k: int, rest: Seq<char>)
    requires
        0 <= n <= matching.len(),
    ensures
        0 <= k < n && matching[k] ==> rests_behind(path, matching, n).contains(rest_behind(path, cuts(path)[k])),
        rests_behind(path, matching, n).contains(rest) ==> exists|m: int|
            0 <= m < n && matching[m] && rest == #[trigger] rest_behind(path, cuts(path)[m]),
        (forall|m: int| 0 <= m < n ==> !#[trigger] matching[m]) ==> rests_behind(path, matching, n).len() == 0,
    decreases n,
{
    if n > 0 {
        lemma_rests(path, matching, n - 1, k, rest);
        let before = rests_behind(path, matching, n - 1);
        let all = rests_behind(path, matching, n);
        if matching[n - 1] {
            let last = rest_behind(path, cuts(path)[n - 1]);
            assert(all == before.push(last));
            assert(all[before.len() as int] == last);
            if 0 <= k < n - 1 && matching[k] {
                let at = choose|at: int| 0 <= at < before.len() && before[at] == rest_behind(path, cuts(path)[k]);
                assert(all[at] == before[at]);
            }
            if all.contains(rest) {
                let at = choose|at: int| 0 <= at < all.len() && all[at] == rest;
                if at < before.len() {
                    assert(before[at] == rest);
                } else {
                    assert(rest == last);
                }
            }
        }
    }
}

/// Every QoS can be read again from the native one that is made of it, and so can one that holds nothing.
pub proof fn law_what_is_written_can_be_read(qos: QosView)
    ensures
        native_of(qos).kinds_known(),
        native_of(qos).reliability_known(),
        NativeQosView::none().kinds_known(),
        NativeQosView::none().reliability_known(),
{
}

/// The texts of a list are those of its strings, in order, and what is not there has no text.
pub proof fn law_texts(strings: Seq<String>, list: Vec<String>, string: String, i: int)
    ensures
        texts(strings).len() == strings.len(),
        0 <= i < strings.len() ==> texts(strings)[i] == strings[i]@,
        optional_text(None) is None,
        optional_text(Some(string)) == Some(string@),
        optional_texts(None) is None,
        optional_texts(Some(list)) == Some(texts(list@)),
{
}

/// The names and numbers that DDS, ROS and the other bridges go by.
pub proof fn law_names_that_others_know()
    ensures
        crate::keys::KE_PREFIX_LIVELINESS_GROUP@ == "zenoh-plugin-dds"@,
        crate::config::ROS_DISCOVERY_INFO_TOPIC_NAME@ == "ros_discovery_info"@,
        crate::ros_discovery::ROS_DISCOVERY_INFO_TOPIC_TYPE@ == "rmw_dds_common::msg::dds_::ParticipantEntitiesInfo_"@,
        crate::ros_discovery::ROS_DISCOVERY_INFO_POLL_INTERVAL_MS == 500,
        crate::dds_mgt::DDS_RETCODE_OK == 0,
        crate::dds_mgt::DDS_RETCODE_ALREADY_DELETED == -9,
        crate::gid::DDS_GID_LEN == 16,
        crate::routes::DDS_ENTITY_NULL == 0,
        crate::routes::DELIVERY_RETRIES * crate::routes::DELIVERY_RETRY_PERIOD_MS == 2900,
        crate::routes::DELIVERY_RETRY_PERIOD_MS == 100,
{
}

/// A list of ids stands in a message of ROS in its order, each by the bytes that its digits stand for.
pub proof fn law_lists_of_ids_in_messages(gids: Seq<Seq<char>>, i: int)
    ensures
        ros_gids_of(gids).len() == gids.len(),
        0 <= i < gids.len() ==> ros_gids_of(gids)[i] == ros_gid_of(hex_bytes(text_bytes(gids[i]))),
{
}

/// What is told of the history, the durability service, the reliability and the partitions counts. Where nothing is told,
/// the last sample is kept, there are no limits, a writer is reliable and a reader is not, and there is no partition.
pub proof fn law_what_counts_where_nothing_is_told(qos: PoliciesView, name: Seq<char>)
    ensures
        qos.history is Some ==> history_or_default(qos) == qos.history->Some_0,
        qos.history is None ==> history_or_default(qos).kind == HistoryKind::KEEP_LAST && history_or_default(qos).depth
            == 1,
        qos.durability_service is Some ==> durability_service_or_default(qos) == qos.durability_service->Some_0,
        qos.durability_service is None ==> {
            let service = durability_service_or_default(qos);
            &&& service.service_cleanup_delay == 0
            &&& service.history_kind == HistoryKind::KEEP_LAST
            &&& service.history_depth == 1
            &&& service.max_samples == -1
            &&& service.max_instances == -1
            &&& service.max_samples_per_instance == -1
        },
        transient_local(qos) <==> qos.durability is Some && qos.durability->Some_0.kind
            == DurabilityKind::TRANSIENT_LOCAL,
        writer_reliable(qos.reliability) <==> (qos.reliability is Some ==> qos.reliability->Some_0.kind
            == ReliabilityKind::RELIABLE),
        reader_reliable(qos.reliability) <==> qos.reliability is Some && qos.reliability->Some_0.kind
            == ReliabilityKind::RELIABLE,
        no_partition(qos.partition) <==> (qos.partition is Some ==> qos.partition->Some_0.len() == 0),
        in_partition(qos.partition, name) <==> qos.partition is Some && qos.partition->Some_0.contains(name),
{
}

} // verus!
