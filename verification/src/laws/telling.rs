//! What a bridge does with what it is told, and what it tells: other bridges, and those who ask.
use vstd::prelude::*;

use crate::admin::{version_text, AdminReply, AdminValueView};
use crate::discovery::{forwarded_on, lists_queries, ForwardedView, HistoricalQuery};
use crate::entity::{DiscoveryEvent, EntityView};
use crate::key_expr::{key_exprs_intersect, literal, slashed, stripped_literal, valid_key_expr};
use crate::keys::{
    admin_prefix_text, fwd_head, fwd_key_parts, fwd_prefix_text, last_chunk, law_fwd_key_round_trip, pub_cache_text,
    scope_names_no_kind, FwdKind,
};
use crate::modes::{told_on, ForwardStep, LocalStep, RemoteStep};
use crate::queries::{ConsolidationMode, QueryTarget, ReplyKeyExpr};
use crate::runtime::{
    entity_admin_text, participant_admin_text, route_from_admin_text, route_to_admin_text, AdminRefView, RuntimeView,
};
use crate::text::{first_index, occurs, occurs_at};

verus! {

/// Where things stand: the admin space of a bridge under `@/service/<id>/dds`, forwarded discovery
/// under `@/<id>/@dds_fwd_disco`, behind which the scope follows, and cached publications under `@/<id>/@dds_pub_cache`.
pub proof fn law_key_spaces(id: Seq<char>, scope: Seq<char>, route: Seq<char>)
    ensures
        admin_prefix_text(id) == "@/service/"@ + id + "/dds"@,
        fwd_prefix_text(id, None) == "@/"@ + id + "/@dds_fwd_disco"@,
        fwd_prefix_text(id, Some(scope)) == "@/"@ + id + "/@dds_fwd_disco/"@ + scope,
        pub_cache_text(id, route) == "@/"@ + id + "/@dds_pub_cache/"@ + route,
{
    reveal_strlit("@");
    reveal_strlit("@/");
    reveal_strlit("@/service");
    reveal_strlit("@/service/");
    reveal_strlit("dds");
    reveal_strlit("/dds");
    reveal_strlit("@dds_fwd_disco");
    reveal_strlit("/@dds_fwd_disco");
    reveal_strlit("/@dds_fwd_disco/");
    reveal_strlit("@dds_pub_cache");
    reveal_strlit("/@dds_pub_cache/");
    assert(admin_prefix_text(id) =~= "@/service/"@ + id + "/dds"@);
    assert(fwd_prefix_text(id, None) =~= "@/"@ + id + "/@dds_fwd_disco"@);
    assert(fwd_prefix_text(id, Some(scope)) =~= "@/"@ + id + "/@dds_fwd_disco/"@ + scope);
    assert(pub_cache_text(id, route) =~= "@/"@ + id + "/@dds_pub_cache/"@ + route);
}

/// Where things are shown: below the prefix of the admin space.
pub proof fn law_admin_places(e: EntityView, key: Seq<char>, ke: Seq<char>)
    ensures
        participant_admin_text(key) == "participant/"@ + key,
        entity_admin_text(e, true) == "participant/"@ + e.participant_key + "/writer/"@ + e.key + "/"@ + e.topic_name,
        entity_admin_text(e, false) == "participant/"@ + e.participant_key + "/reader/"@ + e.key + "/"@ + e.topic_name,
        route_from_admin_text(ke) == "route/from_dds/"@ + ke,
        route_to_admin_text(ke) == "route/to_dds/"@ + ke,
        version_text(key) == key + "/__version__"@,
{
    reveal_strlit("route/from_dds");
    reveal_strlit("route/from_dds/");
    reveal_strlit("route/to_dds");
    reveal_strlit("route/to_dds/");
    reveal_strlit("__version__");
    reveal_strlit("/__version__");
    assert(route_from_admin_text(ke) =~= "route/from_dds/"@ + ke);
    assert(route_to_admin_text(ke) =~= "route/to_dds/"@ + ke);
    assert(version_text(key) =~= key + "/__version__"@);
}

/// The id of a bridge is what stands behind the last `/` of its token.
pub proof fn law_token_tells_the_bridge(group: Seq<char>, id: Seq<char>)
    requires
        super::one_chunk(id),
    ensures
        last_chunk(group + "/"@ + id) == id,
        last_chunk(id) == id,
    decreases id.len(),
{
    reveal_strlit("/");
    let text = group + "/"@ + id;
    if id.len() == 0 {
        assert(text.last() == '/');
        assert(last_chunk(text) =~= id);
        assert(last_chunk(id) =~= id);
    } else {
        let rest = id.drop_last();
        assert(text.drop_last() =~= group + "/"@ + rest);
        assert(text.last() == id.last());
        assert(id[id.len() - 1] != '/');
        law_token_tells_the_bridge(group, rest);
        assert(rest.push(id.last()) =~= id);
    }
}

/// What is left to do for an event of the bridge's own discovery: to route a writer or a reader that was discovered,
/// as what it is, or to drop the routes that are there no more when one is gone.
pub proof fn law_local_steps(step: LocalStep, s: RuntimeView, event: DiscoveryEvent)
    requires
        step.answers(s, event),
    ensures
        event matches DiscoveryEvent::DiscoveredPublication { entity } ==> step matches LocalStep::RouteWriter(job)
            && job@.entity == entity@ && !job@.remote && job@ == s.local_writer_job(entity@),
        event matches DiscoveryEvent::DiscoveredSubscription { entity } ==> step matches LocalStep::RouteReader(job)
            && job@.entity == entity@ && !job@.remote && job@ == s.local_reader_job(entity@),
        event matches DiscoveryEvent::UndiscoveredPublication { key } ==> step matches LocalStep::DropFromDds(dropped)
            && forall|ke: Seq<char>|
            (exists|i: int| 0 <= i < dropped@.len() && #[trigger] dropped@[i].key@ == ke)
                <==> #[trigger] s.routes_from.contains_key(ke) && !s.writer_gone(key@).routes_from.contains_key(ke),
        event matches DiscoveryEvent::UndiscoveredSubscription { key } ==> step matches LocalStep::DropToDds(dropped)
            && forall|ke: Seq<char>|
            (exists|i: int| 0 <= i < dropped@.len() && #[trigger] dropped@[i].key@ == ke)
                <==> #[trigger] s.routes_to.contains_key(ke) && !s.reader_gone(key@).routes_to.contains_key(ke),
        event is DiscoveredParticipant || event is UndiscoveredParticipant ==> step is Done,
{
    match event {
        DiscoveryEvent::UndiscoveredPublication { key } => {
            let change = crate::changes::FromChangeView::LocalWriterGone(key@);
            if let LocalStep::DropFromDds(dropped) = step {
                assert forall|ke: Seq<char>|
                    (exists|i: int| 0 <= i < dropped@.len() && #[trigger] dropped@[i].key@ == ke)
                        <==> #[trigger] s.routes_from.contains_key(ke) && !s.writer_gone(key@).routes_from.contains_key(
                        ke,
                    ) by {
                    if s.writers.contains_key(key@) {
                        super::leaving::law_dropped_from_dds_are_given_back(dropped@, s, change, ke);
                        let mid = s.without_writer(key@);
                        assert(mid.drops_from(change, ke) == s.drops_from(change, ke));
                    }
                }
            }
        },
        DiscoveryEvent::UndiscoveredSubscription { key } => {
            let change = crate::changes::ToChangeView::LocalReaderGone(key@);
            if let LocalStep::DropToDds(dropped) = step {
                assert forall|ke: Seq<char>|
                    (exists|i: int| 0 <= i < dropped@.len() && #[trigger] dropped@[i].key@ == ke)
                        <==> #[trigger] s.routes_to.contains_key(ke) && !s.reader_gone(key@).routes_to.contains_key(ke) by {
                    if s.readers.contains_key(key@) {
                        super::leaving::law_dropped_to_dds_are_given_back(dropped@, s, change, ke);
                        let mid = s.without_reader(key@);
                        assert(mid.drops_to(change, ke) == s.drops_to(change, ke));
                    }
                }
            }
        },
        _ => {},
    }
}

/// What a bridge knows after an event, but for what is left to do: a participant comes and goes, alone and shown.
/// A writer or a reader that is gone goes, with the routes that served it alone. One that was discovered changes nothing yet.
/// Where discovery is forwarded, a writer goes alone, and a reader with the routes that serve no one else.
pub proof fn law_events_are_taken_in(s: RuntimeView, event: DiscoveryEvent, x: Seq<char>)
    ensures
        event matches DiscoveryEvent::DiscoveredParticipant { entity } ==> {
            let after = s.after_local(event);
            &&& after == s.after_forward(event)
            &&& after == RuntimeView { participants: after.participants, admin: after.admin, ..s }
            &&& after.participants.contains_key(entity@.key) && after.participants[entity@.key] == entity@
            &&& x != entity@.key ==> (after.participants.contains_key(x) <==> s.participants.contains_key(x))
                && after.participants[x] == s.participants[x]
            &&& after.admin.contains_key("participant/"@ + entity@.key)
            &&& after.admin["participant/"@ + entity@.key] == AdminRefView::DdsParticipant(entity@.key)
            &&& x != "participant/"@ + entity@.key ==> (after.admin.contains_key(x) <==> s.admin.contains_key(x))
                && after.admin[x] == s.admin[x]
        },
        event matches DiscoveryEvent::UndiscoveredParticipant { key } ==> {
            let after = s.after_local(event);
            &&& after == s.after_forward(event)
            &&& after == RuntimeView { participants: after.participants, admin: after.admin, ..s }
            &&& !after.participants.contains_key(key@)
            &&& x != key@ ==> (after.participants.contains_key(x) <==> s.participants.contains_key(x))
                && after.participants[x] == s.participants[x]
            &&& s.participants.contains_key(key@) && s.participants[key@].key == key@ ==> !after.admin.contains_key(
                "participant/"@ + key@,
            )
            &&& s.participants.contains_key(key@) && s.participants[key@].key == key@ && x != "participant/"@ + key@ ==> (
            after.admin.contains_key(x) <==> s.admin.contains_key(x)) && after.admin[x] == s.admin[x]
            &&& !s.participants.contains_key(key@) ==> after == s
        },
        event is DiscoveredPublication || event is DiscoveredSubscription ==> s.after_local(event) == s
            && s.after_forward(event) == s,
        event matches DiscoveryEvent::UndiscoveredPublication { key } ==> {
            let alone = s.after_forward(event);
            &&& s.after_local(event) == s.writer_gone(key@)
            &&& alone == RuntimeView { writers: alone.writers, admin: alone.admin, ..s }
            &&& !alone.writers.contains_key(key@)
            &&& x != key@ ==> (alone.writers.contains_key(x) <==> s.writers.contains_key(x)) && alone.writers[x]
                == s.writers[x]
        },
        event matches DiscoveryEvent::UndiscoveredSubscription { key } ==> s.after_local(event) == s.reader_gone(key@)
            && s.after_forward(event) == s.forwarded_reader_gone(key@),
{
}

/// A writer, a reader or a participant that is kept is known under its key and shown in its place,
/// and nothing else changes.
pub proof fn law_what_is_kept(s: RuntimeView, e: EntityView, admin: Seq<char>, x: Seq<char>)
    ensures
        ({
            let after = s.with_writer(admin, e);
            &&& after == RuntimeView { writers: after.writers, admin: after.admin, ..s }
            &&& after.writers.contains_key(e.key) && after.writers[e.key] == e
            &&& x != e.key ==> (after.writers.contains_key(x) <==> s.writers.contains_key(x)) && after.writers[x]
                == s.writers[x]
            &&& after.admin.contains_key(admin) && after.admin[admin] == AdminRefView::DdsWriterEntity(e.key)
            &&& x != admin ==> (after.admin.contains_key(x) <==> s.admin.contains_key(x)) && after.admin[x] == s.admin[x]
        }),
        ({
            let after = s.with_reader(admin, e);
            &&& after == RuntimeView { readers: after.readers, admin: after.admin, ..s }
            &&& after.readers.contains_key(e.key) && after.readers[e.key] == e
            &&& x != e.key ==> (after.readers.contains_key(x) <==> s.readers.contains_key(x)) && after.readers[x]
                == s.readers[x]
            &&& after.admin.contains_key(admin) && after.admin[admin] == AdminRefView::DdsReaderEntity(e.key)
            &&& x != admin ==> (after.admin.contains_key(x) <==> s.admin.contains_key(x)) && after.admin[x] == s.admin[x]
        }),
{
}

/// What can be taken in: an endpoint or a participant whose place in the admin space is a key expression,
/// and that can be mapped to zenoh keys where it is routed here. That something is gone can always be taken in.
pub proof fn law_what_can_be_taken_in(s: RuntimeView, event: DiscoveryEvent)
    ensures
        event matches DiscoveryEvent::DiscoveredPublication { entity } ==> {
            let place = "participant/"@ + entity@.participant_key + "/writer/"@ + entity@.key + "/"@ + entity@.topic_name;
            &&& s.takes_local(event) <==> valid_key_expr(place) && crate::routing::routable(entity@, s.config.scope)
            &&& s.takes_forward(event) <==> valid_key_expr(place)
        },
        event matches DiscoveryEvent::DiscoveredSubscription { entity } ==> {
            let place = "participant/"@ + entity@.participant_key + "/reader/"@ + entity@.key + "/"@ + entity@.topic_name;
            &&& s.takes_local(event) <==> valid_key_expr(place) && crate::routing::routable(entity@, s.config.scope)
            &&& s.takes_forward(event) <==> s.takes_local(event)
        },
        event matches DiscoveryEvent::DiscoveredParticipant { entity } ==> (s.takes_local(event) <==> valid_key_expr(
            "participant/"@ + entity@.key,
        )) && s.takes_forward(event) == s.takes_local(event),
        event is UndiscoveredPublication || event is UndiscoveredSubscription || event is UndiscoveredParticipant
            ==> s.takes_local(event) && s.takes_forward(event),
{
}

/// What is left to do for an event that is forwarded. The other bridges are told of a writer or a reader on
/// `<prefix>/<kind>/participant/<participant>/<kind>/<key>/<topic>`, and that it is gone on the key for what was known of it.
/// A reader is routed besides, and routes that are there no more are dropped with it.
pub proof fn law_forward_steps(step: ForwardStep, s: RuntimeView, event: DiscoveryEvent, prefix: Seq<char>)
    requires
        step.answers(s, event, prefix),
    ensures
        event matches DiscoveryEvent::DiscoveredPublication { entity } ==> step matches ForwardStep::TellWriter(told)
            && told.entity@ == entity@ && told.fwd_keyexpr@ == prefix + "/writer/participant/"@ + entity@.participant_key
            + "/writer/"@ + entity@.key + "/"@ + entity@.topic_name && told.admin_keyexpr@ == "participant/"@
            + entity@.participant_key + "/writer/"@ + entity@.key + "/"@ + entity@.topic_name,
        event matches DiscoveryEvent::DiscoveredSubscription { entity } ==> step matches ForwardStep::RouteReader(told)
            && told.job@ == s.local_reader_job(entity@) && told.fwd_keyexpr@ == prefix + "/reader/participant/"@
            + entity@.participant_key + "/reader/"@ + entity@.key + "/"@ + entity@.topic_name,
        event matches DiscoveryEvent::UndiscoveredPublication { key } ==> step matches ForwardStep::TellWriterGone(fwd)
            && (fwd is Some <==> s.writers.contains_key(key@)) && (fwd matches Some(ke) ==> ke@ == prefix
            + "/writer/participant/"@ + s.writers[key@].participant_key + "/writer/"@ + s.writers[key@].key + "/"@
            + s.writers[key@].topic_name),
        event matches DiscoveryEvent::UndiscoveredSubscription { key } ==> step matches ForwardStep::TellReaderGone(
            fwd,
            dropped,
        ) && (fwd is Some <==> s.readers.contains_key(key@)) && (fwd matches Some(ke) ==> ke@ == prefix
            + "/reader/participant/"@ + s.readers[key@].participant_key + "/reader/"@ + s.readers[key@].key + "/"@
            + s.readers[key@].topic_name) && forall|ke: Seq<char>|
            (exists|i: int| 0 <= i < dropped@.len() && #[trigger] dropped@[i].key@ == ke)
                <==> #[trigger] s.routes_to.contains_key(ke) && !s.forwarded_reader_gone(key@).routes_to.contains_key(ke),
        event is DiscoveredParticipant || event is UndiscoveredParticipant ==> step is Done,
{
    match event {
        DiscoveryEvent::DiscoveredPublication { entity } => lemma_told_on(prefix, entity@),
        DiscoveryEvent::DiscoveredSubscription { entity } => lemma_told_on(prefix, entity@),
        DiscoveryEvent::UndiscoveredPublication { key } => lemma_told_on(prefix, s.writers[key@]),
        DiscoveryEvent::UndiscoveredSubscription { key } => {
            lemma_told_on(prefix, s.readers[key@]);
            let change = crate::changes::ToChangeView::ForwardedReaderGone(key@);
            if let ForwardStep::TellReaderGone(_, dropped) = step {
                assert forall|ke: Seq<char>|
                    (exists|i: int| 0 <= i < dropped@.len() && #[trigger] dropped@[i].key@ == ke)
                        <==> #[trigger] s.routes_to.contains_key(ke) && !s.forwarded_reader_gone(
                        key@,
                    ).routes_to.contains_key(ke) by {
                    super::leaving::law_dropped_to_dds_are_given_back(dropped@, s, change, ke);
                    let mid = s.without_reader(key@);
                    assert(mid.drops_to(change, ke) == s.drops_to(change, ke));
                }
            }
        },
        _ => {},
    }
}

proof fn lemma_told_on(prefix: Seq<char>, e: EntityView)
    ensures
        told_on(prefix, e, true) == prefix + "/writer/participant/"@ + e.participant_key + "/writer/"@ + e.key + "/"@
            + e.topic_name,
        told_on(prefix, e, false) == prefix + "/reader/participant/"@ + e.participant_key + "/reader/"@ + e.key + "/"@
            + e.topic_name,
{
    reveal_strlit("writer");
    reveal_strlit("reader");
    reveal_strlit("participant/");
    reveal_strlit("/writer/participant/");
    reveal_strlit("/reader/participant/");
    assert(told_on(prefix, e, true) =~= prefix + "/writer/participant/"@ + e.participant_key + "/writer/"@ + e.key
        + "/"@ + e.topic_name);
    assert(told_on(prefix, e, false) =~= prefix + "/reader/participant/"@ + e.participant_key + "/reader/"@ + e.key
        + "/"@ + e.topic_name);
}

/// What the other bridges are told to be gone is what they were told of: on the same key.
pub proof fn law_what_is_told_is_taken_back(
    first: ForwardStep,
    second: ForwardStep,
    s: RuntimeView,
    discovered: DiscoveryEvent,
    gone: DiscoveryEvent,
    prefix: Seq<char>,
)
    requires
        first.answers(s, discovered, prefix),
        discovered matches DiscoveryEvent::DiscoveredPublication { entity } && gone matches
            DiscoveryEvent::UndiscoveredPublication { key } && key@ == entity@.key && second.answers(
            s.with_writer(entity_admin_text(entity@, true), entity@),
            gone,
            prefix,
        ),
    ensures
        first matches ForwardStep::TellWriter(told) && second matches ForwardStep::TellWriterGone(Some(ke)) && ke@
            == told.fwd_keyexpr@,
{
}

/// What the other bridges are told to be gone of a reader is what they were told of it: on the same key.
pub proof fn law_a_reader_that_is_told_is_taken_back(
    first: ForwardStep,
    second: ForwardStep,
    s: RuntimeView,
    discovered: DiscoveryEvent,
    gone: DiscoveryEvent,
    prefix: Seq<char>,
)
    requires
        first.answers(s, discovered, prefix),
        discovered matches DiscoveryEvent::DiscoveredSubscription { entity } && gone matches
            DiscoveryEvent::UndiscoveredSubscription { key } && key@ == entity@.key && second.answers(
            s.with_reader(entity_admin_text(entity@, false), entity@),
            gone,
            prefix,
        ),
    ensures
        first matches ForwardStep::RouteReader(told) && second matches ForwardStep::TellReaderGone(Some(ke), _) && ke@
            == told.fwd_keyexpr@,
{
}

/// What is left to do for a message of another bridge: the endpoint that it is about is routed, under its admin key,
/// or the routes that are there no more without it are dropped. ROS nodes are passed on, and anything else is ignored.
pub proof fn law_remote_steps(step: RemoteStep, s: RuntimeView, about: Option<ForwardedView>, deleted: bool)
    requires
        step.answers(s, about, deleted),
    ensures
        !deleted ==> (about matches Some(ForwardedView::Writer(admin)) ==> (step matches RemoteStep::RouteWriter(ke)
            && ke@ == admin)),
        !deleted ==> (about matches Some(ForwardedView::Reader(admin)) ==> (step matches RemoteStep::RouteReader(ke)
            && ke@ == admin)),
        deleted ==> (about matches Some(ForwardedView::Writer(admin)) ==> (step matches RemoteStep::DropToDds(dropped, _)
            && forall|ke: Seq<char>|
            (exists|i: int| 0 <= i < dropped@.len() && #[trigger] dropped@[i].key@ == ke)
                <==> #[trigger] s.routes_to.contains_key(ke) && !s.after_remote(about, deleted).routes_to.contains_key(
                ke,
            ))),
        deleted ==> (about matches Some(ForwardedView::Reader(admin)) ==> (step matches RemoteStep::DropFromDds(dropped)
            && forall|ke: Seq<char>|
            (exists|i: int| 0 <= i < dropped@.len() && #[trigger] dropped@[i].key@ == ke)
                <==> #[trigger] s.routes_from.contains_key(ke) && !s.after_remote(about, deleted).routes_from.contains_key(
                ke,
            ))),
        about == Some(ForwardedView::RosDisco) ==> step is RosNodes,
        about is None ==> step is Ignored,
        !deleted || about is None || about == Some(ForwardedView::RosDisco) ==> s.after_remote(about, deleted) == s,
        deleted ==> (about matches Some(ForwardedView::Writer(admin)) ==> s.after_remote(about, deleted) == s.changed_to(
            crate::changes::ToChangeView::RemoteWriterGone(admin),
        )),
        deleted ==> (about matches Some(ForwardedView::Reader(admin)) ==> s.after_remote(about, deleted) == s.changed_from(
            crate::changes::FromChangeView::RemoteReaderGone(admin),
        )),
{
    match about {
        Some(ForwardedView::Writer(admin)) => {
            let change = crate::changes::ToChangeView::RemoteWriterGone(admin);
            if let RemoteStep::DropToDds(dropped, _) = step {
                assert forall|ke: Seq<char>|
                    (exists|i: int| 0 <= i < dropped@.len() && #[trigger] dropped@[i].key@ == ke)
                        <==> #[trigger] s.routes_to.contains_key(ke) && !s.after_remote(
                        about,
                        deleted,
                    ).routes_to.contains_key(ke) by {
                    super::leaving::law_dropped_to_dds_are_given_back(dropped@, s, change, ke);
                }
            }
        },
        Some(ForwardedView::Reader(admin)) => {
            let change = crate::changes::FromChangeView::RemoteReaderGone(admin);
            if let RemoteStep::DropFromDds(dropped) = step {
                assert forall|ke: Seq<char>|
                    (exists|i: int| 0 <= i < dropped@.len() && #[trigger] dropped@[i].key@ == ke)
                        <==> #[trigger] s.routes_from.contains_key(ke) && !s.after_remote(
                        about,
                        deleted,
                    ).routes_from.contains_key(ke) by {
                    super::leaving::law_dropped_from_dds_are_given_back(dropped@, s, change, ke);
                }
            }
        },
        _ => {},
    }
}

/// A scope none of whose chunks names a kind.
proof fn lemma_scope_names_no_kind(scope: Seq<char>)
    requires
        !occurs("/"@ + scope + "/"@, "/reader/"@),
        !occurs("/"@ + scope + "/"@, "/writer/"@),
        !occurs("/"@ + scope + "/"@, "/ros_disco/"@),
    ensures
        scope_names_no_kind(Some(scope)),
{
    reveal_strlit("/");
    reveal_strlit("@dds_fwd_disco");
    let head = fwd_head(Some(scope)).push('/');
    let inner = "/"@ + scope + "/"@;
    assert forall|kind: FwdKind| !occurs(head, #[trigger] kind.mark()) by {
        let mark = kind.mark();
        reveal_strlit("/reader/");
        reveal_strlit("/writer/");
        reveal_strlit("/ros_disco/");
        if occurs(head, mark) {
            let at = choose|at: int| occurs_at(head, mark, at);
            assert(head.subrange(at, at + mark.len())[0] == head[at]);
            assert(mark[0] == '/');
            assert(at >= 14);
            assert(head.subrange(14, head.len() as int) =~= inner);
            assert(inner.subrange(at - 14, at - 14 + mark.len()) =~= head.subrange(at, at + mark.len()));
            assert(occurs_at(inner, mark, at - 14));
            assert(occurs(inner, mark));
        }
    }
}

proof fn lemma_no_scope_names_no_kind()
    ensures
        scope_names_no_kind(None),
{
    reveal_strlit("@dds_fwd_disco");
    reveal_strlit("/reader/");
    reveal_strlit("/writer/");
    reveal_strlit("/ros_disco/");
    let head = fwd_head(None).push('/');
    assert forall|kind: FwdKind| !occurs(head, #[trigger] kind.mark()) by {
        let mark = kind.mark();
        if occurs(head, mark) {
            let at = choose|at: int| occurs_at(head, mark, at);
            assert(head.subrange(at, at + mark.len())[0] == head[at]);
            assert(mark[0] == '/');
            assert(at >= 14);
        }
    }
}

/// A message on `@/<id>/@dds_fwd_disco/<scope>/<kind>/<rest>` is about the endpoint that bridge `<id>` shows
/// as `@/service/<id>/dds/<rest>`, a writer or a reader as the kind says, or about ROS nodes; so it is without a scope.
pub proof fn law_forwarded_messages(id: Seq<char>, scope: Seq<char>, rest: Seq<char>)
    requires
        valid_key_expr(id),
        super::one_chunk(id),
        valid_key_expr(rest),
        !occurs("/"@ + scope + "/"@, "/reader/"@),
        !occurs("/"@ + scope + "/"@, "/writer/"@),
        !occurs("/"@ + scope + "/"@, "/ros_disco/"@),
    ensures
        forwarded_on("@/"@ + id + "/@dds_fwd_disco/writer/"@ + rest) == Some(
            ForwardedView::Writer("@/service/"@ + id + "/dds/"@ + rest),
        ),
        forwarded_on("@/"@ + id + "/@dds_fwd_disco/reader/"@ + rest) == Some(
            ForwardedView::Reader("@/service/"@ + id + "/dds/"@ + rest),
        ),
        forwarded_on("@/"@ + id + "/@dds_fwd_disco/ros_disco/"@ + rest) == Some(ForwardedView::RosDisco),
        forwarded_on("@/"@ + id + "/@dds_fwd_disco/"@ + scope + "/writer/"@ + rest) == Some(
            ForwardedView::Writer("@/service/"@ + id + "/dds/"@ + rest),
        ),
        forwarded_on("@/"@ + id + "/@dds_fwd_disco/"@ + scope + "/reader/"@ + rest) == Some(
            ForwardedView::Reader("@/service/"@ + id + "/dds/"@ + rest),
        ),
        forwarded_on("@/"@ + id + "/@dds_fwd_disco/"@ + scope + "/ros_disco/"@ + rest) == Some(ForwardedView::RosDisco),
{
    lemma_scope_names_no_kind(scope);
    lemma_no_scope_names_no_kind();
    lemma_forwarded(id, None, FwdKind::Writer, rest);
    lemma_forwarded(id, None, FwdKind::Reader, rest);
    lemma_forwarded(id, None, FwdKind::RosDisco, rest);
    lemma_forwarded(id, Some(scope), FwdKind::Writer, rest);
    lemma_forwarded(id, Some(scope), FwdKind::Reader, rest);
    lemma_forwarded(id, Some(scope), FwdKind::RosDisco, rest);
    lemma_forwarded_keys(id, scope, rest);
}

proof fn lemma_forwarded(id: Seq<char>, scope: Option<Seq<char>>, kind: FwdKind, rest: Seq<char>)
    requires
        valid_key_expr(id),
        super::one_chunk(id),
        valid_key_expr(rest),
        scope_names_no_kind(scope),
    ensures
        ({
            let key = slashed(slashed(fwd_prefix_text(id, scope), kind.chunk()), rest);
            let admin = "@/service/"@ + id + "/dds/"@ + rest;
            &&& kind == FwdKind::Writer ==> forwarded_on(key) == Some(ForwardedView::Writer(admin))
            &&& kind == FwdKind::Reader ==> forwarded_on(key) == Some(ForwardedView::Reader(admin))
            &&& kind == FwdKind::RosDisco ==> forwarded_on(key) == Some(ForwardedView::RosDisco)
        }),
{
    law_fwd_key_round_trip(id, scope, kind, rest);
    law_key_spaces(id, rest, rest);
    reveal_strlit("/dds");
    reveal_strlit("/dds/");
    assert(slashed(admin_prefix_text(id), rest) =~= "@/service/"@ + id + "/dds/"@ + rest);
}

proof fn lemma_forwarded_keys(id: Seq<char>, scope: Seq<char>, rest: Seq<char>)
    ensures
        slashed(slashed(fwd_prefix_text(id, None), "writer"@), rest) == "@/"@ + id + "/@dds_fwd_disco/writer/"@ + rest,
        slashed(slashed(fwd_prefix_text(id, None), "reader"@), rest) == "@/"@ + id + "/@dds_fwd_disco/reader/"@ + rest,
        slashed(slashed(fwd_prefix_text(id, None), "ros_disco"@), rest) == "@/"@ + id + "/@dds_fwd_disco/ros_disco/"@
            + rest,
        slashed(slashed(fwd_prefix_text(id, Some(scope)), "writer"@), rest) == "@/"@ + id + "/@dds_fwd_disco/"@ + scope
            + "/writer/"@ + rest,
        slashed(slashed(fwd_prefix_text(id, Some(scope)), "reader"@), rest) == "@/"@ + id + "/@dds_fwd_disco/"@ + scope
            + "/reader/"@ + rest,
        slashed(slashed(fwd_prefix_text(id, Some(scope)), "ros_disco"@), rest) == "@/"@ + id + "/@dds_fwd_disco/"@
            + scope + "/ros_disco/"@ + rest,
{
    law_key_spaces(id, scope, rest);
    reveal_strlit("writer");
    reveal_strlit("reader");
    reveal_strlit("ros_disco");
    reveal_strlit("/writer/");
    reveal_strlit("/reader/");
    reveal_strlit("/ros_disco/");
    reveal_strlit("/@dds_fwd_disco");
    reveal_strlit("/@dds_fwd_disco/writer/");
    reveal_strlit("/@dds_fwd_disco/reader/");
    reveal_strlit("/@dds_fwd_disco/ros_disco/");
    assert(slashed(slashed(fwd_prefix_text(id, None), "writer"@), rest) =~= "@/"@ + id + "/@dds_fwd_disco/writer/"@
        + rest);
    assert(slashed(slashed(fwd_prefix_text(id, None), "reader"@), rest) =~= "@/"@ + id + "/@dds_fwd_disco/reader/"@
        + rest);
    assert(slashed(slashed(fwd_prefix_text(id, None), "ros_disco"@), rest) =~= "@/"@ + id
        + "/@dds_fwd_disco/ros_disco/"@ + rest);
    assert(slashed(slashed(fwd_prefix_text(id, Some(scope)), "writer"@), rest) =~= "@/"@ + id + "/@dds_fwd_disco/"@
        + scope + "/writer/"@ + rest);
    assert(slashed(slashed(fwd_prefix_text(id, Some(scope)), "reader"@), rest) =~= "@/"@ + id + "/@dds_fwd_disco/"@
        + scope + "/reader/"@ + rest);
    assert(slashed(slashed(fwd_prefix_text(id, Some(scope)), "ros_disco"@), rest) =~= "@/"@ + id
        + "/@dds_fwd_disco/"@ + scope + "/ros_disco/"@ + rest);
}

/// A message on any other key is not taken for forwarded discovery: one that does not begin with `@/`,
/// or in which no kind is named.
pub proof fn law_other_messages_are_ignored(key: Seq<char>)
    ensures
        !"@/"@.is_prefix_of(key) ==> forwarded_on(key) is None,
        !occurs(key, "/reader/"@) && !occurs(key, "/writer/"@) && !occurs(key, "/ros_disco/"@) ==> forwarded_on(key)
            is None,
        !occurs(key, "@dds_fwd_disco"@) ==> forwarded_on(key) is None,
{
    reveal_strlit("@");
    reveal_strlit("@/");
    reveal_strlit("/");
    assert("@/"@ =~= "@"@.push('/'));
    if fwd_key_parts(key) is Some {
        let tail = key.skip(2);
        let i = first_index(tail, "/"@)->Some_0;
        crate::text::lemma_index_occurs(tail, "/"@);
        let rest = tail.skip(i + 1);
        assert(rest =~= key.skip(3 + i));
        assert forall|word: Seq<char>, at: int| occurs_at(rest, word, at) implies occurs(key, word) by {
            assert(key.subrange(at + 3 + i, at + 3 + i + word.len()) =~= rest.subrange(at, at + word.len()));
            assert(occurs_at(key, word, at + 3 + i));
        }
        let disco = "@dds_fwd_disco"@;
        assert(rest.subrange(0, disco.len() as int) =~= disco);
        assert(occurs_at(rest, disco, 0));
        crate::text::lemma_index_occurs(rest, "/reader/"@);
        crate::text::lemma_index_occurs(rest, "/writer/"@);
        crate::text::lemma_index_occurs(rest, "/ros_disco/"@);
    }
}

/// What a bridge that has joined is asked for: by each route that asks for earlier publications, and by no other, once,
/// what it has cached under `@/<id>/@dds_pub_cache/<route>`. All that match are asked and all answers are taken,
/// within the time that the settings give.
pub proof fn law_what_a_new_bridge_is_asked(queries: Seq<HistoricalQuery>, s: RuntimeView, zid: Seq<char>, ke: Seq<char>)
    requires
        lists_queries(queries, s, zid),
    ensures
        (exists|i: int| 0 <= i < queries.len() && #[trigger] queries[i].route@ == ke) <==> s.routes_to.contains_key(ke)
            && s.routes_to[ke].querying,
        forall|i: int|
            0 <= i < queries.len() ==> {
                &&& (#[trigger] queries[i]).selector@ == "@/"@ + zid + "/@dds_pub_cache/"@ + queries[i].route@
                &&& queries[i].settings.target == QueryTarget::All
                &&& queries[i].settings.consolidation == ConsolidationMode::Unconsolidated
                &&& queries[i].settings.accept_replies == ReplyKeyExpr::Any
                &&& queries[i].settings.timeout == s.config.queries_timeout
            },
        forall|i: int, j: int|
            0 <= i < j < queries.len() ==> #[trigger] queries[i].route@ != #[trigger] queries[j].route@,
{
    assert forall|i: int| 0 <= i < queries.len() implies (#[trigger] queries[i]).selector@ == "@/"@ + zid
        + "/@dds_pub_cache/"@ + queries[i].route@ && queries[i].settings.target == QueryTarget::All
        && queries[i].settings.consolidation == ConsolidationMode::Unconsolidated && queries[i].settings.accept_replies
        == ReplyKeyExpr::Any && queries[i].settings.timeout == s.config.queries_timeout by {
        assert(queries[i].fits(s, zid));
        law_key_spaces(zid, zid, queries[i].route@);
    }
    if s.routes_to.contains_key(ke) && s.routes_to[ke].querying {
        assert(s.asks(ke));
    }
    if exists|i: int| 0 <= i < queries.len() && #[trigger] queries[i].route@ == ke {
        let i = choose|i: int| 0 <= i < queries.len() && #[trigger] queries[i].route@ == ke;
        assert(queries[i].fits(s, zid));
    }
}

/// An entry of the admin space shows what it refers to, as it is now, and nothing where that is not there.
pub proof fn law_admin_entries_show_what_they_name(s: RuntimeView, key: Seq<char>)
    ensures
        s.participants.contains_key(key) ==> s.admin_value(AdminRefView::DdsParticipant(key)) == Some(
            AdminValueView::Participant(s.participants[key]),
        ),
        s.writers.contains_key(key) ==> s.admin_value(AdminRefView::DdsWriterEntity(key)) == Some(
            AdminValueView::Writer(s.writers[key]),
        ),
        s.readers.contains_key(key) ==> s.admin_value(AdminRefView::DdsReaderEntity(key)) == Some(
            AdminValueView::Reader(s.readers[key]),
        ),
        s.routes_from.contains_key(key) ==> s.admin_value(AdminRefView::FromDdsRoute(key)) == Some(
            AdminValueView::FromDdsRoute(s.routes_from[key]),
        ),
        s.routes_to.contains_key(key) ==> s.admin_value(AdminRefView::ToDdsRoute(key)) == Some(
            AdminValueView::ToDdsRoute(s.routes_to[key]),
        ),
        s.admin_value(AdminRefView::DdsParticipant(key)) is Some ==> s.participants.contains_key(key),
        s.admin_value(AdminRefView::DdsWriterEntity(key)) is Some ==> s.writers.contains_key(key),
        s.admin_value(AdminRefView::DdsReaderEntity(key)) is Some ==> s.readers.contains_key(key),
        s.admin_value(AdminRefView::FromDdsRoute(key)) is Some ==> s.routes_from.contains_key(key),
        s.admin_value(AdminRefView::ToDdsRoute(key)) is Some ==> s.routes_to.contains_key(key),
        s.admin_value(AdminRefView::Config) == Some(AdminValueView::Config(s.config.json())),
        s.admin_value(AdminRefView::Version) == Some(AdminValueView::Version),
{
}

/// A query on the admin space is answered by every entry that it matches and that shows something, once, and by no other:
/// a query for one key by the entry of that key, and one with wildcards by all whose keys match.
pub proof fn law_queries_are_answered<'a>(
    s: RuntimeView,
    replies: Seq<AdminReply<'a>>,
    prefix: Seq<char>,
    sub_ke: Seq<char>,
    ke: Seq<char>,
)
    requires
        s.lists_replies(replies, prefix, sub_ke),
    ensures
        (exists|i: int| 0 <= i < replies.len() && (#[trigger] replies[i]).entry@ == ke) <==> {
            &&& s.admin.contains_key(ke)
            &&& s.admin_value(s.admin[ke]) is Some
            &&& !sub_ke.contains('*') ==> ke == sub_ke
            &&& sub_ke.contains('*') ==> key_exprs_intersect(sub_ke, ke)
        },
        forall|i: int|
            0 <= i < replies.len() ==> Some((#[trigger] replies[i]).value@) == s.admin_value(s.admin[replies[i].entry@]),
        prefix.len() > 0 && prefix.last() != '*' ==> forall|i: int|
            0 <= i < replies.len() ==> (#[trigger] replies[i]).key@ == prefix + "/"@ + replies[i].entry@,
        forall|i: int, j: int|
            0 <= i < j < replies.len() ==> (#[trigger] replies[i]).entry@ != (#[trigger] replies[j]).entry@,
{
    reveal_strlit("/");
    assert(literal(sub_ke) <==> !sub_ke.contains('*')) by {
        if !literal(sub_ke) {
            let i = choose|i: int| 0 <= i < sub_ke.len() && #[trigger] sub_ke[i] == '*';
            assert(sub_ke.contains(sub_ke[i]));
        }
    }
    if exists|i: int| 0 <= i < replies.len() && (#[trigger] replies[i]).entry@ == ke {
        let i = choose|i: int| 0 <= i < replies.len() && (#[trigger] replies[i]).entry@ == ke;
        assert(s.admin_answers(sub_ke, replies[i].entry@));
    }
    if s.admin.contains_key(ke) && s.admin_value(s.admin[ke]) is Some && (if literal(sub_ke) {
        ke == sub_ke
    } else {
        key_exprs_intersect(sub_ke, ke)
    }) {
        assert(s.admin_answers(sub_ke, ke));
    }
    if prefix.len() > 0 && prefix.last() != '*' {
        assert forall|i: int| 0 <= i < replies.len() implies (#[trigger] replies[i]).key@ == prefix + "/"@
            + replies[i].entry@ by {
            assert(slashed(prefix, replies[i].entry@) =~= prefix + "/"@ + replies[i].entry@);
        }
    }
}

/// What is asked of the admin space, where neither the selector nor the prefix has wildcards: what stands behind
/// the prefix and a `/`, and nothing where the selector does not begin so.
pub proof fn law_what_is_asked_of_the_admin_space(prefix: Seq<char>, rest: Seq<char>, selector: Seq<char>)
    ensures
        rest.len() > 0 ==> stripped_literal(prefix + "/"@ + rest, prefix) == seq![rest],
        stripped_literal(selector, prefix).len() <= 1,
        stripped_literal(selector, prefix).len() == 1 ==> selector == prefix + "/"@ + stripped_literal(selector, prefix)[0]
            && stripped_literal(selector, prefix)[0].len() > 0,
{
    reveal_strlit("/");
    let text = prefix + "/"@ + rest;
    if rest.len() > 0 {
        assert(prefix.push('/').is_prefix_of(text));
        assert(text.skip(prefix.len() as int + 1) =~= rest);
    }
    if stripped_literal(selector, prefix).len() == 1 {
        let part = selector.skip(prefix.len() as int + 1);
        assert(selector =~= prefix.push('/') + part);
        assert(selector =~= prefix + "/"@ + part);
    }
}

} // verus!
