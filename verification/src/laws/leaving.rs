//! What is left when an endpoint or another bridge is gone: all that serves someone else.
use vstd::prelude::*;

use crate::changes::{
    lists_deleted, lists_dropped_from, lists_dropped_to, DeletedWriter, DroppedFromDds, DroppedToDds, FromChangeView,
    ToChangeView,
};
use crate::departure::bridge_part;
use crate::routes::{RouteFromView, RouteToView, DDS_ENTITY_NULL};
use crate::runtime::{route_from_admin_text, route_to_admin_text, RuntimeView};
use crate::text::{occurs, occurs_at};

verus! {

proof fn lemma_holds_some(set: Set<Seq<char>>)
    ensures
        set != Set::<Seq<char>>::empty() <==> exists|x: Seq<char>| set.contains(x),
{
    if forall|x: Seq<char>| !set.contains(x) {
        assert(set =~= Set::empty());
    }
}

proof fn lemma_route_texts()
    ensures
        forall|ke: Seq<char>| #[trigger] route_from_admin_text(ke) == "route/from_dds/"@ + ke,
        forall|ke: Seq<char>| #[trigger] route_to_admin_text(ke) == "route/to_dds/"@ + ke,
        forall|k: Seq<char>, j: Seq<char>|
            #[trigger] route_from_admin_text(k) == #[trigger] route_from_admin_text(j) ==> k == j,
        forall|k: Seq<char>, j: Seq<char>|
            #[trigger] route_to_admin_text(k) == #[trigger] route_to_admin_text(j) ==> k == j,
{
    reveal_strlit("route/from_dds");
    reveal_strlit("route/from_dds/");
    reveal_strlit("route/to_dds");
    reveal_strlit("route/to_dds/");
    assert forall|ke: Seq<char>| #[trigger] route_from_admin_text(ke) == "route/from_dds/"@ + ke by {
        assert(route_from_admin_text(ke) =~= "route/from_dds/"@ + ke);
    }
    assert forall|ke: Seq<char>| #[trigger] route_to_admin_text(ke) == "route/to_dds/"@ + ke by {
        assert(route_to_admin_text(ke) =~= "route/to_dds/"@ + ke);
    }
    super::lemma_places();
}

/// When a local writer that is known is gone: it is known no more. A route from DDS stays exactly where it serves another
/// local writer, and is otherwise as it was; one that goes is shown no more. Nothing else changes but that
/// the writer is shown no more.
pub proof fn law_what_a_local_writer_leaves(s: RuntimeView, key: Seq<char>, ke: Seq<char>, x: Seq<char>)
    ensures
        ({
            let after = s.writer_gone(key);
            let route = after.routes_from[ke];
            let serves_other = exists|k: Seq<char>| k != key && #[trigger] s.routes_from[ke].local.contains(k);
            let own = "participant/"@ + s.writers[key].participant_key + "/writer/"@ + s.writers[key].key + "/"@
                + s.writers[key].topic_name;
            &&& !s.writers.contains_key(key) ==> after == s
            &&& s.writers.contains_key(key) ==> {
                &&& !after.writers.contains_key(key)
                &&& x != key ==> (after.writers.contains_key(x) <==> s.writers.contains_key(x)) && after.writers[x]
                    == s.writers[x]
                &&& after.routes_from.contains_key(ke) <==> s.routes_from.contains_key(ke) && serves_other
                &&& after.routes_from.contains_key(ke) ==> {
                    &&& route == RouteFromView { local: route.local, ..s.routes_from[ke] }
                    &&& route.local.contains(x) <==> s.routes_from[ke].local.contains(x) && x != key
                }
                &&& s.routes_from.contains_key(ke) && !serves_other ==> !after.admin.contains_key("route/from_dds/"@ + ke)
                &&& !after.admin.contains_key(own)
                &&& after.admin.contains_key(x) ==> s.admin.contains_key(x) && after.admin[x] == s.admin[x]
                &&& s.admin.contains_key(x) && !after.admin.contains_key(x) ==> x == own || exists|k: Seq<char>|
                    s.routes_from.contains_key(k) && !#[trigger] after.routes_from.contains_key(k) && x
                        == "route/from_dds/"@ + k
                &&& after.routes_to == s.routes_to
                &&& after.readers == s.readers
                &&& after.participants == s.participants
                &&& after.config == s.config
            }
        }),
{
    lemma_route_texts();
    let change = FromChangeView::LocalWriterGone(key);
    let left = change.apply(s.routes_from[ke]).local;
    lemma_holds_some(left);
    if exists|k: Seq<char>| k != key && #[trigger] s.routes_from[ke].local.contains(k) {
        let k = choose|k: Seq<char>| k != key && #[trigger] s.routes_from[ke].local.contains(k);
        assert(left.contains(k));
    }
    if s.writers.contains_key(key) {
        let mid = s.without_writer(key);
        assert(mid.drops_from(change, ke) == s.drops_from(change, ke));
    }
    let after = s.writer_gone(key);
    if s.writers.contains_key(key) && s.without_writer(key).admin.contains_key(x) && !after.admin.contains_key(x) {
        let k = choose|k: Seq<char>| #[trigger]
            s.without_writer(key).drops_from(change, k) && x == route_from_admin_text(k);
        assert(!after.routes_from.contains_key(k));
    }
}

/// When a local reader that is known is gone: it is known no more. A route to DDS stays exactly where it serves another
/// local reader, and is otherwise as it was; one that goes is shown no more. Nothing else changes but that
/// the reader is shown no more.
pub proof fn law_what_a_local_reader_leaves(s: RuntimeView, key: Seq<char>, ke: Seq<char>, x: Seq<char>)
    ensures
        ({
            let after = s.reader_gone(key);
            let route = after.routes_to[ke];
            let serves_other = exists|k: Seq<char>| k != key && #[trigger] s.routes_to[ke].local.contains(k);
            let own = "participant/"@ + s.readers[key].participant_key + "/reader/"@ + s.readers[key].key + "/"@
                + s.readers[key].topic_name;
            &&& !s.readers.contains_key(key) ==> after == s
            &&& s.readers.contains_key(key) ==> {
                &&& !after.readers.contains_key(key)
                &&& x != key ==> (after.readers.contains_key(x) <==> s.readers.contains_key(x)) && after.readers[x]
                    == s.readers[x]
                &&& after.routes_to.contains_key(ke) <==> s.routes_to.contains_key(ke) && serves_other
                &&& after.routes_to.contains_key(ke) ==> {
                    &&& route == RouteToView { local: route.local, ..s.routes_to[ke] }
                    &&& route.local.contains(x) <==> s.routes_to[ke].local.contains(x) && x != key
                }
                &&& s.routes_to.contains_key(ke) && !serves_other ==> !after.admin.contains_key("route/to_dds/"@ + ke)
                &&& !after.admin.contains_key(own)
                &&& after.admin.contains_key(x) ==> s.admin.contains_key(x) && after.admin[x] == s.admin[x]
                &&& s.admin.contains_key(x) && !after.admin.contains_key(x) ==> x == own || exists|k: Seq<char>|
                    s.routes_to.contains_key(k) && !#[trigger] after.routes_to.contains_key(k) && x
                        == "route/to_dds/"@ + k
                &&& after.routes_from == s.routes_from
                &&& after.writers == s.writers
                &&& after.participants == s.participants
                &&& after.config == s.config
            }
        }),
{
    lemma_route_texts();
    let change = ToChangeView::LocalReaderGone(key);
    let left = change.apply(s.routes_to[ke]).local;
    lemma_holds_some(left);
    if exists|k: Seq<char>| k != key && #[trigger] s.routes_to[ke].local.contains(k) {
        let k = choose|k: Seq<char>| k != key && #[trigger] s.routes_to[ke].local.contains(k);
        assert(left.contains(k));
    }
    if s.readers.contains_key(key) {
        let mid = s.without_reader(key);
        assert(mid.drops_to(change, ke) == s.drops_to(change, ke));
    }
    let after = s.reader_gone(key);
    if s.readers.contains_key(key) && s.without_reader(key).admin.contains_key(x) && !after.admin.contains_key(x) {
        let k = choose|k: Seq<char>| #[trigger]
            s.without_reader(key).drops_to(change, k) && x == route_to_admin_text(k);
        assert(!after.routes_to.contains_key(k));
    }
}

/// Where discovery is forwarded and a local reader is gone: a route to DDS stays exactly where it serves another local
/// reader or a remote writer, and is otherwise as it was, with its DDS writer. Writers and routes from DDS do not change.
pub proof fn law_what_a_forwarded_reader_leaves(s: RuntimeView, key: Seq<char>, ke: Seq<char>, x: Seq<char>)
    ensures
        ({
            let after = s.forwarded_reader_gone(key);
            let route = after.routes_to[ke];
            let serves_other = (exists|k: Seq<char>| k != key && #[trigger] s.routes_to[ke].local.contains(k)) || (
            exists|admin: Seq<char>| #[trigger] s.routes_to[ke].remote.contains(admin));
            &&& !after.readers.contains_key(key)
            &&& x != key ==> (after.readers.contains_key(x) <==> s.readers.contains_key(x)) && after.readers[x]
                == s.readers[x]
            &&& after.routes_to.contains_key(ke) <==> s.routes_to.contains_key(ke) && serves_other
            &&& after.routes_to.contains_key(ke) ==> {
                &&& route == RouteToView { local: route.local, ..s.routes_to[ke] }
                &&& route.local.contains(x) <==> s.routes_to[ke].local.contains(x) && x != key
            }
            &&& s.routes_to.contains_key(ke) && !serves_other ==> !after.admin.contains_key("route/to_dds/"@ + ke)
            &&& after.admin.contains_key(x) ==> s.admin.contains_key(x) && after.admin[x] == s.admin[x]
            &&& after.routes_from == s.routes_from
            &&& after.writers == s.writers
            &&& after.participants == s.participants
            &&& after.config == s.config
        }),
{
    lemma_route_texts();
    let change = ToChangeView::ForwardedReaderGone(key);
    let left = change.apply(s.routes_to[ke]);
    lemma_holds_some(left.local);
    lemma_holds_some(left.remote);
    if exists|k: Seq<char>| k != key && #[trigger] s.routes_to[ke].local.contains(k) {
        let k = choose|k: Seq<char>| k != key && #[trigger] s.routes_to[ke].local.contains(k);
        assert(left.local.contains(k));
    }
    let mid = s.without_reader(key);
    assert(mid.drops_to(change, ke) == s.drops_to(change, ke));
}

/// When a writer of another bridge is gone: a route to DDS stays exactly where it serves another remote writer
/// or a local reader. It serves all it served but that writer, and keeps its DDS writer as long as it serves
/// a remote writer. Nothing else changes but that routes that go are shown no more.
pub proof fn law_what_a_remote_writer_leaves(s: RuntimeView, admin: Seq<char>, ke: Seq<char>, x: Seq<char>)
    ensures
        ({
            let after = s.changed_to(ToChangeView::RemoteWriterGone(admin));
            let route = after.routes_to[ke];
            let serves_remote = exists|a: Seq<char>| a != admin && #[trigger] s.routes_to[ke].remote.contains(a);
            let serves_local = exists|k: Seq<char>| #[trigger] s.routes_to[ke].local.contains(k);
            &&& after.routes_to.contains_key(ke) <==> s.routes_to.contains_key(ke) && (serves_remote || serves_local)
            &&& after.routes_to.contains_key(ke) ==> {
                &&& route == RouteToView { remote: route.remote, dds_writer: route.dds_writer, ..s.routes_to[ke] }
                &&& route.remote.contains(x) <==> s.routes_to[ke].remote.contains(x) && x != admin
                &&& serves_remote ==> route.dds_writer == s.routes_to[ke].dds_writer
                &&& !serves_remote ==> route.dds_writer == 0
            }
            &&& s.routes_to.contains_key(ke) && !serves_remote && !serves_local ==> !after.admin.contains_key(
                "route/to_dds/"@ + ke,
            )
            &&& after.admin.contains_key(x) ==> s.admin.contains_key(x) && after.admin[x] == s.admin[x]
            &&& s.admin.contains_key(x) && !after.admin.contains_key(x) ==> exists|k: Seq<char>|
                s.routes_to.contains_key(k) && !#[trigger] after.routes_to.contains_key(k) && x == "route/to_dds/"@ + k
            &&& after.routes_from == s.routes_from
            &&& after.writers == s.writers
            &&& after.readers == s.readers
            &&& after.participants == s.participants
            &&& after.config == s.config
        }),
{
    lemma_route_texts();
    assert(DDS_ENTITY_NULL == 0);
    let change = ToChangeView::RemoteWriterGone(admin);
    let left = change.apply(s.routes_to[ke]);
    lemma_holds_some(left.local);
    lemma_holds_some(left.remote);
    if exists|a: Seq<char>| a != admin && #[trigger] s.routes_to[ke].remote.contains(a) {
        let a = choose|a: Seq<char>| a != admin && #[trigger] s.routes_to[ke].remote.contains(a);
        assert(left.remote.contains(a));
    }
    let after = s.changed_to(change);
    if s.admin.contains_key(x) && !after.admin.contains_key(x) {
        let k = choose|k: Seq<char>| #[trigger] s.drops_to(change, k) && x == route_to_admin_text(k);
        assert(!after.routes_to.contains_key(k));
    }
}

/// When a reader of another bridge is gone: a route from DDS stays exactly where it serves another remote reader. It serves
/// all it served but that reader, and is otherwise as it was. Nothing else changes but that routes that go
/// are shown no more.
pub proof fn law_what_a_remote_reader_leaves(s: RuntimeView, admin: Seq<char>, ke: Seq<char>, x: Seq<char>)
    ensures
        ({
            let after = s.changed_from(FromChangeView::RemoteReaderGone(admin));
            let route = after.routes_from[ke];
            let serves_other = exists|a: Seq<char>| a != admin && #[trigger] s.routes_from[ke].remote.contains(a);
            &&& after.routes_from.contains_key(ke) <==> s.routes_from.contains_key(ke) && serves_other
            &&& after.routes_from.contains_key(ke) ==> {
                &&& route == RouteFromView { remote: route.remote, ..s.routes_from[ke] }
                &&& route.remote.contains(x) <==> s.routes_from[ke].remote.contains(x) && x != admin
            }
            &&& s.routes_from.contains_key(ke) && !serves_other ==> !after.admin.contains_key("route/from_dds/"@ + ke)
            &&& after.admin.contains_key(x) ==> s.admin.contains_key(x) && after.admin[x] == s.admin[x]
            &&& s.admin.contains_key(x) && !after.admin.contains_key(x) ==> exists|k: Seq<char>|
                s.routes_from.contains_key(k) && !#[trigger] after.routes_from.contains_key(k) && x
                    == "route/from_dds/"@ + k
            &&& after.routes_to == s.routes_to
            &&& after.writers == s.writers
            &&& after.readers == s.readers
            &&& after.participants == s.participants
            &&& after.config == s.config
        }),
{
    lemma_route_texts();
    let change = FromChangeView::RemoteReaderGone(admin);
    let left = change.apply(s.routes_from[ke]);
    lemma_holds_some(left.remote);
    if exists|a: Seq<char>| a != admin && #[trigger] s.routes_from[ke].remote.contains(a) {
        let a = choose|a: Seq<char>| a != admin && #[trigger] s.routes_from[ke].remote.contains(a);
        assert(left.remote.contains(a));
    }
    let after = s.changed_from(change);
    if s.admin.contains_key(x) && !after.admin.contains_key(x) {
        let k = choose|k: Seq<char>| #[trigger] s.drops_from(change, k) && x == route_from_admin_text(k);
        assert(!after.routes_from.contains_key(k));
    }
}

/// When another bridge has left, the endpoints of the others are still served: an endpoint in whose admin key
/// `@/service/<id>/dds/` does not stand keeps its route, which is as it was but for the endpoints of that bridge.
/// A route that served endpoints of that bridge alone goes, and is shown no more.
pub proof fn law_other_bridges_stay_served(s: RuntimeView, zid: Seq<char>, ke: Seq<char>, admin: Seq<char>)
    ensures
        ({
            let after = s.bridge_gone(zid);
            let part = "@/service/"@ + zid + "/dds/"@;
            &&& s.routes_to.contains_key(ke) && s.routes_to[ke].remote.contains(admin) && !occurs(admin, part) ==> {
                &&& after.routes_to.contains_key(ke)
                &&& after.routes_to[ke].remote.contains(admin)
                &&& after.routes_to[ke] == RouteToView { remote: after.routes_to[ke].remote, ..s.routes_to[ke] }
            }
            &&& after.routes_to.contains_key(ke) ==> {
                &&& s.routes_to.contains_key(ke)
                &&& after.routes_to[ke].remote.contains(admin) ==> s.routes_to[ke].remote.contains(admin) && !occurs(
                    admin,
                    part,
                )
                &&& exists|a: Seq<char>| #[trigger] s.routes_to[ke].remote.contains(a) && !occurs(a, part)
            }
            &&& s.routes_to.contains_key(ke) && !after.routes_to.contains_key(ke) ==> !after.admin.contains_key(
                "route/to_dds/"@ + ke,
            )
            &&& s.routes_from.contains_key(ke) && s.routes_from[ke].remote.contains(admin) && !occurs(admin, part) ==> {
                &&& after.routes_from.contains_key(ke)
                &&& after.routes_from[ke].remote.contains(admin)
                &&& after.routes_from[ke] == RouteFromView { remote: after.routes_from[ke].remote, ..s.routes_from[ke] }
            }
            &&& after.routes_from.contains_key(ke) ==> {
                &&& s.routes_from.contains_key(ke)
                &&& after.routes_from[ke].remote.contains(admin) ==> s.routes_from[ke].remote.contains(admin) && !occurs(
                    admin,
                    part,
                )
                &&& exists|a: Seq<char>| #[trigger] s.routes_from[ke].remote.contains(a) && !occurs(a, part)
            }
            &&& s.routes_from.contains_key(ke) && !after.routes_from.contains_key(ke) ==> !after.admin.contains_key(
                "route/from_dds/"@ + ke,
            )
            &&& after.admin.contains_key(ke) ==> s.admin.contains_key(ke) && after.admin[ke] == s.admin[ke]
            &&& s.admin.contains_key(ke) && !after.admin.contains_key(ke) ==> (exists|k: Seq<char>|
                s.routes_to.contains_key(k) && !#[trigger] after.routes_to.contains_key(k) && ke == "route/to_dds/"@ + k)
                || (exists|k: Seq<char>|
                s.routes_from.contains_key(k) && !#[trigger] after.routes_from.contains_key(k) && ke
                    == "route/from_dds/"@ + k)
            &&& after.writers == s.writers
            &&& after.readers == s.readers
            &&& after.participants == s.participants
            &&& after.config == s.config
        }),
{
    lemma_route_texts();
    lemma_bridge_part(zid);
    let part = bridge_part(zid);
    let to = ToChangeView::BridgeGone(part);
    let from = FromChangeView::BridgeGone(part);
    lemma_holds_some(to.apply(s.routes_to[ke]).remote);
    lemma_holds_some(from.apply(s.routes_from[ke]).remote);
    let mid = s.changed_to(to);
    assert(mid.drops_from(from, ke) == s.drops_from(from, ke));
    if s.routes_to.contains_key(ke) && s.routes_to[ke].remote.contains(admin) && !occurs(admin, part) {
        assert(to.apply(s.routes_to[ke]).remote.contains(admin));
    }
    if s.routes_from.contains_key(ke) && s.routes_from[ke].remote.contains(admin) && !occurs(admin, part) {
        assert(from.apply(s.routes_from[ke]).remote.contains(admin));
    }
    if s.admin.contains_key(ke) && !s.bridge_gone(zid).admin.contains_key(ke) {
        if mid.admin.contains_key(ke) {
            let k = choose|k: Seq<char>| #[trigger] mid.drops_from(from, k) && ke == route_from_admin_text(k);
            assert(!s.bridge_gone(zid).routes_from.contains_key(k));
        } else {
            let k = choose|k: Seq<char>| #[trigger] s.drops_to(to, k) && ke == route_to_admin_text(k);
            assert(!s.bridge_gone(zid).routes_to.contains_key(k));
        }
    }
}

proof fn lemma_bridge_part(zid: Seq<char>)
    ensures
        bridge_part(zid) == "@/service/"@ + zid + "/dds/"@,
{
    reveal_strlit("@/service");
    reveal_strlit("@/service/");
    reveal_strlit("/");
    assert(bridge_part(zid) =~= "@/service/"@ + zid + "/dds/"@);
}

/// In the admin key of an endpoint, an `@` stands at the begin only.
proof fn lemma_one_at(uuid: Seq<char>, rest: Seq<char>, at: int)
    requires
        !uuid.contains('@'),
        !rest.contains('@'),
        0 <= at < ("@/service/"@ + uuid + "/dds/"@ + rest).len(),
        ("@/service/"@ + uuid + "/dds/"@ + rest)[at] == '@',
    ensures
        at == 0,
{
    reveal_strlit("@/service/");
    reveal_strlit("/dds/");
    let u = uuid.len() as int;
    if 10 <= at < 10 + u {
        assert(uuid[at - 10] == '@');
    } else if at >= 15 + u {
        assert(rest[at - 15 - u] == '@');
    }
}

proof fn lemma_same_bridge(uuid: Seq<char>, rest: Seq<char>, zid: Seq<char>, tail: Seq<char>)
    requires
        super::one_chunk(zid),
        super::one_chunk(uuid),
        "@/service/"@ + uuid + "/dds/"@ + rest == "@/service/"@ + zid + "/dds/"@ + tail,
    ensures
        uuid == zid,
{
    reveal_strlit("@/service/");
    reveal_strlit("/dds/");
    reveal_strlit("dds/");
    let one = "@/service/"@ + uuid + "/dds/"@ + rest;
    let other = "@/service/"@ + zid + "/dds/"@ + tail;
    assert(one.skip(10) =~= crate::key_expr::slashed(uuid, "dds/"@ + rest));
    assert(other.skip(10) =~= crate::key_expr::slashed(zid, "dds/"@ + tail));
    super::lemma_first_chunk(uuid, "dds/"@ + rest, zid, "dds/"@ + tail);
}

/// By their admin keys, endpoints are told apart by their bridges: an endpoint of a bridge goes with that bridge,
/// and one of another bridge does not, where neither its id nor what follows holds an `@`.
pub proof fn law_admin_keys_tell_the_bridge(zid: Seq<char>, uuid: Seq<char>, rest: Seq<char>)
    requires
        super::one_chunk(zid),
        super::one_chunk(uuid),
        !uuid.contains('@'),
        !rest.contains('@'),
    ensures
        occurs("@/service/"@ + uuid + "/dds/"@ + rest, bridge_part(zid)) <==> uuid == zid,
{
    lemma_bridge_part(zid);
    let part = bridge_part(zid);
    let key = "@/service/"@ + uuid + "/dds/"@ + rest;
    if uuid == zid {
        assert(key.subrange(0, part.len() as int) =~= part);
        assert(occurs_at(key, part, 0));
    }
    if occurs(key, part) {
        let at = choose|at: int| occurs_at(key, part, at);
        assert(part.len() > 0 && part[0] == '@') by {
            reveal_strlit("@/service/");
        }
        assert(key.subrange(at, at + part.len())[0] == key[at]);
        lemma_one_at(uuid, rest, at);
        let tail = key.skip(part.len() as int);
        assert(key =~= part + tail) by {
            assert(key.subrange(0, part.len() as int) == part);
            assert(key =~= key.subrange(0, part.len() as int) + tail);
        }
        lemma_same_bridge(uuid, rest, zid, tail);
    }
}

/// The routes from DDS that are given back for a change are those that were there before and are not after it,
/// each once, with the DDS readers that they had.
pub proof fn law_dropped_from_dds_are_given_back(
    dropped: Seq<DroppedFromDds>,
    s: RuntimeView,
    change: FromChangeView,
    ke: Seq<char>,
)
    requires
        lists_dropped_from(dropped, s, change),
    ensures
        (exists|i: int| 0 <= i < dropped.len() && #[trigger] dropped[i].key@ == ke) <==> s.routes_from.contains_key(ke)
            && !s.changed_from(change).routes_from.contains_key(ke),
        forall|i: int| 0 <= i < dropped.len() ==> (#[trigger] dropped[i]).route.dds_reader
            == s.routes_from[dropped[i].key@].dds_reader,
        forall|i: int, j: int| 0 <= i < j < dropped.len() ==> #[trigger] dropped[i].key@ != #[trigger] dropped[j].key@,
{
    assert forall|i: int| 0 <= i < dropped.len() implies (#[trigger] dropped[i]).route.dds_reader
        == s.routes_from[dropped[i].key@].dds_reader by {
        assert(dropped[i].route@.dds_reader == dropped[i].route.dds_reader);
    }
    if s.routes_from.contains_key(ke) && !s.changed_from(change).routes_from.contains_key(ke) {
        assert(s.drops_from(change, ke));
    }
}

/// The routes to DDS that are given back for a change are those that were there before and are not after it,
/// each once, for the topics that they had.
pub proof fn law_dropped_to_dds_are_given_back(
    dropped: Seq<DroppedToDds>,
    s: RuntimeView,
    change: ToChangeView,
    ke: Seq<char>,
)
    requires
        lists_dropped_to(dropped, s, change),
    ensures
        (exists|i: int| 0 <= i < dropped.len() && #[trigger] dropped[i].key@ == ke) <==> s.routes_to.contains_key(ke)
            && !s.changed_to(change).routes_to.contains_key(ke),
        forall|i: int| 0 <= i < dropped.len() ==> (#[trigger] dropped[i]).route@.topic_name
            == s.routes_to[dropped[i].key@].topic_name,
        change !is RemoteWriterGone ==> forall|i: int| 0 <= i < dropped.len() ==> (#[trigger] dropped[i]).route.dds_writer
            == s.routes_to[dropped[i].key@].dds_writer,
        forall|i: int, j: int| 0 <= i < j < dropped.len() ==> #[trigger] dropped[i].key@ != #[trigger] dropped[j].key@,
{
    assert forall|i: int| 0 <= i < dropped.len() implies (#[trigger] dropped[i]).route@.topic_name
        == s.routes_to[dropped[i].key@].topic_name && (change !is RemoteWriterGone ==> dropped[i].route.dds_writer
        == s.routes_to[dropped[i].key@].dds_writer) by {
        assert(s.drops_to(change, dropped[i].key@));
        assert(dropped[i].route@.dds_writer == dropped[i].route.dds_writer);
    }
    if s.routes_to.contains_key(ke) && !s.changed_to(change).routes_to.contains_key(ke) {
        assert(s.drops_to(change, ke));
    }
}

/// The DDS writers that are given back when a writer of another bridge is gone are those of the routes
/// that serve no other remote writer, each once.
pub proof fn law_deleted_writers_are_given_back(
    deleted: Seq<DeletedWriter>,
    s: RuntimeView,
    admin: Seq<char>,
    ke: Seq<char>,
)
    requires
        lists_deleted(deleted, s, ToChangeView::RemoteWriterGone(admin)),
    ensures
        (exists|i: int| 0 <= i < deleted.len() && #[trigger] deleted[i].key@ == ke) <==> {
            &&& s.routes_to.contains_key(ke)
            &&& s.routes_to[ke].dds_writer != 0
            &&& forall|a: Seq<char>| #[trigger] s.routes_to[ke].remote.contains(a) ==> a == admin
        },
        forall|i: int| 0 <= i < deleted.len() ==> (#[trigger] deleted[i]).writer
            == s.routes_to[deleted[i].key@].dds_writer,
        forall|i: int, j: int| 0 <= i < j < deleted.len() ==> #[trigger] deleted[i].key@ != #[trigger] deleted[j].key@,
{
    assert(DDS_ENTITY_NULL == 0);
    let change = ToChangeView::RemoteWriterGone(admin);
    lemma_holds_some(s.routes_to[ke].remote.remove(admin));
    if forall|a: Seq<char>| #[trigger] s.routes_to[ke].remote.contains(a) ==> a == admin {
        assert(s.routes_to[ke].remote.remove(admin) =~= Set::empty());
    } else {
        let a = choose|a: Seq<char>| #[trigger] s.routes_to[ke].remote.contains(a) && a != admin;
        assert(s.routes_to[ke].remote.remove(admin).contains(a));
    }
    if exists|i: int| 0 <= i < deleted.len() && #[trigger] deleted[i].key@ == ke {
        let i = choose|i: int| 0 <= i < deleted.len() && #[trigger] deleted[i].key@ == ke;
        assert(s.deletes(change, deleted[i].key@));
    }
    if s.routes_to.contains_key(ke) && s.routes_to[ke].dds_writer != 0 && s.routes_to[ke].remote.remove(admin)
        == Set::<Seq<char>>::empty() {
        assert(s.deletes(change, ke));
    }
}

} // verus!
