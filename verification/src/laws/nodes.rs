//! What is told of ROS nodes, and what becomes of it.
use vstd::prelude::*;

use crate::number::decimal_text;
use crate::qos::{default_qos, DurabilityKind, History, QosView, ReliabilityKind};
use crate::ros_discovery::{
    last_samples, leaving_all_out, leaving_out, nodes_by_name, nonempty_nodes, ros_discovery_qos, NodeView,
    shown_nodes, ParticipantInfoView,
};
use crate::runtime::RuntimeView;
use crate::text::occurs;

verus! {

/// No node of a list is lost unless a later one has the same namespace and name: under its namespace and name stands
/// the node itself, or the last one that has the same.
pub proof fn law_no_node_is_lost(list: Seq<NodeView>, i: int) -> (last: int)
    requires
        0 <= i < list.len(),
    ensures
        i <= last < list.len(),
        list[last].namespace + list[last].name == list[i].namespace + list[i].name,
        forall|j: int| last < j < list.len() ==> (#[trigger] list[j]).namespace + list[j].name != list[i].namespace
            + list[i].name,
        nodes_by_name(list).contains_key(list[i].namespace + list[i].name),
        nodes_by_name(list)[list[i].namespace + list[i].name] == list[last],
    decreases list.len(),
{
    let name = list[i].namespace + list[i].name;
    let end = list.len() - 1;
    if list[end].namespace + list[end].name == name {
        end
    } else {
        let last = law_no_node_is_lost(list.drop_last(), i);
        assert(list.drop_last()[last] == list[last]);
        assert forall|j: int| last < j < list.len() implies (#[trigger] list[j]).namespace + list[j].name != name by {
            if j < end {
                assert(list.drop_last()[j] == list[j]);
            }
        }
        last
    }
}

/// No node is made up: each one stands under its own namespace and name, and is one of the list.
pub proof fn law_nodes_stand_under_their_names(list: Seq<NodeView>, key: Seq<char>)
    requires
        nodes_by_name(list).contains_key(key),
    ensures
        key == nodes_by_name(list)[key].namespace + nodes_by_name(list)[key].name,
        list.contains(nodes_by_name(list)[key]),
    decreases list.len(),
{
    let end = list.len() - 1;
    if list[end].namespace + list[end].name == key {
        assert(list.contains(list[end]));
    } else {
        law_nodes_stand_under_their_names(list.drop_last(), key);
        let at = choose|at: int| 0 <= at < end && list.drop_last()[at] == nodes_by_name(list.drop_last())[key];
        assert(list[at] == nodes_by_name(list)[key]);
    }
}

/// Of several samples from one participant the last counts, and no participant is lost: the sixteen bytes behind the first
/// four of a sample, in hexadecimal, tell whom it is from.
pub proof fn law_last_sample_of_each(samples: Seq<Seq<u8>>, i: int) -> (last: int)
    requires
        0 <= i < samples.len(),
    ensures
        i <= last < samples.len(),
        samples[last].subrange(4, 20) == samples[i].subrange(4, 20),
        forall|j: int| last < j < samples.len() ==> crate::gid::hex_text((#[trigger] samples[j]).subrange(4, 20))
            != crate::gid::hex_text(samples[i].subrange(4, 20)),
        last_samples(samples).contains_key(crate::gid::hex_text(samples[i].subrange(4, 20))),
        last_samples(samples)[crate::gid::hex_text(samples[i].subrange(4, 20))] == samples[last],
    decreases samples.len(),
{
    let gid = crate::gid::hex_text(samples[i].subrange(4, 20));
    let end = samples.len() - 1;
    if crate::gid::hex_text(samples[end].subrange(4, 20)) == gid {
        crate::gid::law_hex_round_trip(samples[end].subrange(4, 20));
        crate::gid::law_hex_round_trip(samples[i].subrange(4, 20));
        end
    } else {
        let last = law_last_sample_of_each(samples.drop_last(), i);
        assert(samples.drop_last()[last] == samples[last]);
        assert forall|j: int| last < j < samples.len() implies crate::gid::hex_text(
            (#[trigger] samples[j]).subrange(4, 20),
        ) != gid by {
            if j < end {
                assert(samples.drop_last()[j] == samples[j]);
            }
        }
        last
    }
}

/// No sample is kept under another participant than its own.
pub proof fn law_samples_stand_under_their_participants(samples: Seq<Seq<u8>>, gid: Seq<char>)
    requires
        last_samples(samples).contains_key(gid),
    ensures
        gid == crate::gid::hex_text(last_samples(samples)[gid].subrange(4, 20)),
        samples.contains(last_samples(samples)[gid]),
    decreases samples.len(),
{
    let end = samples.len() - 1;
    if crate::gid::hex_text(samples[end].subrange(4, 20)) == gid {
        assert(samples.contains(samples[end]));
    } else {
        law_samples_stand_under_their_participants(samples.drop_last(), gid);
        let at = choose|at: int| 0 <= at < end && samples.drop_last()[at] == last_samples(samples.drop_last())[gid];
        assert(samples[at] == last_samples(samples)[gid]);
    }
}

/// A cleanup removes exactly the nodes that have neither readers nor writers, and leaves the others as they are.
pub proof fn law_cleanup_keeps_who_has_endpoints(nodes: Map<Seq<char>, NodeView>, key: Seq<char>)
    ensures
        nonempty_nodes(nodes).contains_key(key) <==> nodes.contains_key(key) && (nodes[key].readers.len() > 0
            || nodes[key].writers.len() > 0),
        nonempty_nodes(nodes).contains_key(key) ==> nonempty_nodes(nodes)[key] == nodes[key],
{
}

/// To take an id out of a list is to take out each place where it stands, and no other: of two lists in a row, it is taken
/// out of each, and a list of one id is left as it is or emptied.
pub proof fn law_ids_are_taken_out_one_by_one(
    one: Seq<Seq<char>>,
    other: Seq<Seq<char>>,
    x: Seq<char>,
    gid: Seq<char>,
    gone: Set<Seq<char>>,
)
    ensures
        leaving_out(one + other, gid) == leaving_out(one, gid) + leaving_out(other, gid),
        leaving_out(seq![x], gid) == (if x == gid {
            Seq::<Seq<char>>::empty()
        } else {
            seq![x]
        }),
        leaving_all_out(one + other, gone) == leaving_all_out(one, gone) + leaving_all_out(other, gone),
        leaving_all_out(seq![x], gone) == (if gone.contains(x) {
            Seq::<Seq<char>>::empty()
        } else {
            seq![x]
        }),
{
    Seq::filter_distributes_over_add(one, other, |g: Seq<char>| g != gid);
    Seq::filter_distributes_over_add(one, other, |g: Seq<char>| !gone.contains(g));
    reveal_with_fuel(Seq::filter, 2);
    assert(seq![x].drop_last() =~= Seq::<Seq<char>>::empty());
    assert(leaving_out(seq![x], gid) =~= (if x == gid {
        Seq::<Seq<char>>::empty()
    } else {
        seq![x]
    }));
    assert(leaving_all_out(seq![x], gone) =~= (if gone.contains(x) {
        Seq::<Seq<char>>::empty()
    } else {
        seq![x]
    }));
}

/// To take a reader or a writer out of a node concerns no other endpoint of it, nor its name.
pub proof fn law_a_node_without_an_endpoint(node: NodeView, gid: Seq<char>, x: Seq<char>)
    ensures
        node.without_reader(gid) == (NodeView { readers: leaving_out(node.readers, gid), ..node }),
        node.without_writer(gid) == (NodeView { writers: leaving_out(node.writers, gid), ..node }),
        node.without_reader(gid).readers.contains(x) <==> node.readers.contains(x) && x != gid,
        node.without_writer(gid).writers.contains(x) <==> node.writers.contains(x) && x != gid,
{
    let none = Set::<Seq<char>>::empty();
    let one = none.insert(gid);
    crate::ros_discovery::lemma_without_all(node, none, none, gid);
    lemma_left_in(node.readers, |g: Seq<char>| !one.contains(g), x);
    lemma_left_in(node.writers, |g: Seq<char>| !one.contains(g), x);
}

proof fn lemma_left_in(gids: Seq<Seq<char>>, pred: spec_fn(Seq<char>) -> bool, x: Seq<char>)
    ensures
        gids.filter(pred).contains(x) <==> gids.contains(x) && pred(x),
{
    broadcast use vstd::seq_lib::group_filter_ensures;

    if gids.filter(pred).contains(x) {
        gids.lemma_filter_contains_rev(pred, x);
        let at = choose|at: int| 0 <= at < gids.filter(pred).len() && gids.filter(pred)[at] == x;
        assert(pred(gids.filter(pred)[at]));
    }
    if gids.contains(x) && pred(x) {
        let at = choose|at: int| 0 <= at < gids.len() && gids[at] == x;
        assert(gids.filter(pred).contains(gids[at]));
    }
}

/// Whether the route from DDS for `ke` serves the remote endpoint `admin`, in whose admin key `gid` stands.
pub open spec fn serves_reader(s: RuntimeView, ke: Seq<char>, admin: Seq<char>, gid: Seq<char>) -> bool {
    s.routes_from.contains_key(ke) && s.routes_from[ke].remote.contains(admin) && occurs(admin, gid)
}

/// Whether the route to DDS for `ke` serves the remote endpoint `admin`, in whose admin key `gid` stands.
pub open spec fn serves_writer(s: RuntimeView, ke: Seq<char>, admin: Seq<char>, gid: Seq<char>) -> bool {
    s.routes_to.contains_key(ke) && s.routes_to[ke].remote.contains(admin) && occurs(admin, gid)
}

/// Whether `new` is the id of the DDS reader of a route that serves the remote reader `gid`.
pub open spec fn is_reader_for(s: RuntimeView, guids: Map<i32, String>, new: Seq<char>, gid: Seq<char>) -> bool {
    exists|ke: Seq<char>, admin: Seq<char>| #[trigger]
        serves_reader(s, ke, admin, gid) && guids.contains_key(s.routes_from[ke].dds_reader)
            && guids[s.routes_from[ke].dds_reader]@ == new
}

/// The readers of a node that are passed on, in their order: each stands for one remote reader, and is the DDS reader
/// of a route that serves that one. Those left out are served by no route.
pub proof fn law_readers_are_passed_on_by_their_routes(
    s: RuntimeView,
    guids: Map<i32, String>,
    old: Seq<Seq<char>>,
    new: Seq<Seq<char>>,
) -> (from: Seq<int>)
    requires
        s.readers_remapped(guids, old, new),
    ensures
        from.len() == new.len(),
        forall|k: int| 0 <= k < from.len() ==> 0 <= #[trigger] from[k] < old.len(),
        forall|k: int, m: int| 0 <= k < m < from.len() ==> #[trigger] from[k] < #[trigger] from[m],
        forall|k: int|
            0 <= k < new.len() ==> is_reader_for(s, guids, #[trigger] new[k], old[from[k]]),
        forall|j: int, ke: Seq<char>, admin: Seq<char>|
            0 <= j < old.len() && !from.contains(j) ==> !#[trigger] serves_reader(s, ke, admin, old[j]),
    decreases old.len(),
{
    if old.len() == 0 {
        seq![]
    } else {
        let end = old.len() - 1;
        let rest = old.drop_last();
        if s.reader_routed(old.last()) {
            let first = law_readers_are_passed_on_by_their_routes(s, guids, rest, new.drop_last());
            let from = first.push(end);
            assert forall|k: int| 0 <= k < new.len() implies is_reader_for(s, guids, #[trigger] new[k], old[from[k]]) by {
                if k < new.len() - 1 {
                    assert(new.drop_last()[k] == new[k]);
                    assert(from[k] == first[k]);
                    assert(rest[first[k]] == old[from[k]]);
                    assert(is_reader_for(s, guids, new.drop_last()[k], rest[first[k]]));
                } else {
                    let ke = choose|ke: Seq<char>| #[trigger]
                        s.routes_reader(ke, old.last()) && guids.contains_key(s.routes_from[ke].dds_reader)
                            && guids[s.routes_from[ke].dds_reader]@ == new.last();
                    let admin = choose|admin: Seq<char>|
                        s.routes_from[ke].remote.contains(admin) && occurs(admin, old.last());
                    assert(serves_reader(s, ke, admin, old[from[k]]));
                }
            }
            assert forall|j: int, ke: Seq<char>, admin: Seq<char>|
                0 <= j < old.len() && !from.contains(j) implies !#[trigger] serves_reader(s, ke, admin, old[j]) by {
                assert(from[first.len() as int] == end);
                assert(j < end);
                if first.contains(j) {
                    let at = choose|at: int| 0 <= at < first.len() && first[at] == j;
                    assert(from[at] == j);
                }
                assert(rest[j] == old[j]);
                assert(!serves_reader(s, ke, admin, rest[j]));
            }
            from
        } else {
            let from = law_readers_are_passed_on_by_their_routes(s, guids, rest, new);
            assert forall|k: int| 0 <= k < new.len() implies is_reader_for(s, guids, #[trigger] new[k], old[from[k]]) by {
                assert(rest[from[k]] == old[from[k]]);
            }
            assert forall|j: int, ke: Seq<char>, admin: Seq<char>|
                0 <= j < old.len() && !from.contains(j) implies !#[trigger] serves_reader(s, ke, admin, old[j]) by {
                if j < end {
                    assert(rest[j] == old[j]);
                    assert(!serves_reader(s, ke, admin, rest[j]));
                } else {
                    assert(!s.routes_reader(ke, old.last()));
                }
            }
            from
        }
    }
}

/// Whether `new` is the id of the DDS writer of a route that serves the remote writer `gid`.
pub open spec fn is_writer_for(s: RuntimeView, guids: Map<i32, String>, new: Seq<char>, gid: Seq<char>) -> bool {
    exists|ke: Seq<char>, admin: Seq<char>| #[trigger]
        serves_writer(s, ke, admin, gid) && guids.contains_key(s.routes_to[ke].dds_writer)
            && guids[s.routes_to[ke].dds_writer]@ == new
}

/// The writers of a node that are passed on, in their order: each stands for one remote writer, and is the DDS writer
/// of a route that serves that one. Those left out are served by no route.
pub proof fn law_writers_are_passed_on_by_their_routes(
    s: RuntimeView,
    guids: Map<i32, String>,
    old: Seq<Seq<char>>,
    new: Seq<Seq<char>>,
) -> (from: Seq<int>)
    requires
        s.writers_remapped(guids, old, new),
    ensures
        from.len() == new.len(),
        forall|k: int| 0 <= k < from.len() ==> 0 <= #[trigger] from[k] < old.len(),
        forall|k: int, m: int| 0 <= k < m < from.len() ==> #[trigger] from[k] < #[trigger] from[m],
        forall|k: int|
            0 <= k < new.len() ==> is_writer_for(s, guids, #[trigger] new[k], old[from[k]]),
        forall|j: int, ke: Seq<char>, admin: Seq<char>|
            0 <= j < old.len() && !from.contains(j) ==> !#[trigger] serves_writer(s, ke, admin, old[j]),
    decreases old.len(),
{
    if old.len() == 0 {
        seq![]
    } else {
        let end = old.len() - 1;
        let rest = old.drop_last();
        if s.writer_routed(old.last()) {
            let first = law_writers_are_passed_on_by_their_routes(s, guids, rest, new.drop_last());
            let from = first.push(end);
            assert forall|k: int| 0 <= k < new.len() implies is_writer_for(s, guids, #[trigger] new[k], old[from[k]]) by {
                if k < new.len() - 1 {
                    assert(new.drop_last()[k] == new[k]);
                    assert(from[k] == first[k]);
                    assert(rest[first[k]] == old[from[k]]);
                    assert(is_writer_for(s, guids, new.drop_last()[k], rest[first[k]]));
                } else {
                    let ke = choose|ke: Seq<char>| #[trigger]
                        s.routes_writer(ke, old.last()) && guids.contains_key(s.routes_to[ke].dds_writer)
                            && guids[s.routes_to[ke].dds_writer]@ == new.last();
                    let admin = choose|admin: Seq<char>|
                        s.routes_to[ke].remote.contains(admin) && occurs(admin, old.last());
                    assert(serves_writer(s, ke, admin, old[from[k]]));
                }
            }
            assert forall|j: int, ke: Seq<char>, admin: Seq<char>|
                0 <= j < old.len() && !from.contains(j) implies !#[trigger] serves_writer(s, ke, admin, old[j]) by {
                assert(from[first.len() as int] == end);
                assert(j < end);
                if first.contains(j) {
                    let at = choose|at: int| 0 <= at < first.len() && first[at] == j;
                    assert(from[at] == j);
                }
                assert(rest[j] == old[j]);
                assert(!serves_writer(s, ke, admin, rest[j]));
            }
            from
        } else {
            let from = law_writers_are_passed_on_by_their_routes(s, guids, rest, new);
            assert forall|k: int| 0 <= k < new.len() implies is_writer_for(s, guids, #[trigger] new[k], old[from[k]]) by {
                assert(rest[from[k]] == old[from[k]]);
            }
            assert forall|j: int, ke: Seq<char>, admin: Seq<char>|
                0 <= j < old.len() && !from.contains(j) implies !#[trigger] serves_writer(s, ke, admin, old[j]) by {
                if j < end {
                    assert(rest[j] == old[j]);
                    assert(!serves_writer(s, ke, admin, rest[j]));
                } else {
                    assert(!s.routes_writer(ke, old.last()));
                }
            }
            from
        }
    }
}

/// All nodes are passed on, under their names, each with the readers and writers of routes for its own.
pub proof fn law_nodes_are_passed_on(
    s: RuntimeView,
    guids: Map<i32, String>,
    old: Map<Seq<char>, NodeView>,
    new: Map<Seq<char>, NodeView>,
    key: Seq<char>,
)
    requires
        s.nodes_remapped(guids, old, new),
    ensures
        new.contains_key(key) <==> old.contains_key(key),
        new.contains_key(key) ==> {
            &&& new[key].namespace == old[key].namespace
            &&& new[key].name == old[key].name
            &&& s.readers_remapped(guids, old[key].readers, new[key].readers)
            &&& s.writers_remapped(guids, old[key].writers, new[key].writers)
        },
{
    assert(new.dom().contains(key) <==> old.dom().contains(key));
}

/// Whether `gid` is the id of the DDS reader of a route that goes when bridge `zid` leaves.
pub open spec fn reader_leaves(s: RuntimeView, zid: Seq<char>, guids: Map<i32, String>, gid: Seq<char>) -> bool {
    exists|ke: Seq<char>| #[trigger]
        s.routes_from.contains_key(ke) && !s.bridge_gone(zid).routes_from.contains_key(ke) && guids.contains_key(
            s.routes_from[ke].dds_reader,
        ) && guids[s.routes_from[ke].dds_reader]@ == gid
}

/// Whether `gid` is the id of the DDS writer of a route that goes when bridge `zid` leaves.
pub open spec fn writer_leaves(s: RuntimeView, zid: Seq<char>, guids: Map<i32, String>, gid: Seq<char>) -> bool {
    exists|ke: Seq<char>| #[trigger]
        s.routes_to.contains_key(ke) && !s.bridge_gone(zid).routes_to.contains_key(ke) && guids.contains_key(
            s.routes_to[ke].dds_writer,
        ) && guids[s.routes_to[ke].dds_writer]@ == gid
}

proof fn lemma_who_leaves(s: RuntimeView, zid: Seq<char>, guids: Map<i32, String>, gid: Seq<char>)
    ensures
        s.leaving_readers(zid, guids).contains(gid) <==> reader_leaves(s, zid, guids, gid),
        s.leaving_writers(zid, guids).contains(gid) <==> writer_leaves(s, zid, guids, gid),
{
    let part = crate::departure::bridge_part(zid);
    let to = crate::changes::ToChangeView::BridgeGone(part);
    let from = crate::changes::FromChangeView::BridgeGone(part);
    let mid = s.changed_to(to);
    assert forall|ke: Seq<char>| #[trigger] s.routes_from.contains_key(ke) implies (s.drops_from(from, ke)
        <==> !s.bridge_gone(zid).routes_from.contains_key(ke)) by {
        assert(mid.drops_from(from, ke) == s.drops_from(from, ke));
    }
    assert forall|ke: Seq<char>| #[trigger] s.routes_to.contains_key(ke) implies (s.drops_to(to, ke)
        <==> !s.bridge_gone(zid).routes_to.contains_key(ke)) by {}
    if s.leaving_readers(zid, guids).contains(gid) {
        let ke = choose|ke: Seq<char>| #[trigger]
            s.drops_from(from, ke) && guids.contains_key(s.routes_from[ke].dds_reader)
                && guids[s.routes_from[ke].dds_reader]@ == gid;
        assert(s.routes_from.contains_key(ke));
    }
    if s.leaving_writers(zid, guids).contains(gid) {
        let ke = choose|ke: Seq<char>| #[trigger]
            s.drops_to(to, ke) && guids.contains_key(s.routes_to[ke].dds_writer)
                && guids[s.routes_to[ke].dds_writer]@ == gid;
        assert(s.routes_to.contains_key(ke));
    }
    if reader_leaves(s, zid, guids, gid) {
        let ke = choose|ke: Seq<char>| #[trigger]
            s.routes_from.contains_key(ke) && !s.bridge_gone(zid).routes_from.contains_key(ke) && guids.contains_key(
                s.routes_from[ke].dds_reader,
            ) && guids[s.routes_from[ke].dds_reader]@ == gid;
        assert(s.drops_from(from, ke));
    }
    if writer_leaves(s, zid, guids, gid) {
        let ke = choose|ke: Seq<char>| #[trigger]
            s.routes_to.contains_key(ke) && !s.bridge_gone(zid).routes_to.contains_key(ke) && guids.contains_key(
                s.routes_to[ke].dds_writer,
            ) && guids[s.routes_to[ke].dds_writer]@ == gid;
        assert(s.drops_to(to, ke));
    }
}

/// What is told of a node when a bridge has left: exactly the readers and writers that did not go with its routes.
/// A node that has one left stays, under its name, and no node comes up. Where no route with a known id goes, nothing
/// that is told changes.
pub proof fn law_nodes_after_a_departure(
    s: RuntimeView,
    zid: Seq<char>,
    guids: Map<i32, String>,
    info: ParticipantInfoView,
    key: Seq<char>,
    gid: Seq<char>,
)
    ensures
        ({
            let told = s.told_after_departure(zid, guids, info);
            let node = info.nodes[key];
            let left = told.nodes[key];
            &&& told.gid == info.gid
            &&& told.nodes.contains_key(key) ==> info.nodes.contains_key(key)
            &&& told.nodes.contains_key(key) ==> {
                &&& left.namespace == node.namespace
                &&& left.name == node.name
                &&& left.readers.contains(gid) <==> node.readers.contains(gid) && !reader_leaves(s, zid, guids, gid)
                &&& left.writers.contains(gid) <==> node.writers.contains(gid) && !writer_leaves(s, zid, guids, gid)
            }
            &&& info.nodes.contains_key(key) && node.readers.contains(gid) && !reader_leaves(s, zid, guids, gid)
                ==> told.nodes.contains_key(key)
            &&& info.nodes.contains_key(key) && node.writers.contains(gid) && !writer_leaves(s, zid, guids, gid)
                ==> told.nodes.contains_key(key)
            &&& (forall|g: Seq<char>| !reader_leaves(s, zid, guids, g) && !writer_leaves(s, zid, guids, g)) ==> told
                == info
            &&& s.departure_is_told(zid, guids) <==> exists|g: Seq<char>|
                reader_leaves(s, zid, guids, g) || writer_leaves(s, zid, guids, g)
        }),
{
    let readers = s.leaving_readers(zid, guids);
    let writers = s.leaving_writers(zid, guids);
    assert forall|g: Seq<char>| #[trigger] readers.contains(g) <==> reader_leaves(s, zid, guids, g) by {
        lemma_who_leaves(s, zid, guids, g);
    }
    assert forall|g: Seq<char>| #[trigger] writers.contains(g) <==> writer_leaves(s, zid, guids, g) by {
        lemma_who_leaves(s, zid, guids, g);
    }
    if !s.departure_is_told(zid, guids) {
        assert(!readers.contains(gid));
        assert(!writers.contains(gid));
        assert forall|g: Seq<char>| !(reader_leaves(s, zid, guids, g) || writer_leaves(s, zid, guids, g)) by {
            assert(!readers.contains(g));
            assert(!writers.contains(g));
        }
    } else {
        if readers != Set::<Seq<char>>::empty() {
            if forall|g: Seq<char>| !readers.contains(g) {
                assert(readers =~= Set::empty());
            }
            let g = choose|g: Seq<char>| readers.contains(g);
            assert(reader_leaves(s, zid, guids, g));
        } else {
            if forall|g: Seq<char>| !writers.contains(g) {
                assert(writers =~= Set::empty());
            }
            let g = choose|g: Seq<char>| writers.contains(g);
            assert(writer_leaves(s, zid, guids, g));
        }
        if info.nodes.contains_key(key) {
            let node = info.nodes[key];
            lemma_left_in(node.readers, |g: Seq<char>| !readers.contains(g), gid);
            lemma_left_in(node.writers, |g: Seq<char>| !writers.contains(g), gid);
            let left = node.without_all(readers, writers);
            if left.readers.contains(gid) {
                assert(left.readers.len() > 0);
            }
            if left.writers.contains(gid) {
                assert(left.writers.len() > 0);
            }
        }
    }
}

/// ROS discovery is reliable and kept for late readers, does not see what the bridge itself writes,
/// has the history that is asked for, and is otherwise as DDS does it by default.
pub proof fn law_qos_of_ros_discovery(history: History)
    ensures
        ({
            let qos = ros_discovery_qos(history);
            &&& qos.reliability.kind == ReliabilityKind::RELIABLE
            &&& qos.reliability.max_blocking_time == i64::MAX
            &&& qos.durability.kind == DurabilityKind::TRANSIENT_LOCAL
            &&& qos.history == history
            &&& qos.ignore_local_participant
            &&& qos == QosView {
                reliability: qos.reliability,
                durability: qos.durability,
                history,
                ignore_local_participant: true,
                ..default_qos()
            }
        }),
{
}

/// The ids that have to be known to pass nodes on are those of the DDS readers and writers of the routes that serve
/// one of their endpoints, and no others.
pub proof fn law_which_ids_have_to_be_known(s: RuntimeView, guids: Map<i32, String>, nodes: Map<Seq<char>, NodeView>)
    ensures
        s.all_guids_known(guids, nodes) <==> {
            &&& forall|key: Seq<char>, i: int, ke: Seq<char>, admin: Seq<char>|
                nodes.contains_key(key) && 0 <= i < nodes[key].readers.len() && #[trigger] serves_reader(
                    s,
                    ke,
                    admin,
                    #[trigger] nodes[key].readers[i],
                ) ==> guids.contains_key(s.routes_from[ke].dds_reader)
            &&& forall|key: Seq<char>, i: int, ke: Seq<char>, admin: Seq<char>|
                nodes.contains_key(key) && 0 <= i < nodes[key].writers.len() && #[trigger] serves_writer(
                    s,
                    ke,
                    admin,
                    #[trigger] nodes[key].writers[i],
                ) ==> guids.contains_key(s.routes_to[ke].dds_writer)
        },
{
    if s.all_guids_known(guids, nodes) {
        assert forall|key: Seq<char>, i: int, ke: Seq<char>, admin: Seq<char>|
            nodes.contains_key(key) && 0 <= i < nodes[key].readers.len() && #[trigger] serves_reader(
                s,
                ke,
                admin,
                #[trigger] nodes[key].readers[i],
            ) implies guids.contains_key(s.routes_from[ke].dds_reader) by {
            assert(s.guids_known_for(guids, nodes[key]));
            assert(s.routes_reader(ke, nodes[key].readers[i]));
        }
        assert forall|key: Seq<char>, i: int, ke: Seq<char>, admin: Seq<char>|
            nodes.contains_key(key) && 0 <= i < nodes[key].writers.len() && #[trigger] serves_writer(
                s,
                ke,
                admin,
                #[trigger] nodes[key].writers[i],
            ) implies guids.contains_key(s.routes_to[ke].dds_writer) by {
            assert(s.guids_known_for(guids, nodes[key]));
            assert(s.routes_writer(ke, nodes[key].writers[i]));
        }
    } else {
        let key = choose|key: Seq<char>| #[trigger] nodes.contains_key(key) && !s.guids_known_for(guids, nodes[key]);
        let node = nodes[key];
        if exists|i: int, ke: Seq<char>|
            0 <= i < node.readers.len() && #[trigger] s.routes_reader(ke, node.readers[i]) && !guids.contains_key(
                s.routes_from[ke].dds_reader,
            ) {
            let (i, ke) = choose|i: int, ke: Seq<char>|
                0 <= i < node.readers.len() && #[trigger] s.routes_reader(ke, node.readers[i]) && !guids.contains_key(
                    s.routes_from[ke].dds_reader,
                );
            let admin = choose|admin: Seq<char>|
                s.routes_from[ke].remote.contains(admin) && occurs(admin, node.readers[i]);
            assert(serves_reader(s, ke, admin, nodes[key].readers[i]));
        } else {
            let (i, ke) = choose|i: int, ke: Seq<char>|
                0 <= i < node.writers.len() && #[trigger] s.routes_writer(ke, node.writers[i]) && !guids.contains_key(
                    s.routes_to[ke].dds_writer,
                );
            let admin = choose|admin: Seq<char>|
                s.routes_to[ke].remote.contains(admin) && occurs(admin, node.writers[i]);
            assert(serves_writer(s, ke, admin, nodes[key].writers[i]));
        }
    }
}

/// How nodes are shown: each by its full name and the numbers of its endpoints, in the order of the walk.
pub proof fn law_nodes_are_shown(
    nodes: Map<Seq<char>, NodeView>,
    one: Seq<Seq<char>>,
    other: Seq<Seq<char>>,
    key: Seq<char>,
    readers: u64,
    writers: u64,
)
    requires
        nodes[key].readers.len() == readers,
        nodes[key].writers.len() == writers,
    ensures
        shown_nodes(nodes, seq![]).len() == 0,
        shown_nodes(nodes, one + other) == shown_nodes(nodes, one) + shown_nodes(nodes, other),
        shown_nodes(nodes, seq![key]) == "("@ + nodes[key].shown() + "), "@,
        nodes[key].shown() == "Node "@ + nodes[key].namespace + nodes[key].name + " : "@ + decimal_text(readers as nat)
            + " pub / "@ + decimal_text(writers as nat) + " sub"@,
    decreases other.len(),
{
    reveal_with_fuel(shown_nodes, 2);
    assert(seq![key].drop_last() =~= Seq::<Seq<char>>::empty());
    assert(shown_nodes(nodes, seq![key]) =~= "("@ + nodes[key].shown() + "), "@);
    if other.len() == 0 {
        assert(one + other =~= one);
        assert(shown_nodes(nodes, one) + shown_nodes(nodes, other) =~= shown_nodes(nodes, one));
    } else {
        assert((one + other).drop_last() =~= one + other.drop_last());
        law_nodes_are_shown(nodes, one, other.drop_last(), key, readers, writers);
        assert(shown_nodes(nodes, one + other) =~= shown_nodes(nodes, one) + shown_nodes(nodes, other));
    }
}

} // verus!
