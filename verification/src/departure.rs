//! What the bridge does when another bridge has left.
use std::collections::HashMap;

use vstd::prelude::*;

use crate::changes::{
    lemma_same_dropped_from, lists_dropped_from, lists_dropped_to, DeletedWriter, DroppedFromDds, DroppedToDds, FromChange,
    FromChangeView, ToChange, ToChangeView,
};
use crate::keys::KE_PREFIX_ADMIN_SPACE;
use crate::ros_discovery::{lemma_without_all, nonempty_nodes, NodeView, ParticipantEntitiesInfo, ParticipantInfoView};
use crate::runtime::{DdsPluginRuntime, RuntimeView};
use crate::text::concat;

verus! {

broadcast use vstd::std_specs::hash::group_hash_axioms;

/// What stands in the admin keys of all endpoints of a bridge: `<admin space>/<id>/dds/`.
pub open spec fn bridge_part(zid: Seq<char>) -> Seq<char> {
    KE_PREFIX_ADMIN_SPACE@ + "/"@ + zid + "/dds/"@
}

/// Whether `gid` is the id of the DDS writer of one of the routes.
pub open spec fn writer_of(dropped: Seq<DroppedToDds>, guids: Map<i32, String>, gid: Seq<char>) -> bool {
    exists|i: int|
        0 <= i < dropped.len() && guids.contains_key((#[trigger] dropped[i]).route.dds_writer)
            && guids[dropped[i].route.dds_writer]@ == gid
}

/// Whether `gid` is the id of the DDS reader of one of the routes.
pub open spec fn reader_of(dropped: Seq<DroppedFromDds>, guids: Map<i32, String>, gid: Seq<char>) -> bool {
    exists|i: int|
        0 <= i < dropped.len() && guids.contains_key((#[trigger] dropped[i]).route.dds_reader)
            && guids[dropped[i].route.dds_reader]@ == gid
}

impl RuntimeView {
    /// Without what served only a bridge that has left.
    pub open spec fn bridge_gone(self, zid: Seq<char>) -> RuntimeView {
        self.changed_to(ToChangeView::BridgeGone(bridge_part(zid))).changed_from(
            FromChangeView::BridgeGone(bridge_part(zid)),
        )
    }

    /// The ids of the DDS writers that go with a bridge.
    pub open spec fn leaving_writers(self, zid: Seq<char>, guids: Map<i32, String>) -> Set<Seq<char>> {
        Set::new(
            |gid: Seq<char>|
                exists|ke: Seq<char>| #[trigger]
                    self.drops_to(ToChangeView::BridgeGone(bridge_part(zid)), ke) && guids.contains_key(
                        self.routes_to[ke].dds_writer,
                    ) && guids[self.routes_to[ke].dds_writer]@ == gid,
        )
    }

    /// The ids of the DDS readers that go with a bridge.
    pub open spec fn leaving_readers(self, zid: Seq<char>, guids: Map<i32, String>) -> Set<Seq<char>> {
        Set::new(
            |gid: Seq<char>|
                exists|ke: Seq<char>| #[trigger]
                    self.drops_from(FromChangeView::BridgeGone(bridge_part(zid)), ke) && guids.contains_key(
                        self.routes_from[ke].dds_reader,
                    ) && guids[self.routes_from[ke].dds_reader]@ == gid,
        )
    }

    /// Whether what is told of ROS nodes changes when a bridge leaves.
    pub open spec fn departure_is_told(self, zid: Seq<char>, guids: Map<i32, String>) -> bool {
        self.leaving_writers(zid, guids) != Set::<Seq<char>>::empty() || self.leaving_readers(zid, guids) != Set::<
            Seq<char>,
        >::empty()
    }

    /// What is told of ROS nodes when a bridge has left: nothing of the DDS readers and writers that went with it.
    pub open spec fn told_after_departure(
        self,
        zid: Seq<char>,
        guids: Map<i32, String>,
        info: ParticipantInfoView,
    ) -> ParticipantInfoView {
        if self.departure_is_told(zid, guids) {
            ParticipantInfoView {
                nodes: nonempty_nodes(
                    info.nodes.map_values(
                        |n: NodeView| n.without_all(self.leaving_readers(zid, guids), self.leaving_writers(zid, guids)),
                    ),
                ),
                ..info
            }
        } else {
            info
        }
    }
}

/// Removes the DDS writers of some routes from all nodes. Says whether the id of one is known.
fn forget_writers(
    info: &mut ParticipantEntitiesInfo,
    dropped: &Vec<DroppedToDds>,
    guids: &HashMap<i32, String>,
) -> (changed: bool)
    ensures
        final(info)@ == (ParticipantInfoView {
            nodes: old(info)@.nodes.map_values(
                |n: NodeView| n.without_all(Set::empty(), Set::new(|g: Seq<char>| writer_of(dropped@, guids@, g))),
            ),
            ..old(info)@
        }),
        changed <==> exists|g: Seq<char>| writer_of(dropped@, guids@, g),
{
    let ghost known = info@;
    let ghost mut gone = Set::<Seq<char>>::empty();
    let mut changed: bool = false;
    let mut i: usize = 0;
    proof {
        assert forall|k: Seq<char>| #[trigger] known.nodes.contains_key(k) implies known.nodes[k].without_all(
            Set::empty(),
            gone,
        ) == known.nodes[k] by {
            lemma_without_all(known.nodes[k], Set::empty(), gone, seq![]);
        }
        assert(info@.nodes =~= known.nodes.map_values(|n: NodeView| n.without_all(Set::empty(), gone)));
    }
    while i < dropped.len()
        invariant
            i <= dropped@.len(),
            info@.gid == known.gid,
            info@.nodes == known.nodes.map_values(|n: NodeView| n.without_all(Set::empty(), gone)),
            forall|g: Seq<char>| #[trigger] gone.contains(g) <==> writer_of(dropped@.take(i as int), guids@, g),
            changed <==> gone != Set::<Seq<char>>::empty(),
        decreases dropped@.len() - i,
    {
        let ghost gone_before = gone;
        proof {
            lemma_writer_of_next(dropped@, guids@, i as int);
        }
        if let Some(guid) = guids.get(&dropped[i].route.dds_writer) {
            info.remove_writer_gid(guid.as_str());
            changed = true;
            proof {
                gone = gone.insert(guid@);
                assert(gone.contains(guid@));
                assert forall|k: Seq<char>| #[trigger] known.nodes.contains_key(k) implies known.nodes[k].without_all(
                    Set::empty(),
                    gone_before,
                ).without_writer(guid@) == known.nodes[k].without_all(Set::empty(), gone) by {
                    lemma_without_all(known.nodes[k], Set::empty(), gone_before, guid@);
                }
                assert(info@.nodes =~= known.nodes.map_values(|n: NodeView| n.without_all(Set::empty(), gone)));
            }
        }
        i += 1;
    }
    proof {
        assert(dropped@.take(i as int) =~= dropped@);
        assert(gone =~= Set::new(|g: Seq<char>| writer_of(dropped@, guids@, g)));
        if exists|g: Seq<char>| writer_of(dropped@, guids@, g) {
            let g = choose|g: Seq<char>| writer_of(dropped@, guids@, g);
            assert(gone.contains(g));
        }
        if gone != Set::<Seq<char>>::empty() {
            let g = gone.choose();
            assert(gone.contains(g)) by {
                if !exists|g: Seq<char>| gone.contains(g) {
                    assert(gone =~= Set::empty());
                }
            }
        }
    }
    changed
}

proof fn lemma_writer_of_next(dropped: Seq<DroppedToDds>, guids: Map<i32, String>, i: int)
    requires
        0 <= i < dropped.len(),
    ensures
        forall|g: Seq<char>| #[trigger]
            writer_of(dropped.take(i + 1), guids, g) <==> writer_of(dropped.take(i), guids, g) || (guids.contains_key(
                dropped[i].route.dds_writer,
            ) && guids[dropped[i].route.dds_writer]@ == g),
{
    let before = dropped.take(i);
    let after = dropped.take(i + 1);
    assert forall|g: Seq<char>| #[trigger]
        writer_of(after, guids, g) <==> writer_of(before, guids, g) || (guids.contains_key(dropped[i].route.dds_writer)
            && guids[dropped[i].route.dds_writer]@ == g) by {
        if writer_of(before, guids, g) {
            let j = choose|j: int|
                0 <= j < before.len() && guids.contains_key((#[trigger] before[j]).route.dds_writer)
                    && guids[before[j].route.dds_writer]@ == g;
            assert(after[j] == before[j]);
        }
        if writer_of(after, guids, g) {
            let j = choose|j: int|
                0 <= j < after.len() && guids.contains_key((#[trigger] after[j]).route.dds_writer)
                    && guids[after[j].route.dds_writer]@ == g;
            if j < i {
                assert(before[j] == after[j]);
            }
        }
        assert(after[i] == dropped[i]);
    }
}

/// Removes the DDS readers of some routes from all nodes. Says whether the id of one is known.
fn forget_readers(
    info: &mut ParticipantEntitiesInfo,
    dropped: &Vec<DroppedFromDds>,
    guids: &HashMap<i32, String>,
) -> (changed: bool)
    ensures
        final(info)@ == (ParticipantInfoView {
            nodes: old(info)@.nodes.map_values(
                |n: NodeView| n.without_all(Set::new(|g: Seq<char>| reader_of(dropped@, guids@, g)), Set::empty()),
            ),
            ..old(info)@
        }),
        changed <==> exists|g: Seq<char>| reader_of(dropped@, guids@, g),
{
    let ghost known = info@;
    let ghost mut gone = Set::<Seq<char>>::empty();
    let mut changed: bool = false;
    let mut i: usize = 0;
    proof {
        assert forall|k: Seq<char>| #[trigger] known.nodes.contains_key(k) implies known.nodes[k].without_all(
            gone,
            Set::empty(),
        ) == known.nodes[k] by {
            lemma_without_all(known.nodes[k], gone, Set::empty(), seq![]);
        }
        assert(info@.nodes =~= known.nodes.map_values(|n: NodeView| n.without_all(gone, Set::empty())));
    }
    while i < dropped.len()
        invariant
            i <= dropped@.len(),
            info@.gid == known.gid,
            info@.nodes == known.nodes.map_values(|n: NodeView| n.without_all(gone, Set::empty())),
            forall|g: Seq<char>| #[trigger] gone.contains(g) <==> reader_of(dropped@.take(i as int), guids@, g),
            changed <==> gone != Set::<Seq<char>>::empty(),
        decreases dropped@.len() - i,
    {
        let ghost gone_before = gone;
        proof {
            lemma_reader_of_next(dropped@, guids@, i as int);
        }
        if let Some(guid) = guids.get(&dropped[i].route.dds_reader) {
            info.remove_reader_gid(guid.as_str());
            changed = true;
            proof {
                gone = gone.insert(guid@);
                assert(gone.contains(guid@));
                assert forall|k: Seq<char>| #[trigger] known.nodes.contains_key(k) implies known.nodes[k].without_all(
                    gone_before,
                    Set::empty(),
                ).without_reader(guid@) == known.nodes[k].without_all(gone, Set::empty()) by {
                    lemma_without_all(known.nodes[k], gone_before, Set::empty(), guid@);
                }
                assert(info@.nodes =~= known.nodes.map_values(|n: NodeView| n.without_all(gone, Set::empty())));
            }
        }
        i += 1;
    }
    proof {
        assert(dropped@.take(i as int) =~= dropped@);
        assert(gone =~= Set::new(|g: Seq<char>| reader_of(dropped@, guids@, g)));
        if exists|g: Seq<char>| reader_of(dropped@, guids@, g) {
            let g = choose|g: Seq<char>| reader_of(dropped@, guids@, g);
            assert(gone.contains(g));
        }
        if gone != Set::<Seq<char>>::empty() {
            let g = gone.choose();
            assert(gone.contains(g)) by {
                if !exists|g: Seq<char>| gone.contains(g) {
                    assert(gone =~= Set::empty());
                }
            }
        }
    }
    changed
}

proof fn lemma_reader_of_next(dropped: Seq<DroppedFromDds>, guids: Map<i32, String>, i: int)
    requires
        0 <= i < dropped.len(),
    ensures
        forall|g: Seq<char>| #[trigger]
            reader_of(dropped.take(i + 1), guids, g) <==> reader_of(dropped.take(i), guids, g) || (guids.contains_key(
                dropped[i].route.dds_reader,
            ) && guids[dropped[i].route.dds_reader]@ == g),
{
    let before = dropped.take(i);
    let after = dropped.take(i + 1);
    assert forall|g: Seq<char>| #[trigger]
        reader_of(after, guids, g) <==> reader_of(before, guids, g) || (guids.contains_key(dropped[i].route.dds_reader)
            && guids[dropped[i].route.dds_reader]@ == g) by {
        if reader_of(before, guids, g) {
            let j = choose|j: int|
                0 <= j < before.len() && guids.contains_key((#[trigger] before[j]).route.dds_reader)
                    && guids[before[j].route.dds_reader]@ == g;
            assert(after[j] == before[j]);
        }
        if reader_of(after, guids, g) {
            let j = choose|j: int|
                0 <= j < after.len() && guids.contains_key((#[trigger] after[j]).route.dds_reader)
                    && guids[after[j].route.dds_reader]@ == g;
            if j < i {
                assert(before[j] == after[j]);
            }
        }
        assert(after[i] == dropped[i]);
    }
}

impl DdsPluginRuntime {
    /// Takes in that another bridge has left, where `guids` are the ids of the DDS entities of the routes. Gives back
    /// the routes that are no longer used, and whether what is told of ROS nodes has changed.
    pub fn bridge_left(
        &mut self,
        zid: &str,
        guids: &HashMap<i32, String>,
        info: &mut ParticipantEntitiesInfo,
    ) -> (left: (Vec<DroppedToDds>, Vec<DroppedFromDds>, bool))
        requires
            old(self)@.wf(),
        ensures
            final(self)@ == old(self)@.bridge_gone(zid@),
            lists_dropped_to(left.0@, old(self)@, ToChangeView::BridgeGone(bridge_part(zid@))),
            lists_dropped_from(left.1@, old(self)@, FromChangeView::BridgeGone(bridge_part(zid@))),
            left.2 == old(self)@.departure_is_told(zid@, guids@),
            final(info)@ == old(self)@.told_after_departure(zid@, guids@, old(info)@),
            final(self)@.wf(),
    {
        let ghost before = self@;
        let ghost known = info@;
        let mut part: String = concat(KE_PREFIX_ADMIN_SPACE, "/");
        part.append(zid);
        part.append("/dds/");
        let (to_dds, _deleted): (Vec<DroppedToDds>, Vec<DeletedWriter>) = self.change_routes_to_dds(
            &ToChange::BridgeGone(part.clone()),
        );
        let ghost between = self@;
        let from_dds: Vec<DroppedFromDds> = self.change_routes_from_dds(&FromChange::BridgeGone(part));
        let writers_changed: bool = forget_writers(info, &to_dds, guids);
        let readers_changed: bool = forget_readers(info, &from_dds, guids);
        let changed: bool = writers_changed || readers_changed;
        proof {
            let readers = before.leaving_readers(zid@, guids@);
            let writers = before.leaving_writers(zid@, guids@);
            lemma_same_dropped_from(from_dds@, between, before, FromChangeView::BridgeGone(bridge_part(zid@)));
            lemma_leaving_writers(before, zid@, guids@, to_dds@);
            lemma_leaving_readers(before, zid@, guids@, from_dds@);
            assert(Set::new(|g: Seq<char>| writer_of(to_dds@, guids@, g)) =~= writers);
            assert(Set::new(|g: Seq<char>| reader_of(from_dds@, guids@, g)) =~= readers);
            assert forall|k: Seq<char>| #[trigger] known.nodes.contains_key(k) implies info@.nodes[k]
                == known.nodes[k].without_all(readers, writers) by {
                lemma_both_without(known.nodes[k], readers, writers);
            }
            assert(info@.nodes =~= known.nodes.map_values(|n: NodeView| n.without_all(readers, writers)));
            assert(changed == before.departure_is_told(zid@, guids@)) by {
                lemma_nonempty(writers);
                lemma_nonempty(readers);
                assert forall|g: Seq<char>| writers.contains(g) == writer_of(to_dds@, guids@, g) by {}
                assert forall|g: Seq<char>| readers.contains(g) == reader_of(from_dds@, guids@, g) by {}
            }
            if !changed {
                assert(readers =~= Set::empty());
                assert(writers =~= Set::empty());
                assert forall|k: Seq<char>| #[trigger] known.nodes.contains_key(k) implies known.nodes[k].without_all(
                    readers,
                    writers,
                ) == known.nodes[k] by {
                    lemma_without_all(known.nodes[k], readers, writers, seq![]);
                }
                assert(info@.nodes =~= known.nodes);
            }
        }
        if changed {
            info.cleanup();
        }
        (to_dds, from_dds, changed)
    }
}

proof fn lemma_nonempty(set: Set<Seq<char>>)
    ensures
        set != Set::<Seq<char>>::empty() <==> exists|g: Seq<char>| set.contains(g),
{
    if !exists|g: Seq<char>| set.contains(g) {
        assert(set =~= Set::empty());
    }
}

proof fn lemma_both_without(node: NodeView, readers: Set<Seq<char>>, writers: Set<Seq<char>>)
    ensures
        node.without_all(Set::empty(), writers).without_all(readers, Set::empty()) == node.without_all(
            readers,
            writers,
        ),
{
    lemma_without_all(node, Set::empty(), Set::empty(), seq![]);
    lemma_without_all(node.without_all(readers, writers), Set::empty(), Set::empty(), seq![]);
}

/// The ids of the DDS writers that go with a bridge are those of the routes that go.
proof fn lemma_leaving_writers(s: RuntimeView, zid: Seq<char>, guids: Map<i32, String>, dropped: Seq<DroppedToDds>)
    requires
        lists_dropped_to(dropped, s, ToChangeView::BridgeGone(bridge_part(zid))),
    ensures
        forall|g: Seq<char>| #[trigger] writer_of(dropped, guids, g) <==> s.leaving_writers(zid, guids).contains(g),
{
    let change = ToChangeView::BridgeGone(bridge_part(zid));
    assert forall|g: Seq<char>| #[trigger]
        writer_of(dropped, guids, g) <==> s.leaving_writers(zid, guids).contains(g) by {
        if writer_of(dropped, guids, g) {
            let i = choose|i: int|
                0 <= i < dropped.len() && guids.contains_key((#[trigger] dropped[i]).route.dds_writer)
                    && guids[dropped[i].route.dds_writer]@ == g;
            let ke = dropped[i].key@;
            assert(s.drops_to(change, ke));
            assert(dropped[i].route@.dds_writer == dropped[i].route.dds_writer);
        }
        if s.leaving_writers(zid, guids).contains(g) {
            let ke = choose|ke: Seq<char>| #[trigger]
                s.drops_to(change, ke) && guids.contains_key(s.routes_to[ke].dds_writer)
                    && guids[s.routes_to[ke].dds_writer]@ == g;
            let i = choose|i: int| 0 <= i < dropped.len() && #[trigger] dropped[i].key@ == ke;
            assert(dropped[i].route@.dds_writer == dropped[i].route.dds_writer);
        }
    }
}

/// The ids of the DDS readers that go with a bridge are those of the routes that go.
proof fn lemma_leaving_readers(s: RuntimeView, zid: Seq<char>, guids: Map<i32, String>, dropped: Seq<DroppedFromDds>)
    requires
        lists_dropped_from(dropped, s, FromChangeView::BridgeGone(bridge_part(zid))),
    ensures
        forall|g: Seq<char>| #[trigger] reader_of(dropped, guids, g) <==> s.leaving_readers(zid, guids).contains(g),
{
    let change = FromChangeView::BridgeGone(bridge_part(zid));
    assert forall|g: Seq<char>| #[trigger]
        reader_of(dropped, guids, g) <==> s.leaving_readers(zid, guids).contains(g) by {
        if reader_of(dropped, guids, g) {
            let i = choose|i: int|
                0 <= i < dropped.len() && guids.contains_key((#[trigger] dropped[i]).route.dds_reader)
                    && guids[dropped[i].route.dds_reader]@ == g;
            let ke = dropped[i].key@;
            assert(s.drops_from(change, ke));
            assert(dropped[i].route@.dds_reader == dropped[i].route.dds_reader);
        }
        if s.leaving_readers(zid, guids).contains(g) {
            let ke = choose|ke: Seq<char>| #[trigger]
                s.drops_from(change, ke) && guids.contains_key(s.routes_from[ke].dds_reader)
                    && guids[s.routes_from[ke].dds_reader]@ == g;
            let i = choose|i: int| 0 <= i < dropped.len() && #[trigger] dropped[i].key@ == ke;
            assert(dropped[i].route@.dds_reader == dropped[i].route.dds_reader);
        }
    }
}

} // verus!
