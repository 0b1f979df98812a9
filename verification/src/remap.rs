//! The ids under which the endpoints of other bridges appear here.
use std::collections::HashMap;

use vstd::prelude::*;

use crate::collections::KeyMap;
use crate::ros_discovery::{nonempty_nodes, NodeEntitiesInfo, NodeView, ParticipantEntitiesInfo, ParticipantInfoView};
use crate::runtime::{DdsPluginRuntime, RuntimeView};
use crate::text::{occurs, texts};

verus! {

broadcast use vstd::std_specs::hash::group_hash_axioms;

/// Whether `gid` stands in the admin key of one of the endpoints.
pub open spec fn any_of(endpoints: Set<Seq<char>>, gid: Seq<char>) -> bool {
    exists|admin: Seq<char>| endpoints.contains(admin) && occurs(admin, gid)
}

impl RuntimeView {
    /// Whether the route from DDS for `ke` serves the remote reader `gid`.
    pub open spec fn routes_reader(self, ke: Seq<char>, gid: Seq<char>) -> bool {
        self.routes_from.contains_key(ke) && any_of(self.routes_from[ke].remote, gid)
    }

    /// Whether the route to DDS for `ke` serves the remote writer `gid`.
    pub open spec fn routes_writer(self, ke: Seq<char>, gid: Seq<char>) -> bool {
        self.routes_to.contains_key(ke) && any_of(self.routes_to[ke].remote, gid)
    }

    /// Whether a route serves the remote reader `gid`.
    pub open spec fn reader_routed(self, gid: Seq<char>) -> bool {
        exists|ke: Seq<char>| self.routes_reader(ke, gid)
    }

    /// Whether a route serves the remote writer `gid`.
    pub open spec fn writer_routed(self, gid: Seq<char>) -> bool {
        exists|ke: Seq<char>| self.routes_writer(ke, gid)
    }

    /// Whether `new` is the id of the DDS reader of a route that serves the remote reader `gid`.
    pub open spec fn reader_gid_for(self, guids: Map<i32, String>, gid: Seq<char>, new: Seq<char>) -> bool {
        exists|ke: Seq<char>| #[trigger]
            self.routes_reader(ke, gid) && guids.contains_key(self.routes_from[ke].dds_reader)
                && guids[self.routes_from[ke].dds_reader]@ == new
    }

    /// Whether `new` is the id of the DDS writer of a route that serves the remote writer `gid`.
    pub open spec fn writer_gid_for(self, guids: Map<i32, String>, gid: Seq<char>, new: Seq<char>) -> bool {
        exists|ke: Seq<char>| #[trigger]
            self.routes_writer(ke, gid) && guids.contains_key(self.routes_to[ke].dds_writer)
                && guids[self.routes_to[ke].dds_writer]@ == new
    }

    /// Whether `new` are the ids of the routes that serve the remote readers `old`, in the same order;
    /// readers that no route serves have none.
    pub open spec fn readers_remapped(
        self,
        guids: Map<i32, String>,
        old: Seq<Seq<char>>,
        new: Seq<Seq<char>>,
    ) -> bool
        decreases old.len(),
    {
        if old.len() == 0 {
            new.len() == 0
        } else if self.reader_routed(old.last()) {
            &&& new.len() > 0
            &&& self.reader_gid_for(guids, old.last(), new.last())
            &&& self.readers_remapped(guids, old.drop_last(), new.drop_last())
        } else {
            self.readers_remapped(guids, old.drop_last(), new)
        }
    }

    /// Whether `new` are the ids of the routes that serve the remote writers `old`, in the same order;
    /// writers that no route serves have none.
    pub open spec fn writers_remapped(
        self,
        guids: Map<i32, String>,
        old: Seq<Seq<char>>,
        new: Seq<Seq<char>>,
    ) -> bool
        decreases old.len(),
    {
        if old.len() == 0 {
            new.len() == 0
        } else if self.writer_routed(old.last()) {
            &&& new.len() > 0
            &&& self.writer_gid_for(guids, old.last(), new.last())
            &&& self.writers_remapped(guids, old.drop_last(), new.drop_last())
        } else {
            self.writers_remapped(guids, old.drop_last(), new)
        }
    }

    /// Whether the ids of the DDS readers and writers are known for all routes
    /// that serve an endpoint of a node.
    pub open spec fn guids_known_for(self, guids: Map<i32, String>, node: NodeView) -> bool {
        &&& forall|i: int, ke: Seq<char>|
            0 <= i < node.readers.len() && #[trigger] self.routes_reader(ke, node.readers[i]) ==> guids.contains_key(
                self.routes_from[ke].dds_reader,
            )
        &&& forall|i: int, ke: Seq<char>|
            0 <= i < node.writers.len() && #[trigger] self.routes_writer(ke, node.writers[i]) ==> guids.contains_key(
                self.routes_to[ke].dds_writer,
            )
    }

    /// Whether `new` is the node `old` with the ids of the routes that serve its endpoints here.
    pub open spec fn node_remapped(self, guids: Map<i32, String>, old: NodeView, new: NodeView) -> bool {
        &&& new.namespace == old.namespace
        &&& new.name == old.name
        &&& self.readers_remapped(guids, old.readers, new.readers)
        &&& self.writers_remapped(guids, old.writers, new.writers)
    }

    /// Whether the ids of the DDS readers and writers are known for all routes that serve an endpoint of the nodes.
    pub open spec fn all_guids_known(self, guids: Map<i32, String>, nodes: Map<Seq<char>, NodeView>) -> bool {
        forall|k: Seq<char>| #[trigger] nodes.contains_key(k) ==> self.guids_known_for(guids, nodes[k])
    }

    /// Whether `new` are the nodes `old` with the ids of the routes that serve their endpoints here.
    pub open spec fn nodes_remapped(
        self,
        guids: Map<i32, String>,
        old: Map<Seq<char>, NodeView>,
        new: Map<Seq<char>, NodeView>,
    ) -> bool {
        &&& new.dom() == old.dom()
        &&& forall|k: Seq<char>| #[trigger] new.contains_key(k) ==> self.node_remapped(guids, old[k], new[k])
    }
}

impl DdsPluginRuntime {
    /// The DDS reader of a route that serves the remote reader `gid`, if one does.
    fn find_reader_route(&self, gid: &str) -> (reader: Option<i32>)
        ensures
            match reader {
                Some(r) => exists|ke: Seq<char>| #[trigger]
                    self@.routes_reader(ke, gid@) && self@.routes_from[ke].dds_reader == r,
                None => !self@.reader_routed(gid@),
            },
    {
        let n: usize = self.routes_from_dds.len();
        let ghost order = self.routes_from_dds.order();
        let mut i: usize = 0;
        while i < n
            invariant
                i <= n,
                n == order.len(),
                order == self.routes_from_dds.order(),
                order.to_set() == self@.routes_from.dom(),
                forall|j: int| 0 <= j < i ==> !self@.routes_reader(#[trigger] order[j], gid@),
            decreases n - i,
        {
            let route = self.routes_from_dds.value_at(i);
            if route.is_routing_remote_reader(gid) {
                assert(self@.routes_reader(order[i as int], gid@));
                return Some(route.dds_reader);
            }
            assert(!self@.routes_reader(order[i as int], gid@));
            i += 1;
        }
        assert forall|ke: Seq<char>| !self@.routes_reader(ke, gid@) by {
            if self@.routes_from.contains_key(ke) {
                assert(order.to_set().contains(ke));
                let j = order.index_of(ke);
                assert(order[j] == ke);
            }
        }
        None
    }

    /// The DDS writer of a route that serves the remote writer `gid`, if one does.
    fn find_writer_route(&self, gid: &str) -> (writer: Option<i32>)
        ensures
            match writer {
                Some(w) => exists|ke: Seq<char>| #[trigger]
                    self@.routes_writer(ke, gid@) && self@.routes_to[ke].dds_writer == w,
                None => !self@.writer_routed(gid@),
            },
    {
        let n: usize = self.routes_to_dds.len();
        let ghost order = self.routes_to_dds.order();
        let mut i: usize = 0;
        while i < n
            invariant
                i <= n,
                n == order.len(),
                order == self.routes_to_dds.order(),
                order.to_set() == self@.routes_to.dom(),
                forall|j: int| 0 <= j < i ==> !self@.routes_writer(#[trigger] order[j], gid@),
            decreases n - i,
        {
            let route = self.routes_to_dds.value_at(i);
            if route.is_routing_remote_writer(gid) {
                assert(self@.routes_writer(order[i as int], gid@));
                return Some(route.dds_writer);
            }
            assert(!self@.routes_writer(order[i as int], gid@));
            i += 1;
        }
        assert forall|ke: Seq<char>| !self@.routes_writer(ke, gid@) by {
            if self@.routes_to.contains_key(ke) {
                assert(order.to_set().contains(ke));
                let j = order.index_of(ke);
                assert(order[j] == ke);
            }
        }
        None
    }

    /// The ids of the routes that serve remote readers.
    fn remap_readers(&self, gids: &Vec<String>, guids: &HashMap<i32, String>) -> (mapped: Vec<String>)
        requires
            forall|i: int, ke: Seq<char>|
                0 <= i < gids@.len() && #[trigger] self@.routes_reader(ke, texts(gids@)[i]) ==> guids@.contains_key(
                    self@.routes_from[ke].dds_reader,
                ),
        ensures
            self@.readers_remapped(guids@, texts(gids@), texts(mapped@)),
    {
        let ghost all = texts(gids@);
        let mut mapped: Vec<String> = Vec::new();
        let mut i: usize = 0;
        while i < gids.len()
            invariant
                i <= gids@.len(),
                all == texts(gids@),
                forall|j: int, ke: Seq<char>|
                    0 <= j < gids@.len() && #[trigger] self@.routes_reader(ke, all[j]) ==> guids@.contains_key(
                        self@.routes_from[ke].dds_reader,
                    ),
                self@.readers_remapped(guids@, all.take(i as int), texts(mapped@)),
            decreases gids@.len() - i,
        {
            let ghost before = mapped@;
            proof {
                assert(all[i as int] == gids@[i as int]@);
                assert(all.take(i + 1).drop_last() =~= all.take(i as int));
                assert(all.take(i + 1).last() == gids@[i as int]@);
            }
            match self.find_reader_route(gids[i].as_str()) {
                Some(reader) => {
                    let ghost ke = choose|ke: Seq<char>| #[trigger]
                        self@.routes_reader(ke, gids@[i as int]@) && self@.routes_from[ke].dds_reader == reader;
                    assert(self@.routes_reader(ke, all[i as int]));
                    assert(guids@.contains_key(reader));
                    if let Some(guid) = guids.get(&reader) {
                        mapped.push(guid.clone());
                        assert(texts(mapped@) =~= texts(before).push(guid@));
                        assert(texts(mapped@).drop_last() =~= texts(before));
                        assert(self@.reader_gid_for(guids@, gids@[i as int]@, guid@));
                    }
                },
                None => {},
            }
            i += 1;
        }
        assert(all.take(i as int) =~= all);
        mapped
    }

    /// The ids of the routes that serve remote writers.
    fn remap_writers(&self, gids: &Vec<String>, guids: &HashMap<i32, String>) -> (mapped: Vec<String>)
        requires
            forall|i: int, ke: Seq<char>|
                0 <= i < gids@.len() && #[trigger] self@.routes_writer(ke, texts(gids@)[i]) ==> guids@.contains_key(
                    self@.routes_to[ke].dds_writer,
                ),
        ensures
            self@.writers_remapped(guids@, texts(gids@), texts(mapped@)),
    {
        let ghost all = texts(gids@);
        let mut mapped: Vec<String> = Vec::new();
        let mut i: usize = 0;
        while i < gids.len()
            invariant
                i <= gids@.len(),
                all == texts(gids@),
                forall|j: int, ke: Seq<char>|
                    0 <= j < gids@.len() && #[trigger] self@.routes_writer(ke, all[j]) ==> guids@.contains_key(
                        self@.routes_to[ke].dds_writer,
                    ),
                self@.writers_remapped(guids@, all.take(i as int), texts(mapped@)),
            decreases gids@.len() - i,
        {
            let ghost before = mapped@;
            proof {
                assert(all[i as int] == gids@[i as int]@);
                assert(all.take(i + 1).drop_last() =~= all.take(i as int));
                assert(all.take(i + 1).last() == gids@[i as int]@);
            }
            match self.find_writer_route(gids[i].as_str()) {
                Some(writer) => {
                    let ghost ke = choose|ke: Seq<char>| #[trigger]
                        self@.routes_writer(ke, gids@[i as int]@) && self@.routes_to[ke].dds_writer == writer;
                    assert(self@.routes_writer(ke, all[i as int]));
                    assert(guids@.contains_key(writer));
                    if let Some(guid) = guids.get(&writer) {
                        mapped.push(guid.clone());
                        assert(texts(mapped@) =~= texts(before).push(guid@));
                        assert(texts(mapped@).drop_last() =~= texts(before));
                        assert(self@.writer_gid_for(guids@, gids@[i as int]@, guid@));
                    }
                },
                None => {},
            }
            i += 1;
        }
        assert(all.take(i as int) =~= all);
        mapped
    }

    /// Puts in place of the ids of remote endpoints those of the routes that serve them here, where `guids`
    /// are the ids of the DDS entities of the routes. Endpoints that no route serves are left out.
    pub fn remap_entities_info(&self, entities_info: &mut KeyMap<NodeEntitiesInfo>, guids: &HashMap<i32, String>)
        requires
            self@.all_guids_known(guids@, old(entities_info)@),
        ensures
            self@.nodes_remapped(guids@, old(entities_info)@, final(entities_info)@),
    {
        let ghost all = entities_info@;
        let mut rest: KeyMap<NodeEntitiesInfo> = KeyMap::new();
        std::mem::swap(&mut rest, entities_info);
        loop
            invariant
                forall|k: Seq<char>| #[trigger]
                    all.contains_key(k) ==> self@.guids_known_for(guids@, all[k]),
                forall|k: Seq<char>| #[trigger] rest@.contains_key(k) ==> all.contains_key(k) && rest@[k] == all[k],
                forall|k: Seq<char>| #[trigger]
                    entities_info@.contains_key(k) <==> all.contains_key(k) && !rest@.contains_key(k),
                forall|k: Seq<char>| #[trigger]
                    entities_info@.contains_key(k) ==> self@.node_remapped(guids@, all[k], entities_info@[k]),
            ensures
                rest@ == Map::<Seq<char>, NodeView>::empty(),
            decreases rest.order().len(),
        {
            let ghost rest_before = rest@;
            let ghost done_before = entities_info@;
            match rest.pop() {
                Some((key, node)) => {
                    assert(rest_before.contains_key(key@));
                    let mut node: NodeEntitiesInfo = node;
                    assert(self@.guids_known_for(guids@, node@));
                    node.reader_gid_seq = self.remap_readers(&node.reader_gid_seq, guids);
                    node.writer_gid_seq = self.remap_writers(&node.writer_gid_seq, guids);
                    assert(self@.node_remapped(guids@, all[key@], node@));
                    entities_info.insert(key, node);
                    assert(entities_info@ == done_before.insert(key@, node@));
                },
                None => {
                    break;
                },
            }
        }
        assert(entities_info@.dom() =~= all.dom());
    }

    /// Whether the ids of the DDS readers are known for all routes that serve one of the remote readers.
    fn readers_known(&self, gids: &Vec<String>, guids: &HashMap<i32, String>) -> (known: bool)
        ensures
            known == forall|i: int, ke: Seq<char>|
                0 <= i < gids@.len() && #[trigger] self@.routes_reader(ke, texts(gids@)[i]) ==> guids@.contains_key(
                    self@.routes_from[ke].dds_reader,
                ),
    {
        let n: usize = self.routes_from_dds.len();
        let ghost order = self.routes_from_dds.order();
        let ghost all = texts(gids@);
        let mut i: usize = 0;
        while i < gids.len()
            invariant
                i <= gids@.len(),
                all == texts(gids@),
                n == order.len(),
                order == self.routes_from_dds.order(),
                order.to_set() == self@.routes_from.dom(),
                forall|j: int, ke: Seq<char>|
                    0 <= j < i && #[trigger] self@.routes_reader(ke, all[j]) ==> guids@.contains_key(
                        self@.routes_from[ke].dds_reader,
                    ),
            decreases gids@.len() - i,
        {
            assert(all[i as int] == gids@[i as int]@);
            let mut at: usize = 0;
            while at < n
                invariant
                    i < gids@.len(),
                    all == texts(gids@),
                    all[i as int] == gids@[i as int]@,
                    at <= n,
                    n == order.len(),
                    order == self.routes_from_dds.order(),
                    forall|j: int|
                        0 <= j < at && self@.routes_reader(#[trigger] order[j], all[i as int]) ==> guids@.contains_key(
                            self@.routes_from[order[j]].dds_reader,
                        ),
                decreases n - at,
            {
                let route = self.routes_from_dds.value_at(at);
                if route.is_routing_remote_reader(gids[i].as_str()) && !guids.contains_key(&route.dds_reader) {
                    assert(self@.routes_reader(order[at as int], all[i as int]));
                    return false;
                }
                assert(self@.routes_reader(order[at as int], all[i as int]) ==> guids@.contains_key(
                    self@.routes_from[order[at as int]].dds_reader,
                ));
                at += 1;
            }
            assert forall|ke: Seq<char>| #[trigger] self@.routes_reader(ke, all[i as int]) implies guids@.contains_key(
                self@.routes_from[ke].dds_reader,
            ) by {
                assert(order.to_set().contains(ke));
                let j = order.index_of(ke);
                assert(order[j] == ke);
            }
            i += 1;
        }
        true
    }

    /// Whether the ids of the DDS writers are known for all routes that serve one of the remote writers.
    fn writers_known(&self, gids: &Vec<String>, guids: &HashMap<i32, String>) -> (known: bool)
        ensures
            known == forall|i: int, ke: Seq<char>|
                0 <= i < gids@.len() && #[trigger] self@.routes_writer(ke, texts(gids@)[i]) ==> guids@.contains_key(
                    self@.routes_to[ke].dds_writer,
                ),
    {
        let n: usize = self.routes_to_dds.len();
        let ghost order = self.routes_to_dds.order();
        let ghost all = texts(gids@);
        let mut i: usize = 0;
        while i < gids.len()
            invariant
                i <= gids@.len(),
                all == texts(gids@),
                n == order.len(),
                order == self.routes_to_dds.order(),
                order.to_set() == self@.routes_to.dom(),
                forall|j: int, ke: Seq<char>|
                    0 <= j < i && #[trigger] self@.routes_writer(ke, all[j]) ==> guids@.contains_key(
                        self@.routes_to[ke].dds_writer,
                    ),
            decreases gids@.len() - i,
        {
            assert(all[i as int] == gids@[i as int]@);
            let mut at: usize = 0;
            while at < n
                invariant
                    i < gids@.len(),
                    all == texts(gids@),
                    all[i as int] == gids@[i as int]@,
                    at <= n,
                    n == order.len(),
                    order == self.routes_to_dds.order(),
                    forall|j: int|
                        0 <= j < at && self@.routes_writer(#[trigger] order[j], all[i as int]) ==> guids@.contains_key(
                            self@.routes_to[order[j]].dds_writer,
                        ),
                decreases n - at,
            {
                let route = self.routes_to_dds.value_at(at);
                if route.is_routing_remote_writer(gids[i].as_str()) && !guids.contains_key(&route.dds_writer) {
                    assert(self@.routes_writer(order[at as int], all[i as int]));
                    return false;
                }
                assert(self@.routes_writer(order[at as int], all[i as int]) ==> guids@.contains_key(
                    self@.routes_to[order[at as int]].dds_writer,
                ));
                at += 1;
            }
            assert forall|ke: Seq<char>| #[trigger] self@.routes_writer(ke, all[i as int]) implies guids@.contains_key(
                self@.routes_to[ke].dds_writer,
            ) by {
                assert(order.to_set().contains(ke));
                let j = order.index_of(ke);
                assert(order[j] == ke);
            }
            i += 1;
        }
        true
    }

    /// Whether the ids of the DDS readers and writers are known for all routes that serve an endpoint of the nodes.
    pub fn guids_known(&self, nodes: &KeyMap<NodeEntitiesInfo>, guids: &HashMap<i32, String>) -> (known: bool)
        ensures
            known == self@.all_guids_known(guids@, nodes@),
    {
        let n: usize = nodes.len();
        let ghost order = nodes.order();
        let mut i: usize = 0;
        while i < n
            invariant
                i <= n,
                n == order.len(),
                order == nodes.order(),
                order.to_set() == nodes@.dom(),
                forall|j: int| 0 <= j < i ==> self@.guids_known_for(guids@, nodes@[#[trigger] order[j]]),
            decreases n - i,
        {
            let node = nodes.value_at(i);
            assert(nodes@[order[i as int]].readers == texts(node.reader_gid_seq@));
            assert(nodes@[order[i as int]].writers == texts(node.writer_gid_seq@));
            if !self.readers_known(&node.reader_gid_seq, guids) || !self.writers_known(&node.writer_gid_seq, guids) {
                assert(!self@.guids_known_for(guids@, nodes@[order[i as int]]));
                assert(nodes@.contains_key(order[i as int]));
                return false;
            }
            assert(self@.guids_known_for(guids@, nodes@[order[i as int]]));
            i += 1;
        }
        assert forall|k: Seq<char>| #[trigger] nodes@.contains_key(k) implies self@.guids_known_for(guids@, nodes@[k]) by {
            assert(order.to_set().contains(k));
            let j = order.index_of(k);
            assert(order[j] == k);
        }
        true
    }

    /// Takes in what another bridge tells of ROS nodes: their endpoints get the ids of the routes that serve them here.
    /// Nothing is done where the id of such a route is not known; the result says so.
    pub fn take_in_nodes(
        &self,
        nodes: KeyMap<NodeEntitiesInfo>,
        guids: &HashMap<i32, String>,
        info: &mut ParticipantEntitiesInfo,
    ) -> (taken: bool)
        ensures
            taken == self@.all_guids_known(guids@, nodes@),
            !taken ==> final(info)@ == old(info)@,
            taken ==> exists|mapped: Map<Seq<char>, NodeView>| #[trigger]
                self@.nodes_remapped(guids@, nodes@, mapped) && final(info)@ == (ParticipantInfoView {
                    nodes: nonempty_nodes(old(info)@.nodes.union_prefer_right(mapped)),
                    ..old(info)@
                }),
    {
        if !self.guids_known(&nodes, guids) {
            return false;
        }
        let mut mapped: KeyMap<NodeEntitiesInfo> = nodes;
        self.remap_entities_info(&mut mapped, guids);
        assert(self@.nodes_remapped(guids@, nodes@, mapped@));
        info.update_with(mapped);
        true
    }
}

/// Whether `gid` is the id of the DDS reader of a route.
pub open spec fn reader_gid_of_route(s: RuntimeView, guids: Map<i32, String>, gid: Seq<char>) -> bool {
    exists|ke: Seq<char>| #[trigger]
        s.routes_from.contains_key(ke) && guids.contains_key(s.routes_from[ke].dds_reader)
            && guids[s.routes_from[ke].dds_reader]@ == gid
}

/// Whether `gid` is the id of the DDS writer of a route.
pub open spec fn writer_gid_of_route(s: RuntimeView, guids: Map<i32, String>, gid: Seq<char>) -> bool {
    exists|ke: Seq<char>| #[trigger]
        s.routes_to.contains_key(ke) && guids.contains_key(s.routes_to[ke].dds_writer)
            && guids[s.routes_to[ke].dds_writer]@ == gid
}

/// What is passed on of a node names, for each remote reader that a route serves, a DDS reader of a route, and no other.
pub proof fn law_remapped_readers_are_of_routes(
    s: RuntimeView,
    guids: Map<i32, String>,
    old: Seq<Seq<char>>,
    new: Seq<Seq<char>>,
)
    requires
        s.readers_remapped(guids, old, new),
    ensures
        new.len() == old.filter(|g: Seq<char>| s.reader_routed(g)).len(),
        forall|i: int| 0 <= i < new.len() ==> reader_gid_of_route(s, guids, #[trigger] new[i]),
    decreases old.len(),
{
    reveal(Seq::filter);
    if old.len() > 0 {
        if s.reader_routed(old.last()) {
            law_remapped_readers_are_of_routes(s, guids, old.drop_last(), new.drop_last());
            assert forall|i: int| 0 <= i < new.len() implies reader_gid_of_route(s, guids, #[trigger] new[i]) by {
                if i < new.len() - 1 {
                    assert(new.drop_last()[i] == new[i]);
                } else {
                    let ke = choose|ke: Seq<char>| #[trigger]
                        s.routes_reader(ke, old.last()) && guids.contains_key(s.routes_from[ke].dds_reader)
                            && guids[s.routes_from[ke].dds_reader]@ == new.last();
                    assert(s.routes_from.contains_key(ke));
                }
            }
        } else {
            law_remapped_readers_are_of_routes(s, guids, old.drop_last(), new);
        }
    }
}

/// What is passed on of a node names, for each remote writer that a route serves, a DDS writer of a route, and no other.
pub proof fn law_remapped_writers_are_of_routes(
    s: RuntimeView,
    guids: Map<i32, String>,
    old: Seq<Seq<char>>,
    new: Seq<Seq<char>>,
)
    requires
        s.writers_remapped(guids, old, new),
    ensures
        new.len() == old.filter(|g: Seq<char>| s.writer_routed(g)).len(),
        forall|i: int| 0 <= i < new.len() ==> writer_gid_of_route(s, guids, #[trigger] new[i]),
    decreases old.len(),
{
    reveal(Seq::filter);
    if old.len() > 0 {
        if s.writer_routed(old.last()) {
            law_remapped_writers_are_of_routes(s, guids, old.drop_last(), new.drop_last());
            assert forall|i: int| 0 <= i < new.len() implies writer_gid_of_route(s, guids, #[trigger] new[i]) by {
                if i < new.len() - 1 {
                    assert(new.drop_last()[i] == new[i]);
                } else {
                    let ke = choose|ke: Seq<char>| #[trigger]
                        s.routes_writer(ke, old.last()) && guids.contains_key(s.routes_to[ke].dds_writer)
                            && guids[s.routes_to[ke].dds_writer]@ == new.last();
                    assert(s.routes_to.contains_key(ke));
                }
            }
        } else {
            law_remapped_writers_are_of_routes(s, guids, old.drop_last(), new);
        }
    }
}

} // verus!
