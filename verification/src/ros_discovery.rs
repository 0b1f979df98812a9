//! What ROS nodes tell of themselves, and how it is passed on.
use vstd::prelude::*;

use crate::collections::KeyMap;
use crate::gid::{gid_text, hex_text};
use crate::number::{decimal_text, write_u64};
use crate::qos::{
    default_qos, Durability, DurabilityKind, History, HistoryKind, Qos, QosView, Reliability, ReliabilityKind,
    DDS_INFINITE_TIME,
};
use crate::text::{concat, same, texts};

verus! {

/// The type of the topic on which ROS nodes tell of themselves.
pub const ROS_DISCOVERY_INFO_TOPIC_TYPE: &'static str = "rmw_dds_common::msg::dds_::ParticipantEntitiesInfo_";

/// How often that topic is read, in milliseconds.
pub const ROS_DISCOVERY_INFO_POLL_INTERVAL_MS: u64 = 500;

/// The readers and writers of a ROS node, by their ids.
pub struct NodeEntitiesInfo {
    pub node_namespace: String,
    pub node_name: String,
    pub reader_gid_seq: Vec<String>,
    pub writer_gid_seq: Vec<String>,
}

/// The readers and writers of a ROS node, over mathematical values.
#[verifier::ext_equal]
pub struct NodeView {
    pub namespace: Seq<char>,
    pub name: Seq<char>,
    pub readers: Seq<Seq<char>>,
    pub writers: Seq<Seq<char>>,
}

impl View for NodeEntitiesInfo {
    type V = NodeView;

    open spec fn view(&self) -> NodeView {
        NodeView {
            namespace: self.node_namespace@,
            name: self.node_name@,
            readers: texts(self.reader_gid_seq@),
            writers: texts(self.writer_gid_seq@),
        }
    }
}

impl NodeView {
    /// Whether the node has neither readers nor writers.
    pub open spec fn is_empty(self) -> bool {
        self.readers.len() == 0 && self.writers.len() == 0
    }

    /// How the node is shown.
    pub open spec fn shown(self) -> Seq<char> {
        "Node "@ + self.namespace + self.name + " : "@ + decimal_text(self.readers.len()) + " pub / "@ + decimal_text(
            self.writers.len(),
        ) + " sub"@
    }

    /// Without a reader.
    pub open spec fn without_reader(self, gid: Seq<char>) -> NodeView {
        NodeView { readers: leaving_out(self.readers, gid), ..self }
    }

    /// Without a writer.
    pub open spec fn without_writer(self, gid: Seq<char>) -> NodeView {
        NodeView { writers: leaving_out(self.writers, gid), ..self }
    }

    /// Without some readers and some writers.
    pub open spec fn without_all(self, readers: Set<Seq<char>>, writers: Set<Seq<char>>) -> NodeView {
        NodeView {
            readers: leaving_all_out(self.readers, readers),
            writers: leaving_all_out(self.writers, writers),
            ..self
        }
    }
}

/// The ids without one.
pub open spec fn leaving_out(gids: Seq<Seq<char>>, gid: Seq<char>) -> Seq<Seq<char>> {
    gids.filter(|g: Seq<char>| g != gid)
}

/// The ids without some.
pub open spec fn leaving_all_out(gids: Seq<Seq<char>>, gone: Set<Seq<char>>) -> Seq<Seq<char>> {
    gids.filter(|g: Seq<char>| !gone.contains(g))
}

/// To leave out some ids and one more is to leave them all out. To leave out none is to leave all.
proof fn lemma_leave_out(gids: Seq<Seq<char>>, gone: Set<Seq<char>>, gid: Seq<char>)
    ensures
        leaving_out(leaving_all_out(gids, gone), gid) == leaving_all_out(gids, gone.insert(gid)),
        leaving_all_out(gids, Set::empty()) == gids,
    decreases gids.len(),
{
    reveal(Seq::filter);
    if gids.len() > 0 {
        lemma_leave_out(gids.drop_last(), gone, gid);
        let left = leaving_all_out(gids.drop_last(), gone);
        assert(left.push(gids.last()).drop_last() =~= left);
        assert(gids.drop_last().push(gids.last()) =~= gids);
    } else {
        assert(leaving_all_out(gids, Set::empty()) =~= gids);
    }
}

/// Endpoints can be left out one by one.
pub proof fn lemma_without_all(node: NodeView, readers: Set<Seq<char>>, writers: Set<Seq<char>>, gid: Seq<char>)
    ensures
        node.without_all(readers, writers).without_reader(gid) == node.without_all(readers.insert(gid), writers),
        node.without_all(readers, writers).without_writer(gid) == node.without_all(readers, writers.insert(gid)),
        node.without_all(Set::empty(), Set::empty()) == node,
{
    lemma_leave_out(node.readers, readers, gid);
    lemma_leave_out(node.writers, writers, gid);
}

impl NodeEntitiesInfo {
    /// How the node is shown.
    pub fn show(&self) -> (text: String)
        ensures
            text@ == self@.shown(),
    {
        let mut text: String = concat("Node ", self.node_namespace.as_str());
        text.append(self.node_name.as_str());
        text.append(" : ");
        let readers: String = write_u64(self.reader_gid_seq.len() as u64);
        text.append(readers.as_str());
        text.append(" pub / ");
        let writers: String = write_u64(self.writer_gid_seq.len() as u64);
        text.append(writers.as_str());
        text.append(" sub");
        text
    }
}

/// The nodes of a participant.
pub struct ParticipantEntitiesInfo {
    pub gid: String,
    pub node_entities_info_seq: KeyMap<NodeEntitiesInfo>,
}

/// The nodes of a participant, over mathematical values.
#[verifier::ext_equal]
pub struct ParticipantInfoView {
    pub gid: Seq<char>,
    pub nodes: Map<Seq<char>, NodeView>,
}

impl View for ParticipantEntitiesInfo {
    type V = ParticipantInfoView;

    open spec fn view(&self) -> ParticipantInfoView {
        ParticipantInfoView { gid: self.gid@, nodes: self.node_entities_info_seq@ }
    }
}

/// The nodes that are not empty.
pub open spec fn nonempty_nodes(nodes: Map<Seq<char>, NodeView>) -> Map<Seq<char>, NodeView> {
    nodes.restrict(Set::new(|k: Seq<char>| nodes.contains_key(k) && !nodes[k].is_empty()))
}

/// The nodes of a list, each under its namespace and name; the last of several with the same.
pub open spec fn nodes_by_name(list: Seq<NodeView>) -> Map<Seq<char>, NodeView>
    decreases list.len(),
{
    if list.len() == 0 {
        Map::empty()
    } else {
        nodes_by_name(list.drop_last()).insert(list.last().namespace + list.last().name, list.last())
    }
}

/// The nodes of a list, each under its namespace and name.
pub fn deserialize_node_entities_info_seq(entities: Vec<NodeEntitiesInfo>) -> (map: KeyMap<NodeEntitiesInfo>)
    ensures
        map@ == nodes_by_name(entities@.map_values(|n: NodeEntitiesInfo| n@)),
{
    let ghost all = entities@.map_values(|n: NodeEntitiesInfo| n@);
    let ghost given = entities@;
    let ghost mut n: int = 0;
    let mut map: KeyMap<NodeEntitiesInfo> = KeyMap::new();
    assert(all.take(0) =~= seq![]);
    for entity in iter: entities
        invariant
            iter.seq() == given,
            all == given.map_values(|n: NodeEntitiesInfo| n@),
            n == iter.index(),
            map@ == nodes_by_name(all.take(n)),
    {
        proof {
            assert(all.take(n + 1).drop_last() =~= all.take(n));
            assert(all.take(n + 1).last() == entity@);
            n = n + 1;
        }
        let key: String = concat(entity.node_namespace.as_str(), entity.node_name.as_str());
        map.insert(key, entity);
    }
    assert(all.take(n) =~= all);
    map
}

/// The list without `gone`.
fn without_gid(gids: &Vec<String>, gone: &str) -> (left: Vec<String>)
    ensures
        texts(left@) == leaving_out(texts(gids@), gone@),
{
    let ghost all = texts(gids@);
    let mut left: Vec<String> = Vec::new();
    let mut i: usize = 0;
    assert(leaving_out(all.take(0), gone@) =~= seq![]) by {
        reveal(Seq::filter);
    }
    while i < gids.len()
        invariant
            i <= gids@.len(),
            all == texts(gids@),
            texts(left@) == leaving_out(all.take(i as int), gone@),
        decreases gids@.len() - i,
    {
        let ghost before = left@;
        proof {
            assert(all.take(i + 1).drop_last() =~= all.take(i as int));
            assert(all.take(i + 1).last() == gids@[i as int]@);
            reveal(Seq::filter);
        }
        if !same(gids[i].as_str(), gone) {
            left.push(gids[i].clone());
            assert(texts(left@) =~= texts(before).push(gids@[i as int]@));
        }
        i += 1;
    }
    assert(all.take(i as int) =~= all);
    left
}

/// How some nodes of a participant are shown.
pub open spec fn shown_nodes(nodes: Map<Seq<char>, NodeView>, order: Seq<Seq<char>>) -> Seq<char>
    decreases order.len(),
{
    if order.len() == 0 {
        seq![]
    } else {
        shown_nodes(nodes, order.drop_last()) + "("@ + nodes[order.last()].shown() + "), "@
    }
}

impl ParticipantEntitiesInfo {
    /// How the participant is shown: with its nodes, in the order in which they are walked.
    pub fn show(&self) -> (text: String)
        ensures
            text@ == "participant "@ + self.gid@ + " : ["@ + shown_nodes(
                self@.nodes,
                self.node_entities_info_seq.order(),
            ) + "]"@,
            self.node_entities_info_seq.order().to_set() == self@.nodes.dom(),
            self.node_entities_info_seq.order().no_duplicates(),
    {
        let mut text: String = concat("participant ", self.gid.as_str());
        text.append(" : [");
        let ghost head = text@;
        let n: usize = self.node_entities_info_seq.len();
        let ghost order = self.node_entities_info_seq.order();
        let mut i: usize = 0;
        assert(text@ =~= head + shown_nodes(self@.nodes, order.take(0)));
        while i < n
            invariant
                i <= n,
                n == order.len(),
                order == self.node_entities_info_seq.order(),
                text@ == head + shown_nodes(self@.nodes, order.take(i as int)),
            decreases n - i,
        {
            proof {
                assert(order.take(i + 1).drop_last() =~= order.take(i as int));
                assert(order.take(i + 1).last() == order[i as int]);
            }
            let node: String = self.node_entities_info_seq.value_at(i).show();
            text.append("(");
            text.append(node.as_str());
            text.append("), ");
            assert(text@ =~= head + shown_nodes(self@.nodes, order.take(i + 1)));
            i += 1;
        }
        assert(order.take(i as int) =~= order);
        text.append("]");
        text
    }

    /// A participant without nodes.
    pub fn new(gid: String) -> (info: ParticipantEntitiesInfo)
        ensures
            info@ == (ParticipantInfoView { gid: gid@, nodes: Map::empty() }),
    {
        ParticipantEntitiesInfo { gid, node_entities_info_seq: KeyMap::new() }
    }

    /// Takes in what is told of nodes, in place of what was known of them. Empty nodes are removed.
    pub fn update_with(&mut self, nodes_entities: KeyMap<NodeEntitiesInfo>)
        ensures
            final(self)@ == (ParticipantInfoView {
                nodes: nonempty_nodes(old(self)@.nodes.union_prefer_right(nodes_entities@)),
                ..old(self)@
            }),
    {
        let ghost known = self@.nodes;
        let ghost told = nodes_entities@;
        let mut rest: KeyMap<NodeEntitiesInfo> = nodes_entities;
        loop
            invariant
                self@.gid == old(self)@.gid,
                forall|k: Seq<char>| #[trigger] rest@.contains_key(k) ==> told.contains_key(k) && rest@[k] == told[k],
                forall|k: Seq<char>| #[trigger]
                    self@.nodes.contains_key(k) <==> known.contains_key(k) || (told.contains_key(k)
                        && !rest@.contains_key(k)),
                forall|k: Seq<char>| #[trigger]
                    self@.nodes.contains_key(k) ==> self@.nodes[k] == (if told.contains_key(k) && !rest@.contains_key(
                        k,
                    ) {
                        told[k]
                    } else {
                        known[k]
                    }),
            ensures
                rest@ == Map::<Seq<char>, NodeView>::empty(),
            decreases rest.order().len(),
        {
            let ghost rest_before = rest@;
            match rest.pop() {
                Some((key, node)) => {
                    assert(rest_before.contains_key(key@));
                    let ghost kept_before = self@.nodes;
                    self.node_entities_info_seq.insert(key, node);
                    assert(self@.nodes == kept_before.insert(key@, node@));
                },
                None => {
                    break;
                },
            }
        }
        assert(self@.nodes =~= known.union_prefer_right(told));
        self.cleanup();
    }

    /// Removes a reader from all nodes.
    pub fn remove_reader_gid(&mut self, reader_gid: &str)
        ensures
            final(self)@ == (ParticipantInfoView {
                nodes: old(self)@.nodes.map_values(|n: NodeView| n.without_reader(reader_gid@)),
                ..old(self)@
            }),
    {
        let ghost known = self@.nodes;
        let mut rest: KeyMap<NodeEntitiesInfo> = KeyMap::new();
        std::mem::swap(&mut rest, &mut self.node_entities_info_seq);
        loop
            invariant
                self@.gid == old(self)@.gid,
                forall|k: Seq<char>| #[trigger] rest@.contains_key(k) ==> known.contains_key(k) && rest@[k] == known[k],
                forall|k: Seq<char>| #[trigger]
                    self@.nodes.contains_key(k) <==> known.contains_key(k) && !rest@.contains_key(k),
                forall|k: Seq<char>| #[trigger]
                    self@.nodes.contains_key(k) ==> self@.nodes[k] == known[k].without_reader(reader_gid@),
            ensures
                rest@ == Map::<Seq<char>, NodeView>::empty(),
            decreases rest.order().len(),
        {
            let ghost rest_before = rest@;
            match rest.pop() {
                Some((key, node)) => {
                    assert(rest_before.contains_key(key@));
                    let ghost kept_before = self@.nodes;
                    let mut node: NodeEntitiesInfo = node;
                    node.reader_gid_seq = without_gid(&node.reader_gid_seq, reader_gid);
                    self.node_entities_info_seq.insert(key, node);
                    assert(self@.nodes == kept_before.insert(key@, node@));
                },
                None => {
                    break;
                },
            }
        }
        assert(self@.nodes =~= known.map_values(|n: NodeView| n.without_reader(reader_gid@)));
    }

    /// Removes a writer from all nodes.
    pub fn remove_writer_gid(&mut self, writer_gid: &str)
        ensures
            final(self)@ == (ParticipantInfoView {
                nodes: old(self)@.nodes.map_values(|n: NodeView| n.without_writer(writer_gid@)),
                ..old(self)@
            }),
    {
        let ghost known = self@.nodes;
        let mut rest: KeyMap<NodeEntitiesInfo> = KeyMap::new();
        std::mem::swap(&mut rest, &mut self.node_entities_info_seq);
        loop
            invariant
                self@.gid == old(self)@.gid,
                forall|k: Seq<char>| #[trigger] rest@.contains_key(k) ==> known.contains_key(k) && rest@[k] == known[k],
                forall|k: Seq<char>| #[trigger]
                    self@.nodes.contains_key(k) <==> known.contains_key(k) && !rest@.contains_key(k),
                forall|k: Seq<char>| #[trigger]
                    self@.nodes.contains_key(k) ==> self@.nodes[k] == known[k].without_writer(writer_gid@),
            ensures
                rest@ == Map::<Seq<char>, NodeView>::empty(),
            decreases rest.order().len(),
        {
            let ghost rest_before = rest@;
            match rest.pop() {
                Some((key, node)) => {
                    assert(rest_before.contains_key(key@));
                    let ghost kept_before = self@.nodes;
                    let mut node: NodeEntitiesInfo = node;
                    node.writer_gid_seq = without_gid(&node.writer_gid_seq, writer_gid);
                    self.node_entities_info_seq.insert(key, node);
                    assert(self@.nodes == kept_before.insert(key@, node@));
                },
                None => {
                    break;
                },
            }
        }
        assert(self@.nodes =~= known.map_values(|n: NodeView| n.without_writer(writer_gid@)));
    }

    /// Removes the empty nodes: those without readers and writers.
    pub fn cleanup(&mut self)
        ensures
            final(self)@ == (ParticipantInfoView { nodes: nonempty_nodes(old(self)@.nodes), ..old(self)@ }),
    {
        let ghost known = self@.nodes;
        let mut rest: KeyMap<NodeEntitiesInfo> = KeyMap::new();
        std::mem::swap(&mut rest, &mut self.node_entities_info_seq);
        loop
            invariant
                self@.gid == old(self)@.gid,
                forall|k: Seq<char>| #[trigger] rest@.contains_key(k) ==> known.contains_key(k) && rest@[k] == known[k],
                forall|k: Seq<char>| #[trigger]
                    self@.nodes.contains_key(k) <==> known.contains_key(k) && !rest@.contains_key(k)
                        && !known[k].is_empty(),
                forall|k: Seq<char>| #[trigger] self@.nodes.contains_key(k) ==> self@.nodes[k] == known[k],
            ensures
                rest@ == Map::<Seq<char>, NodeView>::empty(),
            decreases rest.order().len(),
        {
            let ghost rest_before = rest@;
            match rest.pop() {
                Some((key, node)) => {
                    assert(rest_before.contains_key(key@));
                    let ghost kept_before = self@.nodes;
                    if node.reader_gid_seq.len() > 0 || node.writer_gid_seq.len() > 0 {
                        self.node_entities_info_seq.insert(key, node);
                        assert(self@.nodes == kept_before.insert(key@, node@));
                    }
                },
                None => {
                    break;
                },
            }
        }
        assert(self@.nodes =~= nonempty_nodes(known));
    }
}

/// The QoS for the topic of ROS discovery: reliable, kept for late readers, not seeing itself.
pub open spec fn ros_discovery_qos(history: History) -> QosView {
    QosView {
        reliability: Reliability { kind: ReliabilityKind::RELIABLE, max_blocking_time: DDS_INFINITE_TIME },
        durability: Durability { kind: DurabilityKind::TRANSIENT_LOCAL },
        history,
        ignore_local_participant: true,
        ..default_qos()
    }
}

/// The QoS with which the topic of ROS discovery is read: no sample is lost between two times of reading.
pub fn ros_discovery_reader_qos() -> (qos: Qos)
    ensures
        qos@ == ros_discovery_qos(History { kind: HistoryKind::KEEP_ALL, depth: 0 }),
{
    let mut qos: Qos = Qos::default();
    qos.reliability = Reliability { kind: ReliabilityKind::RELIABLE, max_blocking_time: DDS_INFINITE_TIME };
    qos.durability = Durability { kind: DurabilityKind::TRANSIENT_LOCAL };
    qos.history = History { kind: HistoryKind::KEEP_ALL, depth: 0 };
    qos.ignore_local_participant = true;
    qos
}

/// The QoS with which the topic of ROS discovery is written: the last sample tells all.
pub fn ros_discovery_writer_qos() -> (qos: Qos)
    ensures
        qos@ == ros_discovery_qos(History { kind: HistoryKind::KEEP_LAST, depth: 1 }),
{
    let mut qos: Qos = Qos::default();
    qos.reliability = Reliability { kind: ReliabilityKind::RELIABLE, max_blocking_time: DDS_INFINITE_TIME };
    qos.durability = Durability { kind: DurabilityKind::TRANSIENT_LOCAL };
    qos.history = History { kind: HistoryKind::KEEP_LAST, depth: 1 };
    qos.ignore_local_participant = true;
    qos
}

/// The id of the participant that a sample of ROS discovery is from: the sixteen bytes behind the header.
pub open spec fn sample_gid(sample: Seq<u8>) -> Seq<char> {
    hex_text(sample.subrange(4, 20))
}

/// The last sample from each participant.
pub open spec fn last_samples(samples: Seq<Seq<u8>>) -> Map<Seq<char>, Seq<u8>>
    decreases samples.len(),
{
    if samples.len() == 0 {
        Map::empty()
    } else {
        last_samples(samples.drop_last()).insert(sample_gid(samples.last()), samples.last())
    }
}

/// The last sample from each participant, under its id.
pub fn latest_samples(samples: Vec<Vec<u8>>) -> (latest: KeyMap<Vec<u8>>)
    requires
        forall|i: int| 0 <= i < samples@.len() ==> (#[trigger] samples@[i])@.len() >= 20,
    ensures
        latest@ == last_samples(samples@.map_values(|s: Vec<u8>| s@)),
{
    let ghost all = samples@.map_values(|s: Vec<u8>| s@);
    let ghost given = samples@;
    let ghost mut n: int = 0;
    let mut latest: KeyMap<Vec<u8>> = KeyMap::new();
    assert(all.take(0) =~= seq![]);
    for sample in iter: samples
        invariant
            iter.seq() == given,
            all == given.map_values(|s: Vec<u8>| s@),
            n == iter.index(),
            forall|i: int| 0 <= i < given.len() ==> (#[trigger] given[i])@.len() >= 20,
            latest@ == last_samples(all.take(n)),
    {
        proof {
            assert(all.take(n + 1).drop_last() =~= all.take(n));
            assert(all.take(n + 1).last() == sample@);
            n = n + 1;
        }
        let mut gid: Vec<u8> = Vec::new();
        let mut i: usize = 4;
        while i < 20
            invariant
                4 <= i <= 20,
                sample@.len() >= 20,
                gid@ == sample@.subrange(4, i as int),
            decreases 20 - i,
        {
            gid.push(sample[i]);
            assert(sample@.subrange(4, i + 1) =~= sample@.subrange(4, i as int).push(sample@[i as int]));
            i += 1;
        }
        latest.insert(gid_text(gid.as_slice()), sample);
    }
    assert(all.take(n) =~= all);
    latest
}

/// What is removed from all nodes is told of by none.
pub proof fn law_removed_gid_is_gone(node: NodeView, gid: Seq<char>)
    ensures
        !node.without_reader(gid).readers.contains(gid),
        !node.without_writer(gid).writers.contains(gid),
        node.without_reader(gid).writers == node.writers,
        node.without_writer(gid).readers == node.readers,
{
    broadcast use vstd::seq_lib::group_filter_ensures;

    let left = node.without_reader(gid).readers;
    if left.contains(gid) {
        let i = left.index_of(gid);
        assert(left[i] == gid);
    }
    let left = node.without_writer(gid).writers;
    if left.contains(gid) {
        let i = left.index_of(gid);
        assert(left[i] == gid);
    }
}

/// After a cleanup no node is empty, and a second cleanup changes nothing.
pub proof fn law_cleanup(nodes: Map<Seq<char>, NodeView>)
    ensures
        forall|k: Seq<char>| #[trigger] nonempty_nodes(nodes).contains_key(k) ==> !nonempty_nodes(nodes)[k].is_empty(),
        nonempty_nodes(nonempty_nodes(nodes)) == nonempty_nodes(nodes),
{
    assert(nonempty_nodes(nonempty_nodes(nodes)) =~= nonempty_nodes(nodes));
}

} // verus!
