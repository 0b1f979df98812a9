//! What the bridge does as DDS entities and other bridges come and go.
use vstd::prelude::*;

use crate::changes::{
    lemma_same_dropped_from, lemma_same_dropped_to, lists_deleted, lists_dropped_from, lists_dropped_to, DeletedWriter,
    DroppedFromDds, DroppedToDds, FromChange, FromChangeView, ToChange, ToChangeView,
};
use crate::entity::{DdsEntity, DdsParticipant};
use crate::key_expr::{joined_text, slashed, valid_key_expr, InvalidKeyExpr, KeyExpr};
use crate::keys::{
    admin_prefix_text, full_admin_keyexpr, fwd_discovery_keyexpr, fwd_discovery_selector, fwd_key_parts, fwd_prefix_text,
    law_fwd_key_round_trip, parse_fwd_discovery_keyexpr, pub_cache_selector, pub_cache_text, scope_names_no_kind,
    FwdKind,
};
use crate::queries::{query_all, QuerySettings, ReplyKeyExpr};
use crate::runtime::{entity_admin_text, participant_admin_text, DdsPluginRuntime, RuntimeView};
use crate::text::concat;

verus! {

impl RuntimeView {
    /// Without a local writer, and without the routes that served only it.
    pub open spec fn writer_gone(self, key: Seq<char>) -> RuntimeView {
        if self.writers.contains_key(key) {
            self.without_writer(key).changed_from(FromChangeView::LocalWriterGone(key))
        } else {
            self
        }
    }

    /// Without a local reader, and without the routes that served only it.
    pub open spec fn reader_gone(self, key: Seq<char>) -> RuntimeView {
        if self.readers.contains_key(key) {
            self.without_reader(key).changed_to(ToChangeView::LocalReaderGone(key))
        } else {
            self
        }
    }

    /// Without a local reader that was forwarded, and without the routes that serve no other endpoint.
    pub open spec fn forwarded_reader_gone(self, key: Seq<char>) -> RuntimeView {
        self.without_reader(key).changed_to(ToChangeView::ForwardedReaderGone(key))
    }
}

impl DdsPluginRuntime {
    /// Takes in that a participant was discovered; fails where it cannot be shown.
    pub fn discovered_participant(&mut self, entity: DdsParticipant) -> (kept: Result<(), InvalidKeyExpr>)
        requires
            old(self)@.wf(),
        ensures
            kept is Ok <==> valid_key_expr(participant_admin_text(entity@.key)),
            kept is Ok ==> final(self)@ == old(self)@.with_participant(participant_admin_text(entity@.key), entity@),
            kept is Err ==> final(self)@ == old(self)@,
            final(self)@.wf(),
    {
        let text: String = concat("participant/", entity.key.as_str());
        match KeyExpr::new(text.as_str()) {
            Ok(admin_keyexpr) => {
                self.insert_dds_participant(admin_keyexpr, entity);
                Ok(())
            },
            Err(e) => Err(e),
        }
    }

    /// Takes in that a participant is gone.
    pub fn undiscovered_participant(&mut self, key: &str)
        requires
            old(self)@.wf(),
        ensures
            final(self)@ == old(self)@.without_participant(key@),
            final(self)@.wf(),
    {
        let _gone: Option<(KeyExpr, DdsParticipant)> = self.remove_dds_participant(key);
    }

    /// Takes in that a local writer is gone. Gives back the routes that are no longer used.
    pub fn undiscovered_writer(&mut self, key: &String) -> (dropped: Vec<DroppedFromDds>)
        requires
            old(self)@.wf(),
        ensures
            final(self)@ == old(self)@.writer_gone(key@),
            old(self)@.writers.contains_key(key@) ==> lists_dropped_from(
                dropped@,
                old(self)@,
                FromChangeView::LocalWriterGone(key@),
            ),
            !old(self)@.writers.contains_key(key@) ==> dropped@.len() == 0,
            final(self)@.wf(),
    {
        match self.remove_dds_writer(key.as_str()) {
            Some(_) => {
                let ghost left = self@;
                let change: FromChange = FromChange::LocalWriterGone(key.clone());
                let dropped: Vec<DroppedFromDds> = self.change_routes_from_dds(&change);
                proof {
                    lemma_same_dropped_from(dropped@, left, old(self)@, change@);
                }
                dropped
            },
            None => Vec::new(),
        }
    }

    /// Takes in that a local reader is gone. Gives back the routes that are no longer used.
    pub fn undiscovered_reader(&mut self, key: &String) -> (dropped: Vec<DroppedToDds>)
        requires
            old(self)@.wf(),
        ensures
            final(self)@ == old(self)@.reader_gone(key@),
            old(self)@.readers.contains_key(key@) ==> lists_dropped_to(
                dropped@,
                old(self)@,
                ToChangeView::LocalReaderGone(key@),
            ),
            !old(self)@.readers.contains_key(key@) ==> dropped@.len() == 0,
            final(self)@.wf(),
    {
        match self.remove_dds_reader(key.as_str()) {
            Some(_) => {
                let ghost left = self@;
                let change: ToChange = ToChange::LocalReaderGone(key.clone());
                let (dropped, _deleted): (Vec<DroppedToDds>, Vec<DeletedWriter>) = self.change_routes_to_dds(&change);
                proof {
                    lemma_same_dropped_to(dropped@, left, old(self)@, change@);
                }
                dropped
            },
            None => Vec::new(),
        }
    }

    /// Where a local endpoint is shown, and where its discovery is forwarded under `prefix`;
    /// fails where it cannot be shown.
    pub fn plan_forward(entity: &DdsEntity, is_writer: bool, prefix: &KeyExpr) -> (keys: Result<
        (KeyExpr, KeyExpr),
        InvalidKeyExpr,
    >)
        ensures
            keys is Ok <==> valid_key_expr(entity_admin_text(entity@, is_writer)),
            keys matches Ok((admin, fwd)) ==> admin@ == entity_admin_text(entity@, is_writer) && fwd@ == slashed(
                slashed(
                    prefix@,
                    if is_writer {
                        FwdKind::Writer.chunk()
                    } else {
                        FwdKind::Reader.chunk()
                    },
                ),
                admin@,
            ),
    {
        match DdsPluginRuntime::try_entity_admin_keyexpr(entity, is_writer) {
            Ok(admin) => {
                let kind: FwdKind = if is_writer {
                    FwdKind::Writer
                } else {
                    FwdKind::Reader
                };
                let fwd: KeyExpr = fwd_discovery_keyexpr(prefix, kind, &admin);
                Ok((admin, fwd))
            },
            Err(e) => Err(e),
        }
    }

    /// Takes in that a local writer that was forwarded is gone. Gives back the key whose deletion to forward,
    /// if the writer was known.
    pub fn undiscovered_forwarded_writer(&mut self, key: &str, prefix: &KeyExpr) -> (fwd: Option<KeyExpr>)
        requires
            old(self)@.wf(),
        ensures
            final(self)@ == old(self)@.without_writer(key@),
            match fwd {
                Some(fwd_ke) => old(self)@.writers.contains_key(key@) && fwd_ke@ == slashed(
                    slashed(prefix@, FwdKind::Writer.chunk()),
                    entity_admin_text(old(self)@.writers[key@], true),
                ),
                None => !old(self)@.writers.contains_key(key@),
            },
            final(self)@.wf(),
    {
        match self.remove_dds_writer(key) {
            Some((admin, _)) => Some(fwd_discovery_keyexpr(prefix, FwdKind::Writer, &admin)),
            None => None,
        }
    }

    /// Takes in that a local reader that was forwarded is gone. Gives back the key whose deletion to forward,
    /// if the reader was known, and the routes that are no longer used.
    pub fn undiscovered_forwarded_reader(&mut self, key: &String, prefix: &KeyExpr) -> (gone: (
        Option<KeyExpr>,
        Vec<DroppedToDds>,
    ))
        requires
            old(self)@.wf(),
        ensures
            final(self)@ == old(self)@.forwarded_reader_gone(key@),
            match gone.0 {
                Some(fwd_ke) => old(self)@.readers.contains_key(key@) && fwd_ke@ == slashed(
                    slashed(prefix@, FwdKind::Reader.chunk()),
                    entity_admin_text(old(self)@.readers[key@], false),
                ),
                None => !old(self)@.readers.contains_key(key@),
            },
            lists_dropped_to(gone.1@, old(self)@, ToChangeView::ForwardedReaderGone(key@)),
            final(self)@.wf(),
    {
        let fwd: Option<KeyExpr> = match self.remove_dds_reader(key.as_str()) {
            Some((admin, _)) => Some(fwd_discovery_keyexpr(prefix, FwdKind::Reader, &admin)),
            None => None,
        };
        let ghost left = self@;
        let change: ToChange = ToChange::ForwardedReaderGone(key.clone());
        let (dropped, _deleted): (Vec<DroppedToDds>, Vec<DeletedWriter>) = self.change_routes_to_dds(&change);
        proof {
            lemma_same_dropped_to(dropped@, left, old(self)@, change@);
        }
        (fwd, dropped)
    }

    /// Takes in that a writer of another bridge is gone. Gives back the routes that are no longer used,
    /// and the DDS writers that routes no longer have.
    pub fn remote_writer_gone(&mut self, full_admin_keyexpr: &KeyExpr) -> (gone: (
        Vec<DroppedToDds>,
        Vec<DeletedWriter>,
    ))
        requires
            old(self)@.wf(),
        ensures
            final(self)@ == old(self)@.changed_to(ToChangeView::RemoteWriterGone(full_admin_keyexpr@)),
            lists_dropped_to(gone.0@, old(self)@, ToChangeView::RemoteWriterGone(full_admin_keyexpr@)),
            lists_deleted(gone.1@, old(self)@, ToChangeView::RemoteWriterGone(full_admin_keyexpr@)),
            final(self)@.wf(),
    {
        let change: ToChange = ToChange::RemoteWriterGone(full_admin_keyexpr.to_text());
        self.change_routes_to_dds(&change)
    }

    /// Takes in that a reader of another bridge is gone. Gives back the routes that are no longer used.
    pub fn remote_reader_gone(&mut self, full_admin_keyexpr: &KeyExpr) -> (dropped: Vec<DroppedFromDds>)
        requires
            old(self)@.wf(),
        ensures
            final(self)@ == old(self)@.changed_from(FromChangeView::RemoteReaderGone(full_admin_keyexpr@)),
            lists_dropped_from(dropped@, old(self)@, FromChangeView::RemoteReaderGone(full_admin_keyexpr@)),
            final(self)@.wf(),
    {
        let change: FromChange = FromChange::RemoteReaderGone(full_admin_keyexpr.to_text());
        self.change_routes_from_dds(&change)
    }
}

/// What a route asks another bridge for: what that has cached.
pub struct HistoricalQuery {
    pub route: KeyExpr,
    pub selector: KeyExpr,
    pub settings: QuerySettings,
}

impl HistoricalQuery {
    /// Whether this is what its route asks of bridge `zid`: all that it has cached, within the time for queries.
    pub open spec fn fits(self, s: RuntimeView, zid: Seq<char>) -> bool {
        &&& s.asks(self.route@)
        &&& self.selector@ == pub_cache_text(zid, self.route@)
        &&& self.settings == query_all(ReplyKeyExpr::Any, s.config.queries_timeout)
    }
}

/// Whether `queries` are what the routes that ask for earlier publications ask of bridge `zid`, each once.
pub open spec fn lists_queries(queries: Seq<HistoricalQuery>, s: RuntimeView, zid: Seq<char>) -> bool {
    &&& forall|i: int| 0 <= i < queries.len() ==> (#[trigger] queries[i]).fits(s, zid)
    &&& forall|k: Seq<char>| #[trigger]
        s.asks(k) ==> exists|i: int| 0 <= i < queries.len() && #[trigger] queries[i].route@ == k
    &&& forall|i: int, j: int|
        0 <= i < j < queries.len() ==> #[trigger] queries[i].route@ != #[trigger] queries[j].route@
}

impl RuntimeView {
    /// Whether the route to DDS for `ke` asks for what was published before.
    pub open spec fn asks(self, ke: Seq<char>) -> bool {
        self.routes_to.contains_key(ke) && self.routes_to[ke].querying
    }
}

/// What to ask a bridge that has joined.
pub struct MemberQueries {
    /// The discovery that it has forwarded before.
    pub discovery: KeyExpr,
    pub discovery_settings: QuerySettings,
    /// What it has cached for the routes.
    pub historical: Vec<HistoricalQuery>,
}

impl DdsPluginRuntime {
    /// What the routes that ask for earlier publications ask of bridge `zenoh_id`.
    fn historical_queries(&self, zenoh_id: &KeyExpr) -> (queries: Vec<HistoricalQuery>)
        requires
            self@.wf(),
        ensures
            lists_queries(queries@, self@, zenoh_id@),
    {
        let n: usize = self.routes_to_dds.len();
        let ghost order = self.routes_to_dds.order();
        let mut queries: Vec<HistoricalQuery> = Vec::new();
        let ghost mut places: Seq<int> = seq![];
        let mut i: usize = 0;
        while i < n
            invariant
                self@.wf(),
                i <= n,
                n == order.len(),
                order == self.routes_to_dds.order(),
                order.no_duplicates(),
                order.to_set() == self@.routes_to.dom(),
                places.len() == queries@.len(),
                forall|j: int|
                    0 <= j < queries@.len() ==> 0 <= #[trigger] places[j] < i && queries@[j].route@
                        == order[places[j]],
                forall|j: int, k: int| 0 <= j < k < places.len() ==> #[trigger] places[j] < #[trigger] places[k],
                forall|j: int| 0 <= j < queries@.len() ==> (#[trigger] queries@[j]).fits(self@, zenoh_id@),
                forall|j: int|
                    0 <= j < i && self@.asks(#[trigger] order[j]) ==> exists|m: int|
                        0 <= m < queries@.len() && #[trigger] queries@[m].route@ == order[j],
            decreases n - i,
        {
            let ghost before = queries@;
            let route = self.routes_to_dds.value_at(i);
            if route.querying {
                let key: KeyExpr = KeyExpr::known(self.routes_to_dds.key_at(i).as_str());
                let selector: KeyExpr = pub_cache_selector(zenoh_id, &key);
                let settings: QuerySettings = QuerySettings::all(ReplyKeyExpr::Any, self.config.queries_timeout);
                let query: HistoricalQuery = HistoricalQuery { route: key, selector, settings };
                assert(query.fits(self@, zenoh_id@));
                queries.push(query);
                proof {
                    places = places.push(i as int);
                    assert(queries@.last().route@ == order[i as int]);
                    assert forall|j: int| 0 <= j < i && self@.asks(#[trigger] order[j]) implies exists|m: int|
                        0 <= m < queries@.len() && #[trigger] queries@[m].route@ == order[j] by {
                        let m = choose|m: int| 0 <= m < before.len() && #[trigger] before[m].route@ == order[j];
                        assert(queries@[m].route@ == order[j]);
                    }
                }
            }
            i += 1;
        }
        proof {
            assert forall|k: Seq<char>| #[trigger] self@.asks(k) implies exists|m: int|
                0 <= m < queries@.len() && #[trigger] queries@[m].route@ == k by {
                assert(order.to_set().contains(k));
                let j = order.index_of(k);
                assert(self@.asks(order[j]));
            }
            assert forall|j: int, k: int| 0 <= j < k < queries@.len() implies #[trigger] queries@[j].route@
                != #[trigger] queries@[k].route@ by {
                assert(places[j] < places[k]);
                assert(places[k] < order.len());
            }
        }
        queries
    }

    /// What to ask bridge `zid`, which has joined; fails where its id cannot stand in a key.
    pub fn member_joined(&self, zid: &str) -> (queries: Result<MemberQueries, InvalidKeyExpr>)
        requires
            self@.wf(),
        ensures
            queries is Ok <==> valid_key_expr(zid@),
            queries matches Ok(q) ==> {
                &&& q.discovery@ == joined_text(fwd_prefix_text(zid@, self@.config.scope), "**"@)
                &&& (self@.config.scope matches Some(s) ==> s.last() != '*') ==> q.discovery@ == slashed(
                    fwd_prefix_text(zid@, self@.config.scope),
                    "**"@,
                )
                &&& q.discovery_settings == query_all(ReplyKeyExpr::MatchingQuery, self@.config.queries_timeout)
                &&& lists_queries(q.historical@, self@, zid@)
            },
    {
        match KeyExpr::new(zid) {
            Ok(zenoh_id) => {
                let discovery: KeyExpr = fwd_discovery_selector(&zenoh_id, &self.config.scope);
                let historical: Vec<HistoricalQuery> = self.historical_queries(&zenoh_id);
                let discovery_settings: QuerySettings = QuerySettings::all(
                    ReplyKeyExpr::MatchingQuery,
                    self.config.queries_timeout,
                );
                Ok(MemberQueries { discovery, discovery_settings, historical })
            },
            Err(e) => Err(e),
        }
    }
}

/// What a forwarded discovery message is about.
pub enum Forwarded {
    /// A writer of another bridge, by its admin key.
    Writer(KeyExpr),
    /// A reader of another bridge, by its admin key.
    Reader(KeyExpr),
    /// The ROS nodes of a participant.
    RosDisco,
}

/// What a forwarded discovery message is about, over mathematical values.
pub enum ForwardedView {
    Writer(Seq<char>),
    Reader(Seq<char>),
    RosDisco,
}

impl View for Forwarded {
    type V = ForwardedView;

    open spec fn view(&self) -> ForwardedView {
        match *self {
            Forwarded::Writer(admin) => ForwardedView::Writer(admin@),
            Forwarded::Reader(admin) => ForwardedView::Reader(admin@),
            Forwarded::RosDisco => ForwardedView::RosDisco,
        }
    }
}

/// What a message on this key is about, if it is a forwarded discovery message.
pub open spec fn forwarded_on(key: Seq<char>) -> Option<ForwardedView> {
    match fwd_key_parts(key) {
        None => None,
        Some((uuid, kind, rest)) => if kind == FwdKind::RosDisco {
            Some(ForwardedView::RosDisco)
        } else if valid_key_expr(uuid) && valid_key_expr(rest) {
            let admin = slashed(admin_prefix_text(uuid), rest);
            if kind == FwdKind::Writer {
                Some(ForwardedView::Writer(admin))
            } else {
                Some(ForwardedView::Reader(admin))
            }
        } else {
            None
        },
    }
}

/// What a message on this key is about, if it is a forwarded discovery message.
pub fn forwarded(fwd_ke: &KeyExpr) -> (about: Option<Forwarded>)
    ensures
        match about {
            Some(f) => forwarded_on(fwd_ke@) == Some(f@),
            None => forwarded_on(fwd_ke@) is None,
        },
{
    match parse_fwd_discovery_keyexpr(fwd_ke) {
        None => None,
        Some((uuid, kind, rest)) => {
            if kind == FwdKind::RosDisco {
                return Some(Forwarded::RosDisco);
            }
            match (KeyExpr::new(uuid.as_str()), KeyExpr::new(rest.as_str())) {
                (Ok(uuid), Ok(rest)) => {
                    let admin: KeyExpr = full_admin_keyexpr(&uuid, &rest);
                    if kind == FwdKind::Writer {
                        Some(Forwarded::Writer(admin))
                    } else {
                        Some(Forwarded::Reader(admin))
                    }
                },
                _ => None,
            }
        },
    }
}

/// What one bridge forwards is understood by the others: a message on the key on which bridge `uuid` forwards
/// the discovery of an endpoint is about that endpoint, by its admin key with the bridge.
pub proof fn law_forwarded_is_understood(uuid: Seq<char>, scope: Option<Seq<char>>, is_writer: bool, admin: Seq<char>)
    requires
        valid_key_expr(uuid),
        forall|i: int| 0 <= i < uuid.len() ==> uuid[i] != '/',
        valid_key_expr(admin),
        scope_names_no_kind(scope),
    ensures
        is_writer ==> forwarded_on(slashed(slashed(fwd_prefix_text(uuid, scope), FwdKind::Writer.chunk()), admin))
            == Some(ForwardedView::Writer(slashed(admin_prefix_text(uuid), admin))),
        !is_writer ==> forwarded_on(slashed(slashed(fwd_prefix_text(uuid, scope), FwdKind::Reader.chunk()), admin))
            == Some(ForwardedView::Reader(slashed(admin_prefix_text(uuid), admin))),
{
    if is_writer {
        law_fwd_key_round_trip(uuid, scope, FwdKind::Writer, admin);
    } else {
        law_fwd_key_round_trip(uuid, scope, FwdKind::Reader, admin);
    }
}

} // verus!
