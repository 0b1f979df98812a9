//! What routes are left when an endpoint or a bridge is gone.
use vstd::prelude::*;

use crate::collections::KeyMap;
use crate::key_expr::KeyExpr;
use crate::keys::{ke_route_from_dds, ke_route_to_dds};
use crate::routes::{RouteDDSZenoh, RouteFromView, RouteToView, RouteZenohDDS, DDS_ENTITY_NULL};
use crate::runtime::{route_from_admin_text, route_to_admin_text, AdminRef, DdsPluginRuntime, RuntimeView};
use crate::text::occurs;

verus! {

/// What is gone that routes from DDS served.
pub enum FromChange {
    /// A local writer, by its key.
    LocalWriterGone(String),
    /// A reader of another bridge, by its admin key.
    RemoteReaderGone(String),
    /// All readers of another bridge, by what stands in their admin keys.
    BridgeGone(String),
}

/// What is gone that routes from DDS served, over mathematical values.
pub enum FromChangeView {
    LocalWriterGone(Seq<char>),
    RemoteReaderGone(Seq<char>),
    BridgeGone(Seq<char>),
}

impl View for FromChange {
    type V = FromChangeView;

    open spec fn view(&self) -> FromChangeView {
        match *self {
            FromChange::LocalWriterGone(key) => FromChangeView::LocalWriterGone(key@),
            FromChange::RemoteReaderGone(admin) => FromChangeView::RemoteReaderGone(admin@),
            FromChange::BridgeGone(part) => FromChangeView::BridgeGone(part@),
        }
    }
}

impl FromChangeView {
    /// What a route from DDS is after the change.
    pub open spec fn apply(self, r: RouteFromView) -> RouteFromView {
        match self {
            FromChangeView::LocalWriterGone(key) => RouteFromView { local: r.local.remove(key), ..r },
            FromChangeView::RemoteReaderGone(admin) => RouteFromView { remote: r.remote.remove(admin), ..r },
            FromChangeView::BridgeGone(part) => RouteFromView {
                remote: r.remote.filter(|admin: Seq<char>| !occurs(admin, part)),
                ..r
            },
        }
    }

    /// Whether a route from DDS that the change leaves like this is still used: as long as it serves
    /// an endpoint on the side on which something is gone.
    pub open spec fn keeps(self, r: RouteFromView) -> bool {
        match self {
            FromChangeView::LocalWriterGone(_) => r.local != Set::<Seq<char>>::empty(),
            FromChangeView::RemoteReaderGone(_) => r.remote != Set::<Seq<char>>::empty(),
            FromChangeView::BridgeGone(_) => r.remote != Set::<Seq<char>>::empty(),
        }
    }
}

/// What is gone that routes to DDS served.
pub enum ToChange {
    /// A local reader, by its key.
    LocalReaderGone(String),
    /// A local reader, by its key, where discovery is forwarded.
    ForwardedReaderGone(String),
    /// A writer of another bridge, by its admin key.
    RemoteWriterGone(String),
    /// All writers of another bridge, by what stands in their admin keys.
    BridgeGone(String),
}

/// What is gone that routes to DDS served, over mathematical values.
pub enum ToChangeView {
    LocalReaderGone(Seq<char>),
    ForwardedReaderGone(Seq<char>),
    RemoteWriterGone(Seq<char>),
    BridgeGone(Seq<char>),
}

impl View for ToChange {
    type V = ToChangeView;

    open spec fn view(&self) -> ToChangeView {
        match *self {
            ToChange::LocalReaderGone(key) => ToChangeView::LocalReaderGone(key@),
            ToChange::ForwardedReaderGone(key) => ToChangeView::ForwardedReaderGone(key@),
            ToChange::RemoteWriterGone(admin) => ToChangeView::RemoteWriterGone(admin@),
            ToChange::BridgeGone(part) => ToChangeView::BridgeGone(part@),
        }
    }
}

impl ToChangeView {
    /// What a route to DDS is after the change. Its DDS writer is deleted with the last remote writer.
    pub open spec fn apply(self, r: RouteToView) -> RouteToView {
        match self {
            ToChangeView::LocalReaderGone(key) => RouteToView { local: r.local.remove(key), ..r },
            ToChangeView::ForwardedReaderGone(key) => RouteToView { local: r.local.remove(key), ..r },
            ToChangeView::RemoteWriterGone(admin) => {
                let left = r.remote.remove(admin);
                RouteToView {
                    remote: left,
                    dds_writer: if left != Set::<Seq<char>>::empty() {
                        r.dds_writer
                    } else {
                        DDS_ENTITY_NULL
                    },
                    ..r
                }
            },
            ToChangeView::BridgeGone(part) => RouteToView {
                remote: r.remote.filter(|admin: Seq<char>| !occurs(admin, part)),
                ..r
            },
        }
    }

    /// Whether a route to DDS that the change leaves like this is still used.
    pub open spec fn keeps(self, r: RouteToView) -> bool {
        match self {
            ToChangeView::LocalReaderGone(_) => r.local != Set::<Seq<char>>::empty(),
            ToChangeView::ForwardedReaderGone(_) => r.local != Set::<Seq<char>>::empty() || r.remote != Set::<
                Seq<char>,
            >::empty(),
            ToChangeView::RemoteWriterGone(_) => r.local != Set::<Seq<char>>::empty() || r.remote != Set::<
                Seq<char>,
            >::empty(),
            ToChangeView::BridgeGone(_) => r.remote != Set::<Seq<char>>::empty(),
        }
    }
}

impl RuntimeView {
    /// Whether the route from DDS for `ke` is no longer used after a change.
    pub open spec fn drops_from(self, change: FromChangeView, ke: Seq<char>) -> bool {
        self.routes_from.contains_key(ke) && !change.keeps(change.apply(self.routes_from[ke]))
    }

    /// After a change: every route from DDS is what the change leaves of it; those that are no longer used
    /// are gone, also from the admin space.
    pub open spec fn changed_from(self, change: FromChangeView) -> RuntimeView {
        RuntimeView {
            routes_from: Map::new(
                |k: Seq<char>| self.routes_from.contains_key(k) && !self.drops_from(change, k),
                |k: Seq<char>| change.apply(self.routes_from[k]),
            ),
            admin: self.admin.remove_keys(
                Set::new(|a: Seq<char>| exists|k: Seq<char>| #[trigger] self.drops_from(change, k) && a == route_from_admin_text(k)),
            ),
            ..self
        }
    }

    /// Whether the route to DDS for `ke` is no longer used after a change.
    pub open spec fn drops_to(self, change: ToChangeView, ke: Seq<char>) -> bool {
        self.routes_to.contains_key(ke) && !change.keeps(change.apply(self.routes_to[ke]))
    }

    /// Whether the route to DDS for `ke` no longer has its DDS writer after a change.
    pub open spec fn deletes(self, change: ToChangeView, ke: Seq<char>) -> bool {
        self.routes_to.contains_key(ke) && deleted_writer(change, self.routes_to[ke]) is Some
    }

    /// After a change: every route to DDS is what the change leaves of it; those that are no longer used
    /// are gone, also from the admin space.
    pub open spec fn changed_to(self, change: ToChangeView) -> RuntimeView {
        RuntimeView {
            routes_to: Map::new(
                |k: Seq<char>| self.routes_to.contains_key(k) && !self.drops_to(change, k),
                |k: Seq<char>| change.apply(self.routes_to[k]),
            ),
            admin: self.admin.remove_keys(
                Set::new(|a: Seq<char>| exists|k: Seq<char>| #[trigger] self.drops_to(change, k) && a == route_to_admin_text(k)),
            ),
            ..self
        }
    }
}

/// A route from DDS that is no longer used.
pub struct DroppedFromDds {
    pub key: KeyExpr,
    pub route: RouteDDSZenoh,
}

/// A DDS writer that a route to DDS no longer has.
pub struct DeletedWriter {
    pub key: KeyExpr,
    pub writer: i32,
}

/// A route to DDS that is no longer used.
pub struct DroppedToDds {
    pub key: KeyExpr,
    pub route: RouteZenohDDS,
}

/// Whether `dropped` lists the routes from DDS that a change drops, each once, as they were before the change
/// but for the endpoints that are gone.
pub open spec fn lists_dropped_from(dropped: Seq<DroppedFromDds>, s: RuntimeView, change: FromChangeView) -> bool {
    &&& forall|i: int|
        0 <= i < dropped.len() ==> s.drops_from(change, #[trigger] dropped[i].key@) && dropped[i].route@
            == change.apply(s.routes_from[dropped[i].key@])
    &&& forall|k: Seq<char>| #[trigger]
        s.drops_from(change, k) ==> exists|i: int| 0 <= i < dropped.len() && #[trigger] dropped[i].key@ == k
    &&& forall|i: int, j: int| 0 <= i < j < dropped.len() ==> #[trigger] dropped[i].key@ != #[trigger] dropped[j].key@
}

/// Whether `dropped` lists the routes to DDS that a change drops, each once, as they were before the change
/// but for what is gone.
pub open spec fn lists_dropped_to(dropped: Seq<DroppedToDds>, s: RuntimeView, change: ToChangeView) -> bool {
    &&& forall|i: int|
        0 <= i < dropped.len() ==> s.drops_to(change, #[trigger] dropped[i].key@) && dropped[i].route@
            == change.apply(s.routes_to[dropped[i].key@])
    &&& forall|k: Seq<char>| #[trigger]
        s.drops_to(change, k) ==> exists|i: int| 0 <= i < dropped.len() && #[trigger] dropped[i].key@ == k
    &&& forall|i: int, j: int| 0 <= i < j < dropped.len() ==> #[trigger] dropped[i].key@ != #[trigger] dropped[j].key@
}

/// Whether `deleted` lists the DDS writers that routes no longer have after a change, each once.
pub open spec fn lists_deleted(deleted: Seq<DeletedWriter>, s: RuntimeView, change: ToChangeView) -> bool {
    &&& forall|i: int|
        0 <= i < deleted.len() ==> s.deletes(change, #[trigger] deleted[i].key@) && deleted[i].writer
            == s.routes_to[deleted[i].key@].dds_writer
    &&& forall|k: Seq<char>| #[trigger]
        s.deletes(change, k) ==> exists|i: int| 0 <= i < deleted.len() && #[trigger] deleted[i].key@ == k
    &&& forall|i: int, j: int| 0 <= i < j < deleted.len() ==> #[trigger] deleted[i].key@ != #[trigger] deleted[j].key@
}

/// Which routes from DDS a change drops depends on those routes alone.
pub proof fn lemma_same_dropped_from(
    dropped: Seq<DroppedFromDds>,
    s: RuntimeView,
    other: RuntimeView,
    change: FromChangeView,
)
    requires
        s.routes_from == other.routes_from,
        lists_dropped_from(dropped, s, change),
    ensures
        lists_dropped_from(dropped, other, change),
{
    assert forall|k: Seq<char>| #[trigger] other.drops_from(change, k) implies s.drops_from(change, k) by {}
}

/// Which routes to DDS a change drops depends on those routes alone.
pub proof fn lemma_same_dropped_to(
    dropped: Seq<DroppedToDds>,
    s: RuntimeView,
    other: RuntimeView,
    change: ToChangeView,
)
    requires
        s.routes_to == other.routes_to,
        lists_dropped_to(dropped, s, change),
    ensures
        lists_dropped_to(dropped, other, change),
{
    assert forall|k: Seq<char>| #[trigger] other.drops_to(change, k) implies s.drops_to(change, k) by {}
}

fn change_route_from(change: &FromChange, route: &mut RouteDDSZenoh) -> (keep: bool)
    ensures
        final(route)@ == change@.apply(old(route)@),
        keep == change@.keeps(change@.apply(old(route)@)),
{
    match change {
        FromChange::LocalWriterGone(key) => {
            route.remove_local_routed_writer(key.as_str());
            route.has_local_routed_writer()
        },
        FromChange::RemoteReaderGone(admin) => {
            route.remove_remote_routed_reader(admin.as_str());
            route.has_remote_routed_reader()
        },
        FromChange::BridgeGone(part) => {
            route.remove_remote_routed_readers_containing(part.as_str());
            route.has_remote_routed_reader()
        },
    }
}

/// The DDS writer that a change deletes from a route.
pub open spec fn deleted_writer(change: ToChangeView, r: RouteToView) -> Option<i32> {
    if r.dds_writer != DDS_ENTITY_NULL && change.apply(r).dds_writer == DDS_ENTITY_NULL {
        Some(r.dds_writer)
    } else {
        None
    }
}

fn change_route_to(change: &ToChange, route: &mut RouteZenohDDS) -> (kept: (bool, Option<i32>))
    ensures
        final(route)@ == change@.apply(old(route)@),
        kept.0 == change@.keeps(change@.apply(old(route)@)),
        kept.1 == deleted_writer(change@, old(route)@),
{
    match change {
        ToChange::LocalReaderGone(key) => {
            route.remove_local_routed_reader(key.as_str());
            (route.has_local_routed_reader(), None)
        },
        ToChange::ForwardedReaderGone(key) => {
            route.remove_local_routed_reader(key.as_str());
            (route.has_local_routed_reader() || route.has_remote_routed_writer(), None)
        },
        ToChange::RemoteWriterGone(admin) => {
            route.remove_remote_routed_writer(admin.as_str());
            if route.has_remote_routed_writer() {
                (true, None)
            } else {
                // the route itself stays for a local reader
                let deleted: Option<i32> = route.delete_dds_writer();
                (route.has_local_routed_reader(), deleted)
            }
        },
        ToChange::BridgeGone(part) => {
            route.remove_remote_routed_writers_containing(part.as_str());
            (route.has_remote_routed_writer(), None)
        },
    }
}

impl DdsPluginRuntime {
    /// Applies a change to all routes from DDS. Gives back those that are no longer used.
    pub fn change_routes_from_dds(&mut self, change: &FromChange) -> (dropped: Vec<DroppedFromDds>)
        requires
            old(self)@.wf(),
        ensures
            final(self)@ == old(self)@.changed_from(change@),
            lists_dropped_from(dropped@, old(self)@, change@),
            final(self)@.wf(),
    {
        let ghost before = self@;
        let mut rest: KeyMap<RouteDDSZenoh> = KeyMap::new();
        std::mem::swap(&mut rest, &mut self.routes_from_dds);
        let mut dropped: Vec<DroppedFromDds> = Vec::new();
        loop
            invariant
                before.wf(),
                self@ == (RuntimeView { routes_from: self@.routes_from, admin: self@.admin, ..before }),
                forall|k: Seq<char>| #[trigger]
                    rest@.contains_key(k) ==> before.routes_from.contains_key(k) && rest@[k] == before.routes_from[k],
                forall|k: Seq<char>| #[trigger]
                    self@.routes_from.contains_key(k) <==> before.routes_from.contains_key(k) && !rest@.contains_key(k)
                        && !before.drops_from(change@, k),
                forall|k: Seq<char>| #[trigger]
                    self@.routes_from.contains_key(k) ==> self@.routes_from[k] == change@.apply(before.routes_from[k]),
                forall|a: Seq<char>| #[trigger]
                    self@.admin.contains_key(a) <==> before.admin.contains_key(a) && !exists|k: Seq<char>| #[trigger]
                        before.drops_from(change@, k) && !rest@.contains_key(k) && a == route_from_admin_text(k),
                forall|a: Seq<char>| #[trigger] self@.admin.contains_key(a) ==> self@.admin[a] == before.admin[a],
                forall|i: int|
                    0 <= i < dropped@.len() ==> before.drops_from(change@, #[trigger] dropped@[i].key@)
                        && !rest@.contains_key(dropped@[i].key@) && dropped@[i].route@ == change@.apply(
                        before.routes_from[dropped@[i].key@],
                    ),
                forall|k: Seq<char>| #[trigger]
                    before.drops_from(change@, k) && !rest@.contains_key(k) ==> exists|i: int|
                        0 <= i < dropped@.len() && #[trigger] dropped@[i].key@ == k,
                forall|i: int, j: int|
                    0 <= i < j < dropped@.len() ==> #[trigger] dropped@[i].key@ != #[trigger] dropped@[j].key@,
            ensures
                rest@ == Map::<Seq<char>, RouteFromView>::empty(),
            decreases rest.order().len(),
        {
            let ghost rest_before = rest@;
            let ghost dropped_before = dropped@;
            let ghost admin_before = self@.admin;
            match rest.pop() {
                Some((text, route)) => {
                    assert(rest_before.contains_key(text@));
                    let key: KeyExpr = KeyExpr::known(text.as_str());
                    let mut route: RouteDDSZenoh = route;
                    let keep: bool = change_route_from(change, &mut route);
                    if keep {
                        self.routes_from_dds.insert(text, route);
                    } else {
                        let admin: KeyExpr = ke_route_from_dds().slash(&key);
                        let _gone: Option<AdminRef> = self.admin_space.remove(admin.as_str());
                        dropped.push(DroppedFromDds { key, route });
                        assert(before.drops_from(change@, key@));
                        assert forall|k: Seq<char>| #[trigger]
                            before.drops_from(change@, k) && !rest@.contains_key(k) implies exists|i: int|
                            0 <= i < dropped@.len() && #[trigger] dropped@[i].key@ == k by {
                            if k == key@ {
                                assert(dropped@[dropped@.len() - 1].key@ == k);
                            } else {
                                let i = choose|i: int| 0 <= i < dropped_before.len() && #[trigger]
                                    dropped_before[i].key@ == k;
                                assert(dropped@[i].key@ == k);
                            }
                        }
                    }
                },
                None => {
                    break;
                },
            }
        }
        assert(self@.routes_from =~= before.changed_from(change@).routes_from);
        assert(self@.admin =~= before.changed_from(change@).admin);
        assert(self@ =~= before.changed_from(change@));
        dropped
    }

    /// Applies a change to all routes to DDS. Gives back those that are no longer used,
    /// and the DDS writers that routes no longer have.
    pub fn change_routes_to_dds(&mut self, change: &ToChange) -> (gone: (Vec<DroppedToDds>, Vec<DeletedWriter>))
        requires
            old(self)@.wf(),
        ensures
            final(self)@ == old(self)@.changed_to(change@),
            lists_dropped_to(gone.0@, old(self)@, change@),
            lists_deleted(gone.1@, old(self)@, change@),
            final(self)@.wf(),
    {
        let ghost before = self@;
        let mut rest: KeyMap<RouteZenohDDS> = KeyMap::new();
        std::mem::swap(&mut rest, &mut self.routes_to_dds);
        let mut dropped: Vec<DroppedToDds> = Vec::new();
        let mut deleted: Vec<DeletedWriter> = Vec::new();
        loop
            invariant
                before.wf(),
                self@ == (RuntimeView { routes_to: self@.routes_to, admin: self@.admin, ..before }),
                forall|k: Seq<char>| #[trigger]
                    rest@.contains_key(k) ==> before.routes_to.contains_key(k) && rest@[k] == before.routes_to[k],
                forall|k: Seq<char>| #[trigger]
                    self@.routes_to.contains_key(k) <==> before.routes_to.contains_key(k) && !rest@.contains_key(k)
                        && !before.drops_to(change@, k),
                forall|k: Seq<char>| #[trigger]
                    self@.routes_to.contains_key(k) ==> self@.routes_to[k] == change@.apply(before.routes_to[k]),
                forall|a: Seq<char>| #[trigger]
                    self@.admin.contains_key(a) <==> before.admin.contains_key(a) && !exists|k: Seq<char>| #[trigger]
                        before.drops_to(change@, k) && !rest@.contains_key(k) && a == route_to_admin_text(k),
                forall|a: Seq<char>| #[trigger] self@.admin.contains_key(a) ==> self@.admin[a] == before.admin[a],
                forall|i: int|
                    0 <= i < dropped@.len() ==> before.drops_to(change@, #[trigger] dropped@[i].key@)
                        && !rest@.contains_key(dropped@[i].key@) && dropped@[i].route@ == change@.apply(
                        before.routes_to[dropped@[i].key@],
                    ),
                forall|k: Seq<char>| #[trigger]
                    before.drops_to(change@, k) && !rest@.contains_key(k) ==> exists|i: int|
                        0 <= i < dropped@.len() && #[trigger] dropped@[i].key@ == k,
                forall|i: int, j: int|
                    0 <= i < j < dropped@.len() ==> #[trigger] dropped@[i].key@ != #[trigger] dropped@[j].key@,
                forall|i: int|
                    0 <= i < deleted@.len() ==> before.deletes(change@, #[trigger] deleted@[i].key@)
                        && !rest@.contains_key(deleted@[i].key@) && deleted@[i].writer
                        == before.routes_to[deleted@[i].key@].dds_writer,
                forall|k: Seq<char>| #[trigger]
                    before.deletes(change@, k) && !rest@.contains_key(k) ==> exists|i: int|
                        0 <= i < deleted@.len() && #[trigger] deleted@[i].key@ == k,
                forall|i: int, j: int|
                    0 <= i < j < deleted@.len() ==> #[trigger] deleted@[i].key@ != #[trigger] deleted@[j].key@,
            ensures
                rest@ == Map::<Seq<char>, RouteToView>::empty(),
            decreases rest.order().len(),
        {
            let ghost rest_before = rest@;
            let ghost dropped_before = dropped@;
            let ghost deleted_before = deleted@;
            match rest.pop() {
                Some((text, route)) => {
                    assert(rest_before.contains_key(text@));
                    let key: KeyExpr = KeyExpr::known(text.as_str());
                    let mut route: RouteZenohDDS = route;
                    let (keep, writer): (bool, Option<i32>) = change_route_to(change, &mut route);
                    if let Some(writer) = writer {
                        deleted.push(DeletedWriter { key: key.clone(), writer });
                        assert(deleted@[deleted@.len() - 1].key@ == key@);
                    }
                    assert forall|k: Seq<char>| #[trigger]
                        before.deletes(change@, k) && !rest@.contains_key(k) implies exists|i: int|
                        0 <= i < deleted@.len() && #[trigger] deleted@[i].key@ == k by {
                        if k != key@ {
                            let i = choose|i: int| 0 <= i < deleted_before.len() && #[trigger]
                                deleted_before[i].key@ == k;
                            assert(deleted@[i].key@ == k);
                        }
                    }
                    if keep {
                        self.routes_to_dds.insert(text, route);
                    } else {
                        let admin: KeyExpr = ke_route_to_dds().slash(&key);
                        let _gone: Option<AdminRef> = self.admin_space.remove(admin.as_str());
                        dropped.push(DroppedToDds { key, route });
                        assert(before.drops_to(change@, key@));
                        assert forall|k: Seq<char>| #[trigger]
                            before.drops_to(change@, k) && !rest@.contains_key(k) implies exists|i: int|
                            0 <= i < dropped@.len() && #[trigger] dropped@[i].key@ == k by {
                            if k == key@ {
                                assert(dropped@[dropped@.len() - 1].key@ == k);
                            } else {
                                let i = choose|i: int| 0 <= i < dropped_before.len() && #[trigger]
                                    dropped_before[i].key@ == k;
                                assert(dropped@[i].key@ == k);
                            }
                        }
                    }
                },
                None => {
                    break;
                },
            }
        }
        assert(self@.routes_to =~= before.changed_to(change@).routes_to);
        assert(self@.admin =~= before.changed_to(change@).admin);
        assert(self@ =~= before.changed_to(change@));
        (dropped, deleted)
    }
}

} // verus!
