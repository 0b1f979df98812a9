//! What holds of a bridge whatever happens.
use vstd::prelude::*;

use crate::admin::AdminValueView;
use crate::changes::{FromChangeView, ToChangeView};
use crate::config::ConfigView;
use crate::departure::bridge_part;
use crate::entity::{sampled_entity, EndpointSample, EntityView, ParticipantView, RouteStatusView};
use crate::gid::hex_text;
use crate::jobs::{FromJobView, OutcomeView, ToJobView};
use crate::key_expr::{fits, lemma_plain, lemma_slashed, literal, plain_from, slashed, valid_key_expr};
use crate::routes::{cache_for, RouteFromView, RouteToView, DDS_ENTITY_NULL};
use crate::routing::{serves, targets_of};
use crate::runtime::{
    entity_admin_text, lemma_new_runtime, new_runtime, participant_admin_text, route_from_admin_text,
    route_to_admin_text, AdminRefView, RuntimeView,
};
use crate::text::occurs;

pub mod leaving;
pub mod nodes;
pub mod planning;
pub mod serving;
pub mod settings;
pub mod telling;
pub mod values;

verus! {

/// A change of what a bridge knows.
pub enum Transition {
    /// A participant is kept.
    Participant(ParticipantView),
    /// A participant is forgotten.
    NoParticipant(Seq<char>),
    /// A writer is kept.
    Writer(EntityView),
    /// A writer is forgotten.
    NoWriter(Seq<char>),
    /// A reader is kept.
    Reader(EntityView),
    /// A reader is forgotten.
    NoReader(Seq<char>),
    /// The next target of a job is routed to zenoh.
    RouteFrom(FromJobView, OutcomeView),
    /// The next target of a job is routed from zenoh.
    RouteTo(ToJobView, OutcomeView),
    /// Something is gone that routes from DDS served.
    ChangeFrom(FromChangeView),
    /// Something is gone that routes to DDS served.
    ChangeTo(ToChangeView),
}

impl RuntimeView {
    /// What a bridge knows after a change.
    pub open spec fn next(self, t: Transition) -> RuntimeView {
        match t {
            Transition::Participant(e) => self.with_participant(participant_admin_text(e.key), e),
            Transition::NoParticipant(key) => self.without_participant(key),
            Transition::Writer(e) => self.with_writer(entity_admin_text(e, true), e),
            Transition::NoWriter(key) => self.without_writer(key),
            Transition::Reader(e) => self.with_reader(entity_admin_text(e, false), e),
            Transition::NoReader(key) => self.without_reader(key),
            Transition::RouteFrom(job, outcome) => self.after_from(job, outcome),
            Transition::RouteTo(job, outcome) => self.after_to(job, outcome),
            Transition::ChangeFrom(change) => self.changed_from(change),
            Transition::ChangeTo(change) => self.changed_to(change),
        }
    }

    /// Whether a change can come: where something has to be made for a route, it is told what came of it.
    pub open spec fn may(self, t: Transition) -> bool {
        match t {
            Transition::RouteFrom(job, outcome) => !job.done() && (self.needs_route_from(job.target().key)
                ==> outcome is Some),
            Transition::RouteTo(job, outcome) => !job.done() && (self.needs_route_to(
                job.target().key,
                job.qos is Some,
            ) ==> outcome is Some),
            _ => true,
        }
    }
}

/// A new bridge has no routes, and its admin space shows what it knows.
pub proof fn law_new_bridge(config: ConfigView)
    ensures
        new_runtime(config).wf(),
        new_runtime(config).routes_allowed(),
        new_runtime(config).remote_writers_served(),
        new_runtime(config).admin_exact(),
{
    lemma_places();
    lemma_new_runtime(config);
    let s = new_runtime(config);
    assert("config"@ != "version"@) by {
        assert("config"@[0] != "version"@[0]);
    }
    assert forall|a: Seq<char>| #[trigger] s.admin.contains_key(a) implies s.entry_exact(a) by {}
}

/// The keys of DDS entities are single chunks. So what is discovered of an endpoint can be shown,
/// where the name of its topic is a key expression.
pub proof fn law_discovered_endpoint_can_be_shown(sample: EndpointSample, topic_name: Seq<char>, topic_type: Seq<char>)
    requires
        valid_key_expr(topic_name),
    ensures
        ({
            let e = sampled_entity(sample, topic_name, topic_type);
            &&& one_chunk(e.key)
            &&& one_chunk(e.participant_key)
            &&& valid_key_expr(entity_admin_text(e, true))
            &&& valid_key_expr(entity_admin_text(e, false))
        }),
{
    let e = sampled_entity(sample, topic_name, topic_type);
    lemma_hex_chunk(sample.key@);
    lemma_hex_chunk(sample.participant_key@);
    reveal_strlit("participant");
    reveal_strlit("writer");
    reveal_strlit("reader");
    reveal_with_fuel(plain_from, 13);
    lemma_plain("participant"@);
    lemma_plain("writer"@);
    lemma_plain("reader"@);
    lemma_entity_text(e, true);
    lemma_entity_text(e, false);
    lemma_slashed(e.key, topic_name);
    let rest = slashed(e.key, topic_name);
    lemma_slashed("writer"@, rest);
    lemma_slashed("reader"@, rest);
    lemma_slashed(e.participant_key, slashed("writer"@, rest));
    lemma_slashed(e.participant_key, slashed("reader"@, rest));
    lemma_slashed("participant"@, slashed(e.participant_key, slashed("writer"@, rest)));
    lemma_slashed("participant"@, slashed(e.participant_key, slashed("reader"@, rest)));
}

/// Bytes in hexadecimal are a key expression of a single chunk.
proof fn lemma_hex_chunk(bytes: Seq<u8>)
    requires
        bytes.len() > 0,
    ensures
        one_chunk(hex_text(bytes)),
        literal(hex_text(bytes)),
        valid_key_expr(hex_text(bytes)),
{
    let text = hex_text(bytes);
    assert forall|i: int| 0 <= i < text.len() implies '0' <= #[trigger] text[i] <= 'f' && text[i] != '?' by {
        assert(0 <= bytes[i / 2] as int / 16 < 16);
    }
    assert forall|i: int| 0 <= i < text.len() implies #[trigger] fits(text, i) by {
        assert('0' <= text[i] <= 'f');
    }
}

/// No route is ever there that the settings do not allow.
pub proof fn law_routes_stay_allowed(s: RuntimeView, t: Transition)
    requires
        s.routes_allowed(),
        s.may(t),
    ensures
        s.next(t).routes_allowed(),
        s.next(t).config == s.config,
{
}

impl RuntimeView {
    /// Whether every route to DDS that serves a remote writer has a DDS writer.
    pub open spec fn remote_writers_served(self) -> bool {
        forall|ke: Seq<char>| #[trigger]
            self.routes_to.contains_key(ke) && self.routes_to[ke].remote != Set::<Seq<char>>::empty()
                ==> self.routes_to[ke].dds_writer != DDS_ENTITY_NULL
    }
}

/// A route that serves a writer of another bridge always has a DDS writer for its data,
/// where the handles that DDS gives are not that of no entity.
pub proof fn law_remote_writers_stay_served(s: RuntimeView, t: Transition)
    requires
        s.remote_writers_served(),
        s.may(t),
        t matches Transition::RouteTo(job, outcome) ==> (job.remote ==> job.qos is Some && outcome != Some(
            Ok::<i32, Seq<char>>(DDS_ENTITY_NULL),
        )),
    ensures
        s.next(t).remote_writers_served(),
{
    let after = s.next(t);
    assert forall|ke: Seq<char>| #[trigger]
        after.routes_to.contains_key(ke) && after.routes_to[ke].remote != Set::<Seq<char>>::empty() implies after.routes_to[ke].dds_writer
        != DDS_ENTITY_NULL by {
        match t {
            Transition::RouteTo(job, outcome) => {
                let target = job.target();
                if ke != target.key {
                    assert(s.routes_to.contains_key(ke));
                } else if s.routes_to.contains_key(ke) {
                    if !job.remote {
                        assert(after.routes_to[ke].remote =~= s.routes_to[ke].remote);
                    }
                } else if !job.remote {
                    assert(after.routes_to[ke].remote =~= Set::empty());
                }
            },
            Transition::ChangeTo(change) => {
                assert(s.routes_to.contains_key(ke));
                if s.routes_to[ke].remote == Set::<Seq<char>>::empty() {
                    assert(after.routes_to[ke].remote =~= Set::empty());
                }
            },
            _ => {
                assert(s.routes_to.contains_key(ke));
            },
        }
    }
}

/// When a local writer is gone no route from DDS serves it, each route that is left serves another local writer,
/// and a route that served others only is as it was.
pub proof fn law_gone_writer_is_served_no_more(s: RuntimeView, key: Seq<char>, ke: Seq<char>)
    requires
        s.writers.contains_key(key),
    ensures
        !s.writer_gone(key).writers.contains_key(key),
        s.writer_gone(key).routes_from.contains_key(ke) ==> {
            let route = s.writer_gone(key).routes_from[ke];
            !route.local.contains(key) && route.local != Set::<Seq<char>>::empty()
        },
        s.routes_from.contains_key(ke) && !s.routes_from[ke].local.contains(key) && s.routes_from[ke].local != Set::<
            Seq<char>,
        >::empty() ==> s.writer_gone(key).routes_from.contains_key(ke) && s.writer_gone(key).routes_from[ke]
            == s.routes_from[ke],
        s.writer_gone(key).routes_to == s.routes_to,
{
    if s.routes_from.contains_key(ke) && !s.routes_from[ke].local.contains(key) {
        assert(s.routes_from[ke].local.remove(key) =~= s.routes_from[ke].local);
    }
}

/// When a local reader is gone no route to DDS serves it, each route that is left serves another local reader,
/// and a route that served others only is as it was.
pub proof fn law_gone_reader_is_served_no_more(s: RuntimeView, key: Seq<char>, ke: Seq<char>)
    requires
        s.readers.contains_key(key),
    ensures
        !s.reader_gone(key).readers.contains_key(key),
        s.reader_gone(key).routes_to.contains_key(ke) ==> {
            let route = s.reader_gone(key).routes_to[ke];
            !route.local.contains(key) && route.local != Set::<Seq<char>>::empty()
        },
        s.routes_to.contains_key(ke) && !s.routes_to[ke].local.contains(key) && s.routes_to[ke].local != Set::<
            Seq<char>,
        >::empty() ==> s.reader_gone(key).routes_to.contains_key(ke) && s.reader_gone(key).routes_to[ke]
            == s.routes_to[ke],
        s.reader_gone(key).routes_from == s.routes_from,
{
    if s.routes_to.contains_key(ke) && !s.routes_to[ke].local.contains(key) {
        assert(s.routes_to[ke].local.remove(key) =~= s.routes_to[ke].local);
    }
}

/// Where discovery is forwarded, a route to DDS goes with its last endpoint, be it a local reader or a remote writer:
/// a route that is left serves one, and none that is gone.
pub proof fn law_forwarding_routes_serve_someone(s: RuntimeView, key: Seq<char>, admin: Seq<char>, ke: Seq<char>)
    ensures
        s.forwarded_reader_gone(key).routes_to.contains_key(ke) ==> {
            let route = s.forwarded_reader_gone(key).routes_to[ke];
            !route.local.contains(key) && (route.local != Set::<Seq<char>>::empty() || route.remote != Set::<
                Seq<char>,
            >::empty())
        },
        s.changed_to(ToChangeView::RemoteWriterGone(admin)).routes_to.contains_key(ke) ==> {
            let route = s.changed_to(ToChangeView::RemoteWriterGone(admin)).routes_to[ke];
            &&& !route.remote.contains(admin)
            &&& route.local != Set::<Seq<char>>::empty() || route.remote != Set::<Seq<char>>::empty()
            &&& route.remote == Set::<Seq<char>>::empty() ==> route.dds_writer == DDS_ENTITY_NULL
        },
        s.changed_from(FromChangeView::RemoteReaderGone(admin)).routes_from.contains_key(ke) ==> {
            let route = s.changed_from(FromChangeView::RemoteReaderGone(admin)).routes_from[ke];
            !route.remote.contains(admin) && route.remote != Set::<Seq<char>>::empty()
        },
{
}

/// When another bridge has left, no route serves an endpoint of it, and each route that is left
/// serves an endpoint of yet another bridge.
pub proof fn law_gone_bridge_is_served_no_more(s: RuntimeView, zid: Seq<char>, ke: Seq<char>, admin: Seq<char>)
    requires
        occurs(admin, bridge_part(zid)),
    ensures
        s.bridge_gone(zid).routes_from.contains_key(ke) ==> {
            let route = s.bridge_gone(zid).routes_from[ke];
            !route.remote.contains(admin) && route.remote != Set::<Seq<char>>::empty()
        },
        s.bridge_gone(zid).routes_to.contains_key(ke) ==> {
            let route = s.bridge_gone(zid).routes_to[ke];
            !route.remote.contains(admin) && route.remote != Set::<Seq<char>>::empty()
        },
        s.bridge_gone(zid).writers == s.writers,
        s.bridge_gone(zid).readers == s.readers,
{
}

impl RuntimeView {
    /// Whether the targets of a job that are done are told by the endpoint, each as it is routed: it is not allowed
    /// exactly where the settings say so, and where it is routed a route is there that serves the endpoint.
    pub open spec fn progress_from(self, job: FromJobView) -> bool {
        forall|i: int|
            0 <= i < job.next && i < job.targets.len() ==> {
                let target = #[trigger] job.targets[i];
                let routes = job.entity.routes;
                &&& routes.contains_key(target.label())
                &&& routes[target.label()] == RouteStatusView::NotAllowed <==> !self.config.allows(target.key)
                &&& routes[target.label()] matches RouteStatusView::Routed(ke) ==> ke == target.key
                    && self.routes_from.contains_key(ke) && self.routes_from[ke].local.contains(job.entity.key)
            }
    }

    /// The same of a job from zenoh.
    pub open spec fn progress_to(self, job: ToJobView) -> bool {
        forall|i: int|
            0 <= i < job.next && i < job.targets.len() ==> {
                let target = #[trigger] job.targets[i];
                let routes = job.entity.routes;
                &&& routes.contains_key(target.label())
                &&& routes[target.label()] == RouteStatusView::NotAllowed <==> !self.config.allows(target.key)
                &&& routes[target.label()] matches RouteStatusView::Routed(ke) ==> ke == target.key
                    && self.routes_to.contains_key(ke) && self.routes_to[ke].local.contains(job.entity.key)
            }
    }
}

/// A local writer is routed for every one of its partitions: with each target that is done it tells how,
/// so that when all are done it tells it of all.
pub proof fn law_writer_tells_how_it_is_routed(s: RuntimeView, job: FromJobView, outcome: OutcomeView)
    requires
        !job.remote,
        0 <= job.next,
        s.may(Transition::RouteFrom(job, outcome)),
        job.targets == targets_of(job.entity, s.config.scope),
        s.progress_from(job),
    ensures
        s.after_from(job, outcome).progress_from(job.after(s.job_status_from(job, outcome))),
        ({
            let done = job.after(s.job_status_from(job, outcome));
            done.targets == targets_of(done.entity, s.after_from(job, outcome).config.scope)
        }),
{
    let after = s.after_from(job, outcome);
    let done = job.after(s.job_status_from(job, outcome));
    assert(done.targets =~= targets_of(done.entity, after.config.scope));
    assert forall|i: int| 0 <= i < done.next && i < done.targets.len() implies {
        let target = #[trigger] done.targets[i];
        let routes = done.entity.routes;
        &&& routes.contains_key(target.label())
        &&& routes[target.label()] == RouteStatusView::NotAllowed <==> !after.config.allows(target.key)
        &&& routes[target.label()] matches RouteStatusView::Routed(ke) ==> ke == target.key
            && after.routes_from.contains_key(ke) && after.routes_from[ke].local.contains(done.entity.key)
    } by {
        let target = job.targets[i];
        assert(job.targets[job.next] == job.target());
        if target.label() == job.target().label() {
            // two targets are both with a partition, or the only one
            assert(target.partition == job.target().partition);
            assert(target.key == job.target().key);
        } else {
            assert(i < job.next);
        }
    }
}

/// A local reader is routed for every one of its partitions: with each target that is done it tells how,
/// so that when all are done it tells it of all.
pub proof fn law_reader_tells_how_it_is_routed(s: RuntimeView, job: ToJobView, outcome: OutcomeView)
    requires
        !job.remote,
        0 <= job.next,
        s.may(Transition::RouteTo(job, outcome)),
        job.targets == targets_of(job.entity, s.config.scope),
        s.progress_to(job),
    ensures
        s.after_to(job, outcome).progress_to(job.after(s.job_status_to(job, outcome))),
        ({
            let done = job.after(s.job_status_to(job, outcome));
            done.targets == targets_of(done.entity, s.after_to(job, outcome).config.scope)
        }),
{
    let after = s.after_to(job, outcome);
    let done = job.after(s.job_status_to(job, outcome));
    assert(done.targets =~= targets_of(done.entity, after.config.scope));
    assert forall|i: int| 0 <= i < done.next && i < done.targets.len() implies {
        let target = #[trigger] done.targets[i];
        let routes = done.entity.routes;
        &&& routes.contains_key(target.label())
        &&& routes[target.label()] == RouteStatusView::NotAllowed <==> !after.config.allows(target.key)
        &&& routes[target.label()] matches RouteStatusView::Routed(ke) ==> ke == target.key
            && after.routes_to.contains_key(ke) && after.routes_to[ke].local.contains(done.entity.key)
    } by {
        let target = job.targets[i];
        assert(job.targets[job.next] == job.target());
        if target.label() == job.target().label() {
            // two targets are both with a partition, or the only one
            assert(target.partition == job.target().partition);
            assert(target.key == job.target().key);
        } else {
            assert(i < job.next);
        }
    }
}

/// The replica of a remote writer serves it, and all local readers of the same topic and partition, which tell so.
pub proof fn law_remote_writer_meets_local_readers(s: RuntimeView, job: ToJobView, outcome: OutcomeView, key: Seq<char>)
    requires
        job.remote,
        s.may(Transition::RouteTo(job, outcome)),
        s.job_status_to(job, outcome) == RouteStatusView::Routed(job.target().key),
    ensures
        ({
            let after = s.after_to(job, outcome);
            let ke = job.target().key;
            &&& after.routes_to.contains_key(ke)
            &&& after.routes_to[ke].remote.contains(job.admin)
            &&& s.readers.contains_key(key) && serves(s.readers[key], job.entity.topic_name, job.target().partition)
                ==> after.routes_to[ke].local.contains(key)
                && after.readers[key].routes[job.target().label()] == RouteStatusView::Routed(ke)
        }),
{
}

/// The replica of a remote reader serves it, and all local writers of the same topic and partition, which tell so.
pub proof fn law_remote_reader_meets_local_writers(s: RuntimeView, job: FromJobView, outcome: OutcomeView, key: Seq<char>)
    requires
        job.remote,
        s.may(Transition::RouteFrom(job, outcome)),
        s.job_status_from(job, outcome) == RouteStatusView::Routed(job.target().key),
    ensures
        ({
            let after = s.after_from(job, outcome);
            let ke = job.target().key;
            &&& after.routes_from.contains_key(ke)
            &&& after.routes_from[ke].remote.contains(job.admin)
            &&& s.writers.contains_key(key) && serves(s.writers[key], job.entity.topic_name, job.target().partition)
                ==> after.routes_from[ke].local.contains(key)
                && after.writers[key].routes[job.target().label()] == RouteStatusView::Routed(ke)
        }),
{
}

/// Whether a text holds no `/`.
pub open spec fn one_chunk(text: Seq<char>) -> bool {
    forall|i: int| 0 <= i < text.len() ==> #[trigger] text[i] != '/'
}

/// Where a text is cut at its first `/` is determined.
proof fn lemma_first_chunk(a: Seq<char>, rest_a: Seq<char>, b: Seq<char>, rest_b: Seq<char>)
    requires
        one_chunk(a),
        one_chunk(b),
        slashed(a, rest_a) == slashed(b, rest_b),
    ensures
        a == b,
        rest_a == rest_b,
{
    let text = slashed(a, rest_a);
    assert(text[a.len() as int] == '/');
    assert(slashed(b, rest_b)[b.len() as int] == '/');
    if a.len() < b.len() {
        assert(slashed(b, rest_b)[a.len() as int] == b[a.len() as int]);
    }
    if b.len() < a.len() {
        assert(text[b.len() as int] == a[b.len() as int]);
    }
    assert(text.take(a.len() as int) =~= a);
    assert(text.take(a.len() as int) =~= b);
    assert(text.skip(a.len() as int + 1) =~= rest_a);
    assert(text.skip(a.len() as int + 1) =~= rest_b);
}

spec fn kind_word(is_writer: bool) -> Seq<char> {
    if is_writer {
        "writer"@
    } else {
        "reader"@
    }
}

proof fn lemma_entity_text(e: EntityView, is_writer: bool)
    ensures
        entity_admin_text(e, is_writer) == slashed(
            "participant"@,
            slashed(e.participant_key, slashed(kind_word(is_writer), slashed(e.key, e.topic_name))),
        ),
        one_chunk(kind_word(is_writer)),
        one_chunk("participant"@),
        kind_word(true) != kind_word(false),
{
    reveal_strlit("participant/");
    reveal_strlit("participant");
    reveal_strlit("/writer/");
    reveal_strlit("/reader/");
    reveal_strlit("writer");
    reveal_strlit("reader");
    reveal_strlit("/");
    assert("writer"@[0] != "reader"@[0]);
    assert(entity_admin_text(e, is_writer) =~= slashed(
        "participant"@,
        slashed(e.participant_key, slashed(kind_word(is_writer), slashed(e.key, e.topic_name))),
    ));
}

/// Where an endpoint is shown tells its key and whether it is a writer.
proof fn lemma_entity_texts(e: EntityView, is_writer: bool, f: EntityView, writes: bool)
    requires
        one_chunk(e.participant_key),
        one_chunk(e.key),
        one_chunk(f.participant_key),
        one_chunk(f.key),
        entity_admin_text(e, is_writer) == entity_admin_text(f, writes),
    ensures
        e.key == f.key,
        is_writer == writes,
{
    lemma_entity_text(e, is_writer);
    lemma_entity_text(f, writes);
    let e3 = slashed(e.key, e.topic_name);
    let f3 = slashed(f.key, f.topic_name);
    let e2 = slashed(kind_word(is_writer), e3);
    let f2 = slashed(kind_word(writes), f3);
    let e1 = slashed(e.participant_key, e2);
    let f1 = slashed(f.participant_key, f2);
    lemma_first_chunk("participant"@, e1, "participant"@, f1);
    lemma_first_chunk(e.participant_key, e2, f.participant_key, f2);
    lemma_first_chunk(kind_word(is_writer), e3, kind_word(writes), f3);
    lemma_first_chunk(e.key, e.topic_name, f.key, f.topic_name);
}

/// An endpoint is not shown where a participant is.
proof fn lemma_entity_not_participant(e: EntityView, is_writer: bool, key: Seq<char>)
    requires
        one_chunk(key),
    ensures
        entity_admin_text(e, is_writer) != participant_admin_text(key),
{
    lemma_entity_text(e, is_writer);
    reveal_strlit("participant/");
    reveal_strlit("participant");
    if entity_admin_text(e, is_writer) == participant_admin_text(key) {
        let at = "participant"@.len() + 1 + e.participant_key.len();
        let text = entity_admin_text(e, is_writer);
        assert(at < text.len());
        assert(text[at as int] == '/');
        assert(participant_admin_text(key).len() == 12 + key.len());
        assert(participant_admin_text(key)[at as int] == key[at - 12]);
    }
}

/// The places for different things differ.
pub proof fn lemma_places()
    ensures
        forall|k: Seq<char>, j: Seq<char>| #[trigger]
            participant_admin_text(k) == #[trigger] participant_admin_text(j) ==> k == j,
        forall|k: Seq<char>, j: Seq<char>| #[trigger]
            route_from_admin_text(k) == #[trigger] route_from_admin_text(j) ==> k == j,
        forall|k: Seq<char>, j: Seq<char>| #[trigger]
            route_to_admin_text(k) == #[trigger] route_to_admin_text(j) ==> k == j,
        forall|k: Seq<char>| (#[trigger] participant_admin_text(k))[0] == 'p',
        forall|e: EntityView, w: bool| (#[trigger] entity_admin_text(e, w))[0] == 'p',
        forall|k: Seq<char>| (#[trigger] route_from_admin_text(k))[0] == 'r' && route_from_admin_text(k)[6] == 'f',
        forall|k: Seq<char>| (#[trigger] route_to_admin_text(k))[0] == 'r' && route_to_admin_text(k)[6] == 't',
        "config"@[0] == 'c',
        "version"@[0] == 'v',
{
    reveal_strlit("participant/");
    reveal_strlit("config");
    reveal_strlit("version");
    reveal_strlit("route/from_dds");
    reveal_strlit("route/to_dds");
    assert forall|k: Seq<char>, j: Seq<char>| #[trigger]
        participant_admin_text(k) == #[trigger] participant_admin_text(j) implies k == j by {
        assert(participant_admin_text(k).skip(12) =~= k);
        assert(participant_admin_text(j).skip(12) =~= j);
    }
    assert forall|k: Seq<char>, j: Seq<char>| #[trigger]
        route_from_admin_text(k) == #[trigger] route_from_admin_text(j) implies k == j by {
        assert(route_from_admin_text(k).skip(15) =~= k);
        assert(route_from_admin_text(j).skip(15) =~= j);
    }
    assert forall|k: Seq<char>, j: Seq<char>| #[trigger]
        route_to_admin_text(k) == #[trigger] route_to_admin_text(j) implies k == j by {
        assert(route_to_admin_text(k).skip(13) =~= k);
        assert(route_to_admin_text(j).skip(13) =~= j);
    }
}

impl RuntimeView {
    /// Whether the entry `a` of the admin space is for something that exists, and stands where that belongs.
    pub open spec fn entry_exact(self, a: Seq<char>) -> bool {
        match self.admin[a] {
            AdminRefView::DdsParticipant(key) => self.participants.contains_key(key) && a == participant_admin_text(key),
            AdminRefView::DdsWriterEntity(key) => self.writers.contains_key(key) && a == entity_admin_text(
                self.writers[key],
                true,
            ),
            AdminRefView::DdsReaderEntity(key) => self.readers.contains_key(key) && a == entity_admin_text(
                self.readers[key],
                false,
            ),
            AdminRefView::FromDdsRoute(ke) => self.routes_from.contains_key(ke) && a == route_from_admin_text(ke),
            AdminRefView::ToDdsRoute(ke) => self.routes_to.contains_key(ke) && a == route_to_admin_text(ke),
            AdminRefView::Config => a == "config"@,
            AdminRefView::Version => a == "version"@,
        }
    }

    /// Whether the admin space has `admin_ref` at `a`.
    pub open spec fn has_entry(self, a: Seq<char>, admin_ref: AdminRefView) -> bool {
        self.admin.contains_key(a) && self.admin[a] == admin_ref
    }

    /// Whether the admin space shows what the bridge knows: everything, where it belongs, and nothing else.
    pub open spec fn admin_exact(self) -> bool {
        &&& self.has_entry("config"@, AdminRefView::Config)
        &&& self.has_entry("version"@, AdminRefView::Version)
        &&& forall|key: Seq<char>| #[trigger]
            self.participants.contains_key(key) ==> one_chunk(key) && self.has_entry(
                participant_admin_text(key),
                AdminRefView::DdsParticipant(key),
            )
        &&& forall|key: Seq<char>| #[trigger]
            self.writers.contains_key(key) ==> one_chunk(key) && one_chunk(self.writers[key].participant_key)
                && self.has_entry(entity_admin_text(self.writers[key], true), AdminRefView::DdsWriterEntity(key))
        &&& forall|key: Seq<char>| #[trigger]
            self.readers.contains_key(key) ==> one_chunk(key) && one_chunk(self.readers[key].participant_key)
                && self.has_entry(entity_admin_text(self.readers[key], false), AdminRefView::DdsReaderEntity(key))
        &&& forall|ke: Seq<char>| #[trigger]
            self.routes_from.contains_key(ke) ==> self.has_entry(
                route_from_admin_text(ke),
                AdminRefView::FromDdsRoute(ke),
            )
        &&& forall|ke: Seq<char>| #[trigger]
            self.routes_to.contains_key(ke) ==> self.has_entry(route_to_admin_text(ke), AdminRefView::ToDdsRoute(ke))
        &&& forall|a: Seq<char>| #[trigger] self.admin.contains_key(a) ==> self.entry_exact(a)
    }

    /// Whether an endpoint or a participant that is kept has the keys of DDS, and does not stand
    /// in another place than one of the same key that is known.
    pub open spec fn keeps_place(self, t: Transition) -> bool {
        match t {
            Transition::Participant(e) => one_chunk(e.key),
            Transition::Writer(e) => one_chunk(e.key) && one_chunk(e.participant_key) && (self.writers.contains_key(
                e.key,
            ) ==> entity_admin_text(self.writers[e.key], true) == entity_admin_text(e, true)),
            Transition::Reader(e) => one_chunk(e.key) && one_chunk(e.participant_key) && (self.readers.contains_key(
                e.key,
            ) ==> entity_admin_text(self.readers[e.key], false) == entity_admin_text(e, false)),
            _ => true,
        }
    }
}

/// An endpoint stands apart from everything else that is shown.
proof fn lemma_entity_apart(s: RuntimeView, e: EntityView, is_writer: bool)
    requires
        s.wf(),
        s.admin_exact(),
        one_chunk(e.key),
        one_chunk(e.participant_key),
    ensures
        forall|key: Seq<char>| #[trigger]
            s.writers.contains_key(key) && (!is_writer || key != e.key) ==> entity_admin_text(s.writers[key], true)
                != entity_admin_text(e, is_writer),
        forall|key: Seq<char>| #[trigger]
            s.readers.contains_key(key) && (is_writer || key != e.key) ==> entity_admin_text(s.readers[key], false)
                != entity_admin_text(e, is_writer),
        forall|key: Seq<char>| #[trigger]
            s.participants.contains_key(key) ==> participant_admin_text(key) != entity_admin_text(e, is_writer),
{
    assert forall|key: Seq<char>| #[trigger]
        s.writers.contains_key(key) && (!is_writer || key != e.key) implies entity_admin_text(s.writers[key], true)
        != entity_admin_text(e, is_writer) by {
        if entity_admin_text(s.writers[key], true) == entity_admin_text(e, is_writer) {
            lemma_entity_texts(s.writers[key], true, e, is_writer);
        }
    }
    assert forall|key: Seq<char>| #[trigger]
        s.readers.contains_key(key) && (is_writer || key != e.key) implies entity_admin_text(s.readers[key], false)
        != entity_admin_text(e, is_writer) by {
        if entity_admin_text(s.readers[key], false) == entity_admin_text(e, is_writer) {
            lemma_entity_texts(s.readers[key], false, e, is_writer);
        }
    }
    assert forall|key: Seq<char>| #[trigger] s.participants.contains_key(key) implies participant_admin_text(key)
        != entity_admin_text(e, is_writer) by {
        lemma_entity_not_participant(e, is_writer, key);
    }
}

proof fn lemma_admin_with_participant(s: RuntimeView, e: ParticipantView)
    requires
        s.wf(),
        s.admin_exact(),
        one_chunk(e.key),
    ensures
        s.with_participant(participant_admin_text(e.key), e).admin_exact(),
{
    lemma_places();
    assert forall|key: Seq<char>| #[trigger] s.writers.contains_key(key) implies entity_admin_text(s.writers[key], true)
        != participant_admin_text(e.key) by {
        lemma_entity_not_participant(s.writers[key], true, e.key);
    }
    assert forall|key: Seq<char>| #[trigger] s.readers.contains_key(key) implies entity_admin_text(
        s.readers[key],
        false,
    ) != participant_admin_text(e.key) by {
        lemma_entity_not_participant(s.readers[key], false, e.key);
    }
    let after = s.with_participant(participant_admin_text(e.key), e);
    assert forall|a: Seq<char>| #[trigger] after.admin.contains_key(a) implies after.entry_exact(a) by {
        if a != participant_admin_text(e.key) {
            assert(s.admin.contains_key(a));
            assert(s.entry_exact(a));
        }
    }
    assert forall|key: Seq<char>| #[trigger] after.participants.contains_key(key) implies one_chunk(key)
        && after.has_entry(participant_admin_text(key), AdminRefView::DdsParticipant(key)) by {
        if key != e.key {
            assert(s.participants.contains_key(key));
            assert(participant_admin_text(key) != participant_admin_text(e.key));
        }
    }
}

proof fn lemma_admin_without_participant(s: RuntimeView, key: Seq<char>)
    requires
        s.wf(),
        s.admin_exact(),
    ensures
        s.without_participant(key).admin_exact(),
{
    lemma_places();
    if s.participants.contains_key(key) {
        assert forall|k: Seq<char>| #[trigger] s.writers.contains_key(k) implies entity_admin_text(s.writers[k], true)
            != participant_admin_text(key) by {
            lemma_entity_not_participant(s.writers[k], true, key);
        }
        assert forall|k: Seq<char>| #[trigger] s.readers.contains_key(k) implies entity_admin_text(s.readers[k], false)
            != participant_admin_text(key) by {
            lemma_entity_not_participant(s.readers[k], false, key);
        }
        let after = s.without_participant(key);
        assert forall|a: Seq<char>| #[trigger] after.admin.contains_key(a) implies after.entry_exact(a) by {
            assert(s.admin.contains_key(a));
            assert(s.entry_exact(a));
        }
        assert forall|k: Seq<char>| #[trigger] after.participants.contains_key(k) implies one_chunk(k)
            && after.has_entry(participant_admin_text(k), AdminRefView::DdsParticipant(k)) by {
            assert(s.participants.contains_key(k));
            assert(participant_admin_text(k) != participant_admin_text(key));
        }
    }
}

proof fn lemma_admin_with_writer(s: RuntimeView, e: EntityView)
    requires
        s.wf(),
        s.admin_exact(),
        s.keeps_place(Transition::Writer(e)),
    ensures
        s.with_writer(entity_admin_text(e, true), e).admin_exact(),
{
    lemma_places();
    lemma_entity_apart(s, e, true);
    let after = s.with_writer(entity_admin_text(e, true), e);
    assert forall|a: Seq<char>| #[trigger] after.admin.contains_key(a) implies after.entry_exact(a) by {
        if a != entity_admin_text(e, true) {
            assert(s.admin.contains_key(a));
            assert(s.entry_exact(a));
        }
    }
    assert forall|key: Seq<char>| #[trigger] after.writers.contains_key(key) implies one_chunk(key) && one_chunk(
        after.writers[key].participant_key,
    ) && after.has_entry(entity_admin_text(after.writers[key], true), AdminRefView::DdsWriterEntity(key)) by {
        if key != e.key {
            assert(s.writers.contains_key(key));
        }
    }
}

proof fn lemma_admin_without_writer(s: RuntimeView, key: Seq<char>)
    requires
        s.wf(),
        s.admin_exact(),
    ensures
        s.without_writer(key).admin_exact(),
{
    lemma_places();
    if s.writers.contains_key(key) {
        lemma_entity_apart(s, s.writers[key], true);
        let after = s.without_writer(key);
        assert forall|a: Seq<char>| #[trigger] after.admin.contains_key(a) implies after.entry_exact(a) by {
            assert(s.admin.contains_key(a));
            assert(s.entry_exact(a));
        }
        assert forall|k: Seq<char>| #[trigger] after.writers.contains_key(k) implies one_chunk(k) && one_chunk(
            after.writers[k].participant_key,
        ) && after.has_entry(entity_admin_text(after.writers[k], true), AdminRefView::DdsWriterEntity(k)) by {
            assert(s.writers.contains_key(k));
        }
    }
}

proof fn lemma_admin_with_reader(s: RuntimeView, e: EntityView)
    requires
        s.wf(),
        s.admin_exact(),
        s.keeps_place(Transition::Reader(e)),
    ensures
        s.with_reader(entity_admin_text(e, false), e).admin_exact(),
{
    lemma_places();
    lemma_entity_apart(s, e, false);
    let after = s.with_reader(entity_admin_text(e, false), e);
    assert forall|a: Seq<char>| #[trigger] after.admin.contains_key(a) implies after.entry_exact(a) by {
        if a != entity_admin_text(e, false) {
            assert(s.admin.contains_key(a));
            assert(s.entry_exact(a));
        }
    }
    assert forall|key: Seq<char>| #[trigger] after.readers.contains_key(key) implies one_chunk(key) && one_chunk(
        after.readers[key].participant_key,
    ) && after.has_entry(entity_admin_text(after.readers[key], false), AdminRefView::DdsReaderEntity(key)) by {
        if key != e.key {
            assert(s.readers.contains_key(key));
        }
    }
}

proof fn lemma_admin_without_reader(s: RuntimeView, key: Seq<char>)
    requires
        s.wf(),
        s.admin_exact(),
    ensures
        s.without_reader(key).admin_exact(),
{
    lemma_places();
    if s.readers.contains_key(key) {
        lemma_entity_apart(s, s.readers[key], false);
        let after = s.without_reader(key);
        assert forall|a: Seq<char>| #[trigger] after.admin.contains_key(a) implies after.entry_exact(a) by {
            assert(s.admin.contains_key(a));
            assert(s.entry_exact(a));
        }
        assert forall|k: Seq<char>| #[trigger] after.readers.contains_key(k) implies one_chunk(k) && one_chunk(
            after.readers[k].participant_key,
        ) && after.has_entry(entity_admin_text(after.readers[k], false), AdminRefView::DdsReaderEntity(k)) by {
            assert(s.readers.contains_key(k));
        }
    }
}

/// What is shown stays exact when routes change what they serve and endpoints how they are routed.
proof fn lemma_admin_same_keys(s: RuntimeView, after: RuntimeView)
    requires
        s.admin_exact(),
        after.admin == s.admin,
        after.participants == s.participants,
        after.routes_from.dom() == s.routes_from.dom(),
        after.routes_to.dom() == s.routes_to.dom(),
        after.writers.dom() == s.writers.dom(),
        after.readers.dom() == s.readers.dom(),
        forall|k: Seq<char>| #[trigger]
            s.writers.contains_key(k) ==> entity_admin_text(after.writers[k], true) == entity_admin_text(
                s.writers[k],
                true,
            ) && after.writers[k].participant_key == s.writers[k].participant_key,
        forall|k: Seq<char>| #[trigger]
            s.readers.contains_key(k) ==> entity_admin_text(after.readers[k], false) == entity_admin_text(
                s.readers[k],
                false,
            ) && after.readers[k].participant_key == s.readers[k].participant_key,
    ensures
        after.admin_exact(),
{
    assert forall|k: Seq<char>| after.writers.contains_key(k) == s.writers.contains_key(k) by {
        assert(after.writers.dom().contains(k) == s.writers.dom().contains(k));
    }
    assert forall|k: Seq<char>| after.readers.contains_key(k) == s.readers.contains_key(k) by {
        assert(after.readers.dom().contains(k) == s.readers.dom().contains(k));
    }
    assert forall|k: Seq<char>| after.routes_from.contains_key(k) == s.routes_from.contains_key(k) by {
        assert(after.routes_from.dom().contains(k) == s.routes_from.dom().contains(k));
    }
    assert forall|k: Seq<char>| after.routes_to.contains_key(k) == s.routes_to.contains_key(k) by {
        assert(after.routes_to.dom().contains(k) == s.routes_to.dom().contains(k));
    }
    assert forall|a: Seq<char>| #[trigger] after.admin.contains_key(a) implies after.entry_exact(a) by {
        assert(s.entry_exact(a));
    }
    assert forall|k: Seq<char>| #[trigger] after.writers.contains_key(k) implies one_chunk(k) && one_chunk(
        after.writers[k].participant_key,
    ) && after.has_entry(entity_admin_text(after.writers[k], true), AdminRefView::DdsWriterEntity(k)) by {
        assert(s.writers.contains_key(k));
    }
    assert forall|k: Seq<char>| #[trigger] after.readers.contains_key(k) implies one_chunk(k) && one_chunk(
        after.readers[k].participant_key,
    ) && after.has_entry(entity_admin_text(after.readers[k], false), AdminRefView::DdsReaderEntity(k)) by {
        assert(s.readers.contains_key(k));
    }
    assert forall|ke: Seq<char>| #[trigger] after.routes_from.contains_key(ke) implies after.has_entry(
        route_from_admin_text(ke),
        AdminRefView::FromDdsRoute(ke),
    ) by {
        assert(s.routes_from.contains_key(ke));
    }
    assert forall|ke: Seq<char>| #[trigger] after.routes_to.contains_key(ke) implies after.has_entry(
        route_to_admin_text(ke),
        AdminRefView::ToDdsRoute(ke),
    ) by {
        assert(s.routes_to.contains_key(ke));
    }
}

proof fn lemma_admin_with_route_from(s: RuntimeView, ke: Seq<char>, r: RouteFromView)
    requires
        s.admin_exact(),
    ensures
        s.with_route_from(ke, r).admin_exact(),
{
    lemma_places();
    let after = s.with_route_from(ke, r);
    assert forall|a: Seq<char>| #[trigger] after.admin.contains_key(a) implies after.entry_exact(a) by {
        if a != route_from_admin_text(ke) {
            assert(s.admin.contains_key(a));
            assert(s.entry_exact(a));
        }
    }
    assert forall|k: Seq<char>| #[trigger] after.routes_from.contains_key(k) implies after.has_entry(
        route_from_admin_text(k),
        AdminRefView::FromDdsRoute(k),
    ) by {
        if k != ke {
            assert(s.routes_from.contains_key(k));
            assert(route_from_admin_text(k) != route_from_admin_text(ke));
        }
    }
    assert forall|k: Seq<char>| #[trigger] s.routes_to.contains_key(k) implies route_to_admin_text(k)
        != route_from_admin_text(ke) by {
        assert(route_to_admin_text(k)[6] != route_from_admin_text(ke)[6]);
    }
    assert forall|k: Seq<char>| #[trigger] s.participants.contains_key(k) implies participant_admin_text(k)
        != route_from_admin_text(ke) by {
        assert(participant_admin_text(k)[0] != route_from_admin_text(ke)[0]);
    }
    assert forall|k: Seq<char>| #[trigger] s.writers.contains_key(k) implies entity_admin_text(s.writers[k], true)
        != route_from_admin_text(ke) by {
        assert(entity_admin_text(s.writers[k], true)[0] != route_from_admin_text(ke)[0]);
    }
    assert forall|k: Seq<char>| #[trigger] s.readers.contains_key(k) implies entity_admin_text(s.readers[k], false)
        != route_from_admin_text(ke) by {
        assert(entity_admin_text(s.readers[k], false)[0] != route_from_admin_text(ke)[0]);
    }
}

proof fn lemma_admin_with_route_to(s: RuntimeView, ke: Seq<char>, r: RouteToView)
    requires
        s.admin_exact(),
    ensures
        s.with_route_to(ke, r).admin_exact(),
{
    lemma_places();
    let after = s.with_route_to(ke, r);
    assert forall|a: Seq<char>| #[trigger] after.admin.contains_key(a) implies after.entry_exact(a) by {
        if a != route_to_admin_text(ke) {
            assert(s.admin.contains_key(a));
            assert(s.entry_exact(a));
        }
    }
    assert forall|k: Seq<char>| #[trigger] after.routes_to.contains_key(k) implies after.has_entry(
        route_to_admin_text(k),
        AdminRefView::ToDdsRoute(k),
    ) by {
        if k != ke {
            assert(s.routes_to.contains_key(k));
            assert(route_to_admin_text(k) != route_to_admin_text(ke));
        }
    }
    assert forall|k: Seq<char>| #[trigger] s.routes_from.contains_key(k) implies route_from_admin_text(k)
        != route_to_admin_text(ke) by {
        assert(route_from_admin_text(k)[6] != route_to_admin_text(ke)[6]);
    }
    assert forall|k: Seq<char>| #[trigger] s.participants.contains_key(k) implies participant_admin_text(k)
        != route_to_admin_text(ke) by {
        assert(participant_admin_text(k)[0] != route_to_admin_text(ke)[0]);
    }
    assert forall|k: Seq<char>| #[trigger] s.writers.contains_key(k) implies entity_admin_text(s.writers[k], true)
        != route_to_admin_text(ke) by {
        assert(entity_admin_text(s.writers[k], true)[0] != route_to_admin_text(ke)[0]);
    }
    assert forall|k: Seq<char>| #[trigger] s.readers.contains_key(k) implies entity_admin_text(s.readers[k], false)
        != route_to_admin_text(ke) by {
        assert(entity_admin_text(s.readers[k], false)[0] != route_to_admin_text(ke)[0]);
    }
}

proof fn lemma_admin_after_from(s: RuntimeView, job: FromJobView, outcome: OutcomeView)
    requires
        s.admin_exact(),
        s.may(Transition::RouteFrom(job, outcome)),
    ensures
        s.after_from(job, outcome).admin_exact(),
{
    let target = job.target();
    let e = job.entity;
    let after = s.after_from(job, outcome);
    let tried = s.tried_route_from(
        target.key,
        e.topic_name,
        e.topic_type,
        e.keyless,
        cache_for(job.qos, e.keyless),
        outcome,
    );
    if tried.routes_from.contains_key(target.key) && !s.routes_from.contains_key(target.key) {
        assert(tried =~= s.with_route_from(target.key, tried.routes_from[target.key]));
        lemma_admin_with_route_from(s, target.key, tried.routes_from[target.key]);
    } else {
        assert(tried.routes_from.dom() =~= s.routes_from.dom());
        lemma_admin_same_keys(s, tried);
    }
    assert(after.routes_from.dom() =~= tried.routes_from.dom());
    assert(after.writers.dom() =~= tried.writers.dom());
    lemma_admin_same_keys(tried, after);
}

proof fn lemma_admin_after_to(s: RuntimeView, job: ToJobView, outcome: OutcomeView)
    requires
        s.admin_exact(),
        s.may(Transition::RouteTo(job, outcome)),
    ensures
        s.after_to(job, outcome).admin_exact(),
{
    let target = job.target();
    let e = job.entity;
    let after = s.after_to(job, outcome);
    let tried = s.tried_route_to(
        target.key,
        e.topic_name,
        e.topic_type,
        e.keyless,
        job.querying,
        job.qos is Some,
        outcome,
    );
    if tried.routes_to.contains_key(target.key) && !s.routes_to.contains_key(target.key) {
        assert(tried =~= s.with_route_to(target.key, tried.routes_to[target.key]));
        lemma_admin_with_route_to(s, target.key, tried.routes_to[target.key]);
    } else {
        assert(tried.routes_to.dom() =~= s.routes_to.dom());
        lemma_admin_same_keys(s, tried);
    }
    assert(after.routes_to.dom() =~= tried.routes_to.dom());
    assert(after.readers.dom() =~= tried.readers.dom());
    lemma_admin_same_keys(tried, after);
}

proof fn lemma_admin_changed_from(s: RuntimeView, change: FromChangeView)
    requires
        s.admin_exact(),
    ensures
        s.changed_from(change).admin_exact(),
{
    lemma_places();
    let after = s.changed_from(change);
    assert forall|a: Seq<char>| s.admin.contains_key(a) && !#[trigger] after.admin.contains_key(a) implies s.admin[a]
        is FromDdsRoute && s.drops_from(change, s.admin[a]->FromDdsRoute_0) by {
        let dropped = choose|j: Seq<char>| #[trigger] s.drops_from(change, j) && a == route_from_admin_text(j);
        assert(s.routes_from.contains_key(dropped));
        assert(s.has_entry(route_from_admin_text(dropped), AdminRefView::FromDdsRoute(dropped)));
    }
    assert forall|a: Seq<char>| #[trigger] after.admin.contains_key(a) implies after.entry_exact(a) by {
        assert(s.admin.contains_key(a));
        assert(s.entry_exact(a));
        match s.admin[a] {
            AdminRefView::FromDdsRoute(ke) => {
                if s.drops_from(change, ke) {
                    assert(a == route_from_admin_text(ke));
                    assert(false);
                }
                assert(after.routes_from.contains_key(ke));
            },
            _ => {},
        }
    }
    assert(after.has_entry("config"@, AdminRefView::Config)) by {
        assert(s.has_entry("config"@, AdminRefView::Config));
        assert(after.admin.contains_key("config"@) || s.admin["config"@] is FromDdsRoute);
    }
    assert(after.has_entry("version"@, AdminRefView::Version)) by {
        assert(s.has_entry("version"@, AdminRefView::Version));
        assert(after.admin.contains_key("version"@) || s.admin["version"@] is FromDdsRoute);
    }
    assert forall|ke: Seq<char>| #[trigger] after.routes_from.contains_key(ke) implies after.has_entry(
        route_from_admin_text(ke),
        AdminRefView::FromDdsRoute(ke),
    ) by {
        assert(s.routes_from.contains_key(ke));
        assert(s.has_entry(route_from_admin_text(ke), AdminRefView::FromDdsRoute(ke)));
        if !after.admin.contains_key(route_from_admin_text(ke)) {
            assert(s.drops_from(change, ke));
        }
    }
    assert forall|ke: Seq<char>| #[trigger] after.routes_to.contains_key(ke) implies after.has_entry(
        route_to_admin_text(ke),
        s.admin[route_to_admin_text(ke)],
    ) by {
        assert(s.routes_to.contains_key(ke));
        assert(after.admin.contains_key(route_to_admin_text(ke)) || s.admin[route_to_admin_text(ke)] is FromDdsRoute);
    }
    assert forall|k: Seq<char>| #[trigger] after.participants.contains_key(k) implies after.admin.contains_key(
        participant_admin_text(k),
    ) by {
        assert(s.participants.contains_key(k));
        assert(after.admin.contains_key(participant_admin_text(k)) || s.admin[participant_admin_text(k)] is FromDdsRoute);
    }
    assert forall|k: Seq<char>| #[trigger] after.writers.contains_key(k) implies after.admin.contains_key(
        entity_admin_text(s.writers[k], true),
    ) by {
        assert(s.writers.contains_key(k));
        let a = entity_admin_text(s.writers[k], true);
        assert(after.admin.contains_key(a) || s.admin[a] is FromDdsRoute);
    }
    assert forall|k: Seq<char>| #[trigger] after.readers.contains_key(k) implies after.admin.contains_key(
        entity_admin_text(s.readers[k], false),
    ) by {
        assert(s.readers.contains_key(k));
        let a = entity_admin_text(s.readers[k], false);
        assert(after.admin.contains_key(a) || s.admin[a] is FromDdsRoute);
    }
}

proof fn lemma_admin_changed_to(s: RuntimeView, change: ToChangeView)
    requires
        s.admin_exact(),
    ensures
        s.changed_to(change).admin_exact(),
{
    lemma_places();
    let after = s.changed_to(change);
    assert forall|a: Seq<char>| s.admin.contains_key(a) && !#[trigger] after.admin.contains_key(a) implies s.admin[a]
        is ToDdsRoute && s.drops_to(change, s.admin[a]->ToDdsRoute_0) by {
        let dropped = choose|j: Seq<char>| #[trigger] s.drops_to(change, j) && a == route_to_admin_text(j);
        assert(s.routes_to.contains_key(dropped));
        assert(s.has_entry(route_to_admin_text(dropped), AdminRefView::ToDdsRoute(dropped)));
    }
    assert forall|a: Seq<char>| #[trigger] after.admin.contains_key(a) implies after.entry_exact(a) by {
        assert(s.admin.contains_key(a));
        assert(s.entry_exact(a));
        match s.admin[a] {
            AdminRefView::ToDdsRoute(ke) => {
                if s.drops_to(change, ke) {
                    assert(a == route_to_admin_text(ke));
                    assert(false);
                }
                assert(after.routes_to.contains_key(ke));
            },
            _ => {},
        }
    }
    assert(after.has_entry("config"@, AdminRefView::Config)) by {
        assert(s.has_entry("config"@, AdminRefView::Config));
        assert(after.admin.contains_key("config"@) || s.admin["config"@] is ToDdsRoute);
    }
    assert(after.has_entry("version"@, AdminRefView::Version)) by {
        assert(s.has_entry("version"@, AdminRefView::Version));
        assert(after.admin.contains_key("version"@) || s.admin["version"@] is ToDdsRoute);
    }
    assert forall|ke: Seq<char>| #[trigger] after.routes_to.contains_key(ke) implies after.has_entry(
        route_to_admin_text(ke),
        AdminRefView::ToDdsRoute(ke),
    ) by {
        assert(s.routes_to.contains_key(ke));
        assert(s.has_entry(route_to_admin_text(ke), AdminRefView::ToDdsRoute(ke)));
        if !after.admin.contains_key(route_to_admin_text(ke)) {
            assert(s.drops_to(change, ke));
        }
    }
    assert forall|ke: Seq<char>| #[trigger] after.routes_from.contains_key(ke) implies after.has_entry(
        route_from_admin_text(ke),
        s.admin[route_from_admin_text(ke)],
    ) by {
        assert(s.routes_from.contains_key(ke));
        assert(after.admin.contains_key(route_from_admin_text(ke)) || s.admin[route_from_admin_text(ke)] is ToDdsRoute);
    }
    assert forall|k: Seq<char>| #[trigger] after.participants.contains_key(k) implies after.admin.contains_key(
        participant_admin_text(k),
    ) by {
        assert(s.participants.contains_key(k));
        assert(after.admin.contains_key(participant_admin_text(k)) || s.admin[participant_admin_text(k)] is ToDdsRoute);
    }
    assert forall|k: Seq<char>| #[trigger] after.writers.contains_key(k) implies after.admin.contains_key(
        entity_admin_text(s.writers[k], true),
    ) by {
        assert(s.writers.contains_key(k));
        let a = entity_admin_text(s.writers[k], true);
        assert(after.admin.contains_key(a) || s.admin[a] is ToDdsRoute);
    }
    assert forall|k: Seq<char>| #[trigger] after.readers.contains_key(k) implies after.admin.contains_key(
        entity_admin_text(s.readers[k], false),
    ) by {
        assert(s.readers.contains_key(k));
        let a = entity_admin_text(s.readers[k], false);
        assert(after.admin.contains_key(a) || s.admin[a] is ToDdsRoute);
    }
}

/// The admin space always shows what the bridge knows: every participant, reader, writer and route where it belongs,
/// its settings and its version, and nothing that does not exist.
/// A reader or writer that is told of again has to stand in its place.
pub proof fn law_admin_space_stays_exact(s: RuntimeView, t: Transition)
    requires
        s.wf(),
        s.admin_exact(),
        s.may(t),
        s.keeps_place(t),
    ensures
        s.next(t).admin_exact(),
{
    match t {
        Transition::Participant(e) => lemma_admin_with_participant(s, e),
        Transition::NoParticipant(key) => lemma_admin_without_participant(s, key),
        Transition::Writer(e) => lemma_admin_with_writer(s, e),
        Transition::NoWriter(key) => lemma_admin_without_writer(s, key),
        Transition::Reader(e) => lemma_admin_with_reader(s, e),
        Transition::NoReader(key) => lemma_admin_without_reader(s, key),
        Transition::RouteFrom(job, outcome) => lemma_admin_after_from(s, job, outcome),
        Transition::RouteTo(job, outcome) => lemma_admin_after_to(s, job, outcome),
        Transition::ChangeFrom(change) => lemma_admin_changed_from(s, change),
        Transition::ChangeTo(change) => lemma_admin_changed_to(s, change),
    }
}

/// An exact admin space answers: every entry shows something, and everything that is known is shown.
pub proof fn law_admin_space_shows_all(s: RuntimeView, key: Seq<char>)
    requires
        s.admin_exact(),
    ensures
        s.admin.contains_key(key) ==> s.shows(key),
        s.participants.contains_key(key) ==> s.shows(participant_admin_text(key)) && s.admin_value(
            s.admin[participant_admin_text(key)],
        ) == Some(AdminValueView::Participant(s.participants[key])),
        s.writers.contains_key(key) ==> s.shows(entity_admin_text(s.writers[key], true)) && s.admin_value(
            s.admin[entity_admin_text(s.writers[key], true)],
        ) == Some(AdminValueView::Writer(s.writers[key])),
        s.readers.contains_key(key) ==> s.shows(entity_admin_text(s.readers[key], false)) && s.admin_value(
            s.admin[entity_admin_text(s.readers[key], false)],
        ) == Some(AdminValueView::Reader(s.readers[key])),
        s.routes_from.contains_key(key) ==> s.shows(route_from_admin_text(key)) && s.admin_value(
            s.admin[route_from_admin_text(key)],
        ) == Some(AdminValueView::FromDdsRoute(s.routes_from[key])),
        s.routes_to.contains_key(key) ==> s.shows(route_to_admin_text(key)) && s.admin_value(
            s.admin[route_to_admin_text(key)],
        ) == Some(AdminValueView::ToDdsRoute(s.routes_to[key])),
        s.admin_value(s.admin["config"@]) == Some(AdminValueView::Config(s.config.json())),
        s.admin_value(s.admin["version"@]) == Some(AdminValueView::Version),
{
    if s.admin.contains_key(key) {
        assert(s.entry_exact(key));
    }
}

} // verus!
