//! What holds of a bridge in every state that it can come to.
use vstd::prelude::*;

use crate::changes::{FromChangeView, ToChangeView};
use crate::config::ConfigView;
use crate::departure::bridge_part;
use crate::discovery::ForwardedView;
use crate::entity::{DiscoveryEvent, RouteStatusView};
use crate::jobs::{FromJobView, ToJobView};
use crate::key_expr::{lemma_plain, lemma_slashed, plain_from, valid_key_expr};
use crate::laws::{
    law_admin_space_stays_exact, law_new_bridge, law_remote_writers_stay_served, law_routes_stay_allowed, lemma_places,
    Transition,
};
use crate::routes::DDS_ENTITY_NULL;
use crate::runtime::{
    entity_admin_text, new_runtime, participant_admin_text, route_from_admin_text, route_to_admin_text, RuntimeView,
};

verus! {

impl RuntimeView {
    /// Whether what a change brings can be shown and mapped to zenoh keys, and the DDS writer that it brings
    /// for a remote one is one.
    pub open spec fn sound(self, t: Transition) -> bool {
        match t {
            Transition::Participant(e) => valid_key_expr(participant_admin_text(e.key)),
            Transition::Writer(e) => valid_key_expr(entity_admin_text(e, true)),
            Transition::Reader(e) => valid_key_expr(entity_admin_text(e, false)),
            Transition::RouteFrom(job, _) => valid_key_expr(job.target().key),
            Transition::RouteTo(job, outcome) => {
                &&& valid_key_expr(job.target().key)
                &&& job.remote ==> job.qos is Some && outcome != Some(Ok::<i32, Seq<char>>(DDS_ENTITY_NULL))
            },
            _ => true,
        }
    }

    /// What a bridge knows after a row of changes.
    pub open spec fn after_all(self, ts: Seq<Transition>) -> RuntimeView
        decreases ts.len(),
    {
        if ts.len() == 0 {
            self
        } else {
            self.after_all(ts.drop_last()).next(ts.last())
        }
    }

    /// Whether each change of a row can come after those before it.
    pub open spec fn may_all(self, ts: Seq<Transition>) -> bool
        decreases ts.len(),
    {
        ts.len() == 0 || {
            let s = self.after_all(ts.drop_last());
            self.may_all(ts.drop_last()) && s.may(ts.last()) && s.sound(ts.last()) && s.keeps_place(ts.last())
        }
    }

    /// The changes that an event of the bridge's own discovery makes, but for what is left to do.
    pub open spec fn local_changes(self, event: DiscoveryEvent) -> Seq<Transition> {
        match event {
            DiscoveryEvent::UndiscoveredPublication { key } => if self.writers.contains_key(key@) {
                seq![
                    Transition::NoWriter(key@),
                    Transition::ChangeFrom(FromChangeView::LocalWriterGone(key@)),
                ]
            } else {
                seq![]
            },
            DiscoveryEvent::UndiscoveredSubscription { key } => if self.readers.contains_key(key@) {
                seq![
                    Transition::NoReader(key@),
                    Transition::ChangeTo(ToChangeView::LocalReaderGone(key@)),
                ]
            } else {
                seq![]
            },
            DiscoveryEvent::DiscoveredParticipant { entity } => seq![Transition::Participant(entity@)],
            DiscoveryEvent::UndiscoveredParticipant { key } => seq![Transition::NoParticipant(key@)],
            _ => seq![],
        }
    }

    /// The changes that an event of the bridge's own discovery makes where it is forwarded, but for what is left to do.
    pub open spec fn forward_changes(self, event: DiscoveryEvent) -> Seq<Transition> {
        match event {
            DiscoveryEvent::UndiscoveredPublication { key } => seq![Transition::NoWriter(key@)],
            DiscoveryEvent::UndiscoveredSubscription { key } => seq![
                Transition::NoReader(key@),
                Transition::ChangeTo(ToChangeView::ForwardedReaderGone(key@)),
            ],
            _ => self.local_changes(event),
        }
    }

    /// The changes that a message of another bridge makes, but for what is left to do.
    pub open spec fn remote_changes(self, about: Option<ForwardedView>, deleted: bool) -> Seq<Transition> {
        match about {
            Some(ForwardedView::Writer(admin)) if deleted => seq![
                Transition::ChangeTo(ToChangeView::RemoteWriterGone(admin)),
            ],
            Some(ForwardedView::Reader(admin)) if deleted => seq![
                Transition::ChangeFrom(FromChangeView::RemoteReaderGone(admin)),
            ],
            _ => seq![],
        }
    }
}

/// The changes that the leaving of another bridge makes.
pub open spec fn departure_changes(zid: Seq<char>) -> Seq<Transition> {
    seq![
        Transition::ChangeTo(ToChangeView::BridgeGone(bridge_part(zid))),
        Transition::ChangeFrom(FromChangeView::BridgeGone(bridge_part(zid))),
    ]
}

proof fn lemma_one(s: RuntimeView, t: Transition)
    ensures
        s.after_all(seq![t]) == s.next(t),
{
    reveal_with_fuel(RuntimeView::after_all, 2);
    assert(seq![t].drop_last() =~= seq![]);
}

proof fn lemma_two(s: RuntimeView, t: Transition, u: Transition)
    ensures
        s.after_all(seq![t, u]) == s.next(t).next(u),
{
    assert(seq![t, u].drop_last() =~= seq![t]);
    lemma_one(s, t);
}

/// Whatever a bridge is told, what it knows goes through changes of the kinds that the laws speak of.
pub proof fn law_steps_are_changes(
    s: RuntimeView,
    event: DiscoveryEvent,
    about: Option<ForwardedView>,
    deleted: bool,
    zid: Seq<char>,
)
    ensures
        s.after_local(event) == s.after_all(s.local_changes(event)),
        s.after_forward(event) == s.after_all(s.forward_changes(event)),
        s.after_remote(about, deleted) == s.after_all(s.remote_changes(about, deleted)),
        s.bridge_gone(zid) == s.after_all(departure_changes(zid)),
{
    lemma_two(
        s,
        Transition::ChangeTo(ToChangeView::BridgeGone(bridge_part(zid))),
        Transition::ChangeFrom(FromChangeView::BridgeGone(bridge_part(zid))),
    );
    match event {
        DiscoveryEvent::UndiscoveredPublication { key } => {
            lemma_one(s, Transition::NoWriter(key@));
            lemma_two(
                s,
                Transition::NoWriter(key@),
                Transition::ChangeFrom(FromChangeView::LocalWriterGone(key@)),
            );
        },
        DiscoveryEvent::UndiscoveredSubscription { key } => {
            lemma_two(
                s,
                Transition::NoReader(key@),
                Transition::ChangeTo(ToChangeView::LocalReaderGone(key@)),
            );
            lemma_two(
                s,
                Transition::NoReader(key@),
                Transition::ChangeTo(ToChangeView::ForwardedReaderGone(key@)),
            );
        },
        DiscoveryEvent::DiscoveredParticipant { entity } => lemma_one(s, Transition::Participant(entity@)),
        DiscoveryEvent::UndiscoveredParticipant { key } => lemma_one(s, Transition::NoParticipant(key@)),
        _ => {},
    }
    match about {
        Some(ForwardedView::Writer(admin)) => lemma_one(
            s,
            Transition::ChangeTo(ToChangeView::RemoteWriterGone(admin)),
        ),
        Some(ForwardedView::Reader(admin)) => lemma_one(
            s,
            Transition::ChangeFrom(FromChangeView::RemoteReaderGone(admin)),
        ),
        _ => {},
    }
}

proof fn lemma_route_admin(ke: Seq<char>)
    requires
        valid_key_expr(ke),
    ensures
        valid_key_expr(route_from_admin_text(ke)),
        valid_key_expr(route_to_admin_text(ke)),
{
    reveal_strlit("route/from_dds");
    reveal_strlit("route/to_dds");
    reveal_with_fuel(plain_from, 15);
    lemma_plain("route/from_dds"@);
    lemma_plain("route/to_dds"@);
    lemma_slashed("route/from_dds"@, ke);
    lemma_slashed("route/to_dds"@, ke);
}

/// What a bridge knows stays under its keys, and can be shown.
proof fn lemma_next_wf(s: RuntimeView, t: Transition)
    requires
        s.wf(),
        s.may(t),
        s.sound(t),
    ensures
        s.next(t).wf(),
{
    match t {
        Transition::RouteFrom(job, _) => lemma_route_admin(job.target().key),
        Transition::RouteTo(job, _) => lemma_route_admin(job.target().key),
        _ => {},
    }
}

/// In every state that a bridge comes to it routes only what its settings allow, what it knows stands under its keys
/// and can be shown, its admin space shows exactly that, and every route that serves a remote writer
/// has a DDS writer.
pub proof fn law_every_state(config: ConfigView, ts: Seq<Transition>)
    requires
        new_runtime(config).may_all(ts),
    ensures
        ({
            let s = new_runtime(config).after_all(ts);
            &&& s.wf()
            &&& s.config == config
            &&& s.routes_allowed()
            &&& s.admin_exact()
            &&& s.remote_writers_served()
        }),
    decreases ts.len(),
{
    if ts.len() == 0 {
        law_new_bridge(config);
    } else {
        law_every_state(config, ts.drop_last());
        let s = new_runtime(config).after_all(ts.drop_last());
        law_routes_stay_allowed(s, ts.last());
        law_admin_space_stays_exact(s, ts.last());
        law_remote_writers_stay_served(s, ts.last());
        lemma_next_wf(s, ts.last());
    }
}

/// What came of making what a target of a job needed.
pub type Made = Result<i32, Seq<char>>;

/// An event of the bridge's own discovery, with what came of making what its targets needed, one by one;
/// of a target that needed nothing, what is told does not matter.
pub struct LocalEvent {
    pub event: DiscoveryEvent,
    pub made: Seq<Made>,
}

impl RuntimeView {
    /// A bridge and a job to zenoh after as many targets as `made` tells of, or all that are left.
    pub open spec fn run_from(self, job: FromJobView, made: Seq<Made>) -> (RuntimeView, FromJobView)
        decreases made.len(),
    {
        if job.done() || made.len() == 0 {
            (self, job)
        } else {
            let outcome = Some(made[0]);
            self.after_from(job, outcome).run_from(
                job.after(self.job_status_from(job, outcome)),
                made.drop_first(),
            )
        }
    }

    /// A bridge and a job from zenoh after as many targets as `made` tells of, or all that are left.
    pub open spec fn run_to(self, job: ToJobView, made: Seq<Made>) -> (RuntimeView, ToJobView)
        decreases made.len(),
    {
        if job.done() || made.len() == 0 {
            (self, job)
        } else {
            let outcome = Some(made[0]);
            self.after_to(job, outcome).run_to(job.after(self.job_status_to(job, outcome)), made.drop_first())
        }
    }

    /// What a bridge that routes its own discovery knows after an event, when all that was left to do is done.
    pub open spec fn lived(self, e: LocalEvent) -> RuntimeView {
        match e.event {
            DiscoveryEvent::DiscoveredPublication { entity } => {
                let (after, job) = self.run_from(self.local_writer_job(entity@), e.made);
                after.with_writer(job.admin, job.entity)
            },
            DiscoveryEvent::DiscoveredSubscription { entity } => {
                let (after, job) = self.run_to(self.local_reader_job(entity@), e.made);
                after.with_reader(job.admin, job.entity)
            },
            _ => self.after_local(e.event),
        }
    }

    /// The same after a row of events.
    pub open spec fn lived_all(self, events: Seq<LocalEvent>) -> RuntimeView
        decreases events.len(),
    {
        if events.len() == 0 {
            self
        } else {
            self.lived_all(events.drop_last()).lived(events.last())
        }
    }

    /// Whether every route serves a local endpoint, and only such that are known or are `writer` or `reader`.
    pub open spec fn serves_known_or(self, writer: Option<Seq<char>>, reader: Option<Seq<char>>) -> bool {
        &&& forall|ke: Seq<char>| #[trigger]
            self.routes_from.contains_key(ke) ==> self.routes_from[ke].local != Set::<Seq<char>>::empty()
        &&& forall|ke: Seq<char>, key: Seq<char>|
            self.routes_from.contains_key(ke) && #[trigger] self.routes_from[ke].local.contains(key)
                ==> self.writers.contains_key(key) || writer == Some(key)
        &&& forall|ke: Seq<char>| #[trigger]
            self.routes_to.contains_key(ke) ==> self.routes_to[ke].local != Set::<Seq<char>>::empty()
        &&& forall|ke: Seq<char>, key: Seq<char>|
            self.routes_to.contains_key(ke) && #[trigger] self.routes_to[ke].local.contains(key)
                ==> self.readers.contains_key(key) || reader == Some(key)
    }

    /// Whether every route serves a local endpoint, and only such that are known.
    pub open spec fn serves_known(self) -> bool {
        self.serves_known_or(None, None)
    }

    /// Whether the routes are shown in the admin space, and no others.
    pub open spec fn routes_shown(self) -> bool {
        &&& forall|ke: Seq<char>| #[trigger]
            self.admin.contains_key(route_from_admin_text(ke)) <==> self.routes_from.contains_key(ke)
        &&& forall|ke: Seq<char>| #[trigger]
            self.admin.contains_key(route_to_admin_text(ke)) <==> self.routes_to.contains_key(ke)
    }
}

proof fn lemma_run_from(s: RuntimeView, job: FromJobView, made: Seq<Made>)
    requires
        !job.remote,
        s.serves_known_or(Some(job.entity.key), None),
        s.routes_shown(),
    ensures
        ({
            let (after, done) = s.run_from(job, made);
            &&& done.entity.key == job.entity.key
            &&& done.entity.participant_key == job.entity.participant_key
            &&& done.entity.topic_name == job.entity.topic_name
            &&& done.admin == job.admin
            &&& after.serves_known_or(Some(job.entity.key), None)
            &&& after.routes_shown()
        }),
    decreases made.len(),
{
    if !job.done() && made.len() > 0 {
        lemma_places();
        let outcome = Some(made[0]);
        let after = s.after_from(job, outcome);
        let ke = job.target().key;
        if after.routes_from.contains_key(ke) && s.job_status_from(job, outcome) == RouteStatusView::Routed(ke) {
            assert(after.routes_from[ke].local.contains(job.entity.key));
        }
        assert(after.serves_known_or(Some(job.entity.key), None));
        assert(after.routes_shown());
        lemma_run_from(after, job.after(s.job_status_from(job, outcome)), made.drop_first());
    }
}

proof fn lemma_run_to(s: RuntimeView, job: ToJobView, made: Seq<Made>)
    requires
        !job.remote,
        s.serves_known_or(None, Some(job.entity.key)),
        s.routes_shown(),
    ensures
        ({
            let (after, done) = s.run_to(job, made);
            &&& done.entity.key == job.entity.key
            &&& done.entity.participant_key == job.entity.participant_key
            &&& done.entity.topic_name == job.entity.topic_name
            &&& done.admin == job.admin
            &&& after.serves_known_or(None, Some(job.entity.key))
            &&& after.routes_shown()
        }),
    decreases made.len(),
{
    if !job.done() && made.len() > 0 {
        lemma_places();
        let outcome = Some(made[0]);
        let after = s.after_to(job, outcome);
        let ke = job.target().key;
        if after.routes_to.contains_key(ke) && s.job_status_to(job, outcome) == RouteStatusView::Routed(ke) {
            assert(after.routes_to[ke].local.contains(job.entity.key));
        }
        assert(after.serves_known_or(None, Some(job.entity.key)));
        assert(after.routes_shown());
        lemma_run_to(after, job.after(s.job_status_to(job, outcome)), made.drop_first());
    }
}

proof fn lemma_lived(s: RuntimeView, e: LocalEvent)
    requires
        s.serves_known(),
        s.routes_shown(),
    ensures
        s.lived(e).serves_known(),
        s.lived(e).routes_shown(),
{
    lemma_places();
    match e.event {
        DiscoveryEvent::DiscoveredPublication { entity } => {
            lemma_run_from(s, s.local_writer_job(entity@), e.made);
        },
        DiscoveryEvent::DiscoveredSubscription { entity } => {
            lemma_run_to(s, s.local_reader_job(entity@), e.made);
        },
        _ => {},
    }
}

/// Where a bridge routes its own discovery, whatever is discovered and whatever comes of making routes:
/// every route serves a local endpoint that is known, and none that is not, and a route is shown exactly while
/// it is there.
pub proof fn law_local_routes_serve_known_endpoints(config: ConfigView, events: Seq<LocalEvent>)
    ensures
        new_runtime(config).lived_all(events).serves_known(),
        new_runtime(config).lived_all(events).routes_shown(),
    decreases events.len(),
{
    if events.len() == 0 {
        lemma_places();
    } else {
        law_local_routes_serve_known_endpoints(config, events.drop_last());
        lemma_lived(new_runtime(config).lived_all(events.drop_last()), events.last());
    }
}

} // verus!
