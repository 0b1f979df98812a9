//! The routing of an endpoint, partition by partition.
use vstd::prelude::*;

use crate::entity::{DdsEntity, EntityView, RouteStatus, RouteStatusView};
use crate::key_expr::{optional_key, valid_key_expr, InvalidKeyExpr, KeyExpr};
use crate::policies::{
    adapt_reader_qos_for_proxy_reader, adapt_reader_qos_for_writer, adapt_writer_qos_for_proxy_writer,
    adapt_writer_qos_for_reader, proxy_reader_qos, proxy_writer_qos, reader_qos_for_writer, writer_qos_for_reader,
    PoliciesView, QosPolicies,
};
use crate::qos_helpers::{
    is_reader_reliable, is_transient_local, is_writer_reliable, reader_reliable, transient_local, writer_reliable,
};
use crate::queries::{Locality, ReplyKeyExpr};
use crate::routes::{
    cache_for, congestion_control, congestion_for, new_subscriber, optional_policies, periodic_qos, CongestionControl,
    RouteDDSZenoh, RouteDDSZenohPlan, RouteFromPlanView, RouteToPlanView, RouteZenohDDS, RouteZenohDDSPlan,
};
use crate::routing::{
    label_of, link_endpoints, linked, outcome_view, routable, route_targets, serving_keys, target_views, targets_of,
    RouteTarget, TargetView,
};
use crate::runtime::{entity_admin_text, DdsPluginRuntime, RuntimeView};

verus! {

/// The routing of a local writer, or of the replica of a remote reader, to zenoh.
pub struct FromDdsJob {
    pub entity: DdsEntity,
    /// Whether the endpoint is one of another bridge.
    pub remote: bool,
    /// Where the endpoint is shown: in the admin space of this bridge, or with its prefix in that of the other one.
    pub admin_keyexpr: KeyExpr,
    /// The QoS of the readers to make.
    pub qos: QosPolicies,
    pub congestion_ctrl: CongestionControl,
    pub targets: Vec<RouteTarget>,
    /// How many of the targets are done.
    pub next: usize,
}

/// The routing of an endpoint to zenoh, over mathematical values.
#[verifier::ext_equal]
pub struct FromJobView {
    pub entity: EntityView,
    pub remote: bool,
    pub admin: Seq<char>,
    pub qos: PoliciesView,
    pub congestion_ctrl: CongestionControl,
    pub targets: Seq<TargetView>,
    pub next: int,
}

impl View for FromDdsJob {
    type V = FromJobView;

    open spec fn view(&self) -> FromJobView {
        FromJobView {
            entity: self.entity@,
            remote: self.remote,
            admin: self.admin_keyexpr@,
            qos: self.qos@,
            congestion_ctrl: self.congestion_ctrl,
            targets: target_views(self.targets@),
            next: self.next as int,
        }
    }
}

impl FromJobView {
    /// Whether all targets are done.
    pub open spec fn done(self) -> bool {
        self.next >= self.targets.len()
    }

    /// The target to do next.
    pub open spec fn target(self) -> TargetView {
        self.targets[self.next]
    }
}

/// The routing of a local reader, or of the replica of a remote writer, from zenoh.
pub struct ToDdsJob {
    pub entity: DdsEntity,
    /// Whether the endpoint is one of another bridge.
    pub remote: bool,
    /// Where the endpoint is shown: in the admin space of this bridge, or with its prefix in that of the other one.
    pub admin_keyexpr: KeyExpr,
    /// The QoS of the writers to make, where the routes are to have writers.
    pub qos: Option<QosPolicies>,
    /// Whether what was published before is asked for.
    pub querying: bool,
    pub targets: Vec<RouteTarget>,
    /// How many of the targets are done.
    pub next: usize,
}

/// The routing of an endpoint from zenoh, over mathematical values.
#[verifier::ext_equal]
pub struct ToJobView {
    pub entity: EntityView,
    pub remote: bool,
    pub admin: Seq<char>,
    pub qos: Option<PoliciesView>,
    pub querying: bool,
    pub targets: Seq<TargetView>,
    pub next: int,
}

impl View for ToDdsJob {
    type V = ToJobView;

    open spec fn view(&self) -> ToJobView {
        ToJobView {
            entity: self.entity@,
            remote: self.remote,
            admin: self.admin_keyexpr@,
            qos: optional_policies(self.qos),
            querying: self.querying,
            targets: target_views(self.targets@),
            next: self.next as int,
        }
    }
}

impl ToJobView {
    /// Whether all targets are done.
    pub open spec fn done(self) -> bool {
        self.next >= self.targets.len()
    }

    /// The target to do next.
    pub open spec fn target(self) -> TargetView {
        self.targets[self.next]
    }
}

/// What came of making something outside.
pub type OutcomeView = Option<Result<i32, Seq<char>>>;

impl RuntimeView {
    /// What is to be made next for a job.
    pub open spec fn plan_from(self, job: FromJobView) -> RouteFromPlanView {
        let ke = job.target().key;
        RouteFromPlanView {
            key: ke,
            topic_name: job.entity.topic_name,
            topic_type: job.entity.topic_type,
            keyless: job.entity.keyless,
            cache: cache_for(job.qos, job.entity.keyless),
            queryable_origin: Locality::Remote,
            reader_qos: periodic_qos(job.qos, self.config.frequency_from(ke, 0)),
            read_frequency: self.config.frequency_from(ke, 0),
            congestion_ctrl: job.congestion_ctrl,
        }
    }

    /// How the next target of a job is routed.
    pub open spec fn job_status_from(self, job: FromJobView, outcome: OutcomeView) -> RouteStatusView {
        self.status_from(job.target().key, outcome)
    }

    /// With the next target of a job done. Where it is routed, the route serves the endpoint;
    /// for a remote reader, it also serves the local writers of the same topic and partition.
    pub open spec fn after_from(self, job: FromJobView, outcome: OutcomeView) -> RuntimeView {
        let target = job.target();
        let e = job.entity;
        let status = self.job_status_from(job, outcome);
        let tried = self.tried_route_from(
            target.key,
            e.topic_name,
            e.topic_type,
            e.keyless,
            cache_for(job.qos, e.keyless),
            outcome,
        );
        if status != RouteStatusView::Routed(target.key) {
            tried
        } else if job.remote {
            let serving = tried.serving_from(
                target.key,
                set![job.admin],
                serving_keys(self.writers, e.topic_name, target.partition),
            );
            RuntimeView { writers: linked(self.writers, e.topic_name, target, status), ..serving }
        } else {
            tried.serving_from(target.key, Set::empty(), set![e.key])
        }
    }

    /// What is to be made next for a job.
    pub open spec fn plan_to(self, job: ToJobView) -> RouteToPlanView {
        let ke = job.target().key;
        RouteToPlanView {
            key: ke,
            topic_name: job.entity.topic_name,
            topic_type: job.entity.topic_type,
            keyless: job.entity.keyless,
            subscriber: if self.routes_to.contains_key(ke) {
                None
            } else {
                Some(new_subscriber(ke, job.querying))
            },
            allowed_origin: Locality::Remote,
            accept_replies: ReplyKeyExpr::Any,
            queries_timeout: self.config.queries_timeout,
            writer_qos: job.qos,
        }
    }

    /// How the next target of a job is routed.
    pub open spec fn job_status_to(self, job: ToJobView, outcome: OutcomeView) -> RouteStatusView {
        self.status_to(job.target().key, job.qos is Some, outcome)
    }

    /// With the next target of a job done. Where it is routed, the route serves the endpoint;
    /// for a remote writer, it also serves the local readers of the same topic and partition.
    pub open spec fn after_to(self, job: ToJobView, outcome: OutcomeView) -> RuntimeView {
        let target = job.target();
        let e = job.entity;
        let status = self.job_status_to(job, outcome);
        let tried = self.tried_route_to(
            target.key,
            e.topic_name,
            e.topic_type,
            e.keyless,
            job.querying,
            job.qos is Some,
            outcome,
        );
        if status != RouteStatusView::Routed(target.key) {
            tried
        } else if job.remote {
            let serving = tried.serving_to(
                target.key,
                set![job.admin],
                serving_keys(self.readers, e.topic_name, target.partition),
            );
            RuntimeView { readers: linked(self.readers, e.topic_name, target, status), ..serving }
        } else {
            tried.serving_to(target.key, Set::empty(), set![e.key])
        }
    }
}

impl FromJobView {
    /// With the next target done: a local endpoint keeps how it is routed.
    pub open spec fn after(self, status: RouteStatusView) -> FromJobView {
        FromJobView {
            next: self.next + 1,
            entity: if self.remote {
                self.entity
            } else {
                EntityView { routes: self.entity.routes.insert(self.target().label(), status), ..self.entity }
            },
            ..self
        }
    }
}

impl ToJobView {
    /// With the next target done: a local endpoint keeps how it is routed.
    pub open spec fn after(self, status: RouteStatusView) -> ToJobView {
        ToJobView {
            next: self.next + 1,
            entity: if self.remote {
                self.entity
            } else {
                EntityView { routes: self.entity.routes.insert(self.target().label(), status), ..self.entity }
            },
            ..self
        }
    }
}

impl DdsPluginRuntime {
    /// What has to be made for the next target of a job, if anything.
    pub fn next_from_dds(&self, job: &FromDdsJob) -> (plan: Option<RouteDDSZenohPlan>)
        requires
            !job@.done(),
        ensures
            plan is Some <==> self@.needs_route_from(job@.target().key),
            plan matches Some(p) ==> p@ == self@.plan_from(job@),
    {
        let target: &RouteTarget = &job.targets[job.next];
        if self.needs_route_from_dds(&target.key) {
            Some(
                RouteDDSZenoh::plan(
                    &self.config,
                    &job.entity.topic_name,
                    &job.entity.topic_type,
                    job.entity.keyless,
                    &job.qos,
                    &target.key,
                    job.congestion_ctrl,
                ),
            )
        } else {
            None
        }
    }

    /// Does the next target of a job, where making what was needed came to `outcome`.
    /// Nothing is done where something has to be made and no outcome is told; the result says so.
    pub fn advance_from_dds(&mut self, job: &mut FromDdsJob, outcome: Option<Result<i32, String>>) -> (advanced: bool)
        requires
            old(self)@.wf(),
            !old(job)@.done(),
        ensures
            advanced == !(old(self)@.needs_route_from(old(job)@.target().key) && outcome is None),
            advanced ==> final(self)@ == old(self)@.after_from(old(job)@, outcome_view(outcome)),
            advanced ==> final(job)@ == old(job)@.after(
                old(self)@.job_status_from(old(job)@, outcome_view(outcome)),
            ),
            !advanced ==> final(self)@ == old(self)@ && final(job)@ == old(job)@,
            final(self)@.wf(),
    {
        let ghost before = self@;
        let ghost job_before = job@;
        assert(job.next < job.targets.len());
        let target: RouteTarget = RouteTarget {
            partition: match &job.targets[job.next].partition {
                Some(p) => Some(p.clone()),
                None => None,
            },
            key: job.targets[job.next].key.clone(),
        };
        assert(target@ == job_before.target());
        let cache: Option<usize> = RouteDDSZenoh::cache_of(&job.qos, job.entity.keyless);
        let status: RouteStatus = match self.try_add_route_from_dds(
            &target.key,
            &job.entity.topic_name,
            &job.entity.topic_type,
            job.entity.keyless,
            cache,
            outcome,
        ) {
            Some(status) => status,
            None => {
                return false;
            },
        };
        let ghost tried = self@;
        let ghost after = before.after_from(job_before, outcome_view(outcome));
        if let RouteStatus::Routed(_) = &status {
            if let Some(route) = self.routes_from_dds.remove(target.key.as_str()) {
                let ghost route_before = route@;
                let mut route: RouteDDSZenoh = route;
                if job.remote {
                    route.add_remote_routed_reader(&job.admin_keyexpr);
                    link_endpoints(
                        &mut self.discovered_writers,
                        &job.entity.topic_name,
                        &target,
                        &status,
                        &mut route.local_routed_writers,
                    );
                } else {
                    route.add_local_routed_writer(job.entity.key.clone());
                }
                assert(route_before == tried.routes_from[target@.key]);
                assert(route@ =~= after.routes_from[target@.key]);
                self.routes_from_dds.insert(target.key.to_text(), route);
                assert(self@.routes_from =~= after.routes_from);
            }
        }
        assert(self@ =~= after);
        if !job.remote {
            job.entity.routes.insert(label_of(&target), status);
        }
        job.next = job.next + 1;
        true
    }

    /// What has to be made for the next target of a job, if anything.
    pub fn next_to_dds(&self, job: &ToDdsJob) -> (plan: Option<RouteZenohDDSPlan>)
        requires
            !job@.done(),
        ensures
            plan is Some <==> self@.needs_route_to(job@.target().key, job@.qos is Some),
            plan matches Some(p) ==> p@ == self@.plan_to(job@),
    {
        self.plan_route_to_dds(
            &job.targets[job.next].key,
            &job.entity.topic_name,
            &job.entity.topic_type,
            job.entity.keyless,
            job.querying,
            &job.qos,
        )
    }

    /// Does the next target of a job, where making what was needed came to `outcome`.
    /// Nothing is done where something has to be made and no outcome is told; the result says so.
    pub fn advance_to_dds(&mut self, job: &mut ToDdsJob, outcome: Option<Result<i32, String>>) -> (advanced: bool)
        requires
            old(self)@.wf(),
            !old(job)@.done(),
        ensures
            advanced == !(old(self)@.needs_route_to(old(job)@.target().key, old(job)@.qos is Some) && outcome is None),
            advanced ==> final(self)@ == old(self)@.after_to(old(job)@, outcome_view(outcome)),
            advanced ==> final(job)@ == old(job)@.after(old(self)@.job_status_to(old(job)@, outcome_view(outcome))),
            !advanced ==> final(self)@ == old(self)@ && final(job)@ == old(job)@,
            final(self)@.wf(),
    {
        let ghost before = self@;
        let ghost job_before = job@;
        assert(job.next < job.targets.len());
        let target: RouteTarget = RouteTarget {
            partition: match &job.targets[job.next].partition {
                Some(p) => Some(p.clone()),
                None => None,
            },
            key: job.targets[job.next].key.clone(),
        };
        assert(target@ == job_before.target());
        let status: RouteStatus = match self.try_add_route_to_dds(
            &target.key,
            &job.entity.topic_name,
            &job.entity.topic_type,
            job.entity.keyless,
            job.querying,
            job.qos.is_some(),
            outcome,
        ) {
            Some(status) => status,
            None => {
                return false;
            },
        };
        let ghost tried = self@;
        let ghost after = before.after_to(job_before, outcome_view(outcome));
        if let RouteStatus::Routed(_) = &status {
            if let Some(route) = self.routes_to_dds.remove(target.key.as_str()) {
                let ghost route_before = route@;
                let mut route: RouteZenohDDS = route;
                if job.remote {
                    route.add_remote_routed_writer(&job.admin_keyexpr);
                    link_endpoints(
                        &mut self.discovered_readers,
                        &job.entity.topic_name,
                        &target,
                        &status,
                        &mut route.local_routed_readers,
                    );
                } else {
                    route.add_local_routed_reader(job.entity.key.clone());
                }
                assert(route_before == tried.routes_to[target@.key]);
                assert(route@ =~= after.routes_to[target@.key]);
                self.routes_to_dds.insert(target.key.to_text(), route);
                assert(self@.routes_to =~= after.routes_to);
            }
        }
        assert(self@ =~= after);
        if !job.remote {
            job.entity.routes.insert(label_of(&target), status);
        }
        job.next = job.next + 1;
        true
    }

    /// Begins to route a local writer.
    pub fn start_local_writer(&self, entity: DdsEntity) -> (job: Result<FromDdsJob, InvalidKeyExpr>)
        ensures
            job is Ok <==> valid_key_expr(entity_admin_text(entity@, true)) && routable(
                entity@,
                self@.config.scope,
            ),
            job matches Ok(j) ==> j@ == self@.local_writer_job(entity@),
    {
        let admin_keyexpr: KeyExpr = match DdsPluginRuntime::try_entity_admin_keyexpr(&entity, true) {
            Ok(key) => key,
            Err(e) => {
                return Err(e);
            },
        };
        match route_targets(&entity, &self.config.scope) {
            Ok(targets) => {
                let qos: QosPolicies = adapt_writer_qos_for_reader(&entity.qos);
                let congestion_ctrl: CongestionControl = congestion_control(
                    self.config.reliable_routes_blocking,
                    is_writer_reliable(&entity.qos.reliability),
                );
                Ok(FromDdsJob { entity, remote: false, admin_keyexpr, qos, congestion_ctrl, targets, next: 0 })
            },
            Err(e) => Err(e),
        }
    }

    /// Begins to route a local reader. Where discovery is forwarded, the routes get no writers:
    /// a remote writer brings them.
    pub fn start_local_reader(&self, entity: DdsEntity) -> (job: Result<ToDdsJob, InvalidKeyExpr>)
        ensures
            job is Ok <==> valid_key_expr(entity_admin_text(entity@, false)) && routable(
                entity@,
                self@.config.scope,
            ),
            job matches Ok(j) ==> j@ == self@.local_reader_job(entity@),
    {
        let admin_keyexpr: KeyExpr = match DdsPluginRuntime::try_entity_admin_keyexpr(&entity, false) {
            Ok(key) => key,
            Err(e) => {
                return Err(e);
            },
        };
        match route_targets(&entity, &self.config.scope) {
            Ok(targets) => {
                let qos: Option<QosPolicies> = if self.config.forward_discovery {
                    None
                } else {
                    Some(adapt_reader_qos_for_writer(&entity.qos))
                };
                let querying: bool = is_transient_local(&entity.qos);
                Ok(ToDdsJob { entity, remote: false, admin_keyexpr, qos, querying, targets, next: 0 })
            },
            Err(e) => Err(e),
        }
    }

    /// Begins to route the replica of a writer of another bridge, shown there as `full_admin_keyexpr`.
    pub fn start_remote_writer(
        &self,
        entity: DdsEntity,
        scope: &Option<KeyExpr>,
        full_admin_keyexpr: KeyExpr,
    ) -> (job: Result<ToDdsJob, InvalidKeyExpr>)
        ensures
            job is Ok <==> routable(entity@, optional_key(*scope)),
            job matches Ok(j) ==> j@ == remote_writer_job(entity@, optional_key(*scope), full_admin_keyexpr@),
    {
        match route_targets(&entity, scope) {
            Ok(targets) => {
                let qos: QosPolicies = adapt_writer_qos_for_proxy_writer(&entity.qos);
                let querying: bool = is_transient_local(&entity.qos);
                Ok(
                    ToDdsJob {
                        entity,
                        remote: true,
                        admin_keyexpr: full_admin_keyexpr,
                        qos: Some(qos),
                        querying,
                        targets,
                        next: 0,
                    },
                )
            },
            Err(e) => Err(e),
        }
    }

    /// Begins to route the replica of a reader of another bridge, shown there as `full_admin_keyexpr`.
    pub fn start_remote_reader(
        &self,
        entity: DdsEntity,
        scope: &Option<KeyExpr>,
        full_admin_keyexpr: KeyExpr,
    ) -> (job: Result<FromDdsJob, InvalidKeyExpr>)
        ensures
            job is Ok <==> routable(entity@, optional_key(*scope)),
            job matches Ok(j) ==> j@ == self@.remote_reader_job(entity@, optional_key(*scope), full_admin_keyexpr@),
    {
        match route_targets(&entity, scope) {
            Ok(targets) => {
                let qos: QosPolicies = adapt_reader_qos_for_proxy_reader(&entity.qos);
                let congestion_ctrl: CongestionControl = congestion_control(
                    self.config.reliable_routes_blocking,
                    is_reader_reliable(&entity.qos.reliability),
                );
                Ok(
                    FromDdsJob {
                        entity,
                        remote: true,
                        admin_keyexpr: full_admin_keyexpr,
                        qos,
                        congestion_ctrl,
                        targets,
                        next: 0,
                    },
                )
            },
            Err(e) => Err(e),
        }
    }

    /// Keeps a local writer that was routed.
    pub fn finish_local_writer(&mut self, job: FromDdsJob)
        requires
            old(self)@.wf(),
            job@.admin == entity_admin_text(job@.entity, true),
        ensures
            final(self)@ == old(self)@.with_writer(job@.admin, job@.entity),
            final(self)@.wf(),
    {
        // its text is a key expression
        let _text: &str = job.admin_keyexpr.as_str();
        self.insert_dds_writer(job.admin_keyexpr, job.entity);
    }

    /// Keeps a local reader that was routed.
    pub fn finish_local_reader(&mut self, job: ToDdsJob)
        requires
            old(self)@.wf(),
            job@.admin == entity_admin_text(job@.entity, false),
        ensures
            final(self)@ == old(self)@.with_reader(job@.admin, job@.entity),
            final(self)@.wf(),
    {
        // its text is a key expression
        let _text: &str = job.admin_keyexpr.as_str();
        self.insert_dds_reader(job.admin_keyexpr, job.entity);
    }
}

impl RuntimeView {
    /// The routing of a local writer.
    pub open spec fn local_writer_job(self, e: EntityView) -> FromJobView {
        FromJobView {
            entity: e,
            remote: false,
            admin: entity_admin_text(e, true),
            qos: reader_qos_for_writer(e.qos),
            congestion_ctrl: congestion_for(
                self.config.reliable_routes_blocking,
                writer_reliable(e.qos.reliability),
            ),
            targets: targets_of(e, self.config.scope),
            next: 0,
        }
    }

    /// The routing of a local reader.
    pub open spec fn local_reader_job(self, e: EntityView) -> ToJobView {
        ToJobView {
            entity: e,
            remote: false,
            admin: entity_admin_text(e, false),
            qos: if self.config.forward_discovery {
                None
            } else {
                Some(writer_qos_for_reader(e.qos))
            },
            querying: transient_local(e.qos),
            targets: targets_of(e, self.config.scope),
            next: 0,
        }
    }

    /// The routing of the replica of a reader of another bridge.
    pub open spec fn remote_reader_job(self, e: EntityView, scope: Option<Seq<char>>, admin: Seq<char>) -> FromJobView {
        FromJobView {
            entity: e,
            remote: true,
            admin,
            qos: proxy_reader_qos(e.qos),
            congestion_ctrl: congestion_for(
                self.config.reliable_routes_blocking,
                reader_reliable(e.qos.reliability),
            ),
            targets: targets_of(e, scope),
            next: 0,
        }
    }
}

/// The routing of the replica of a writer of another bridge.
pub open spec fn remote_writer_job(e: EntityView, scope: Option<Seq<char>>, admin: Seq<char>) -> ToJobView {
    ToJobView {
        entity: e,
        remote: true,
        admin,
        qos: Some(proxy_writer_qos(e.qos)),
        querying: transient_local(e.qos),
        targets: targets_of(e, scope),
        next: 0,
    }
}

} // verus!
