//! Whom a route serves when a target of a job is done, and what that changes.
use vstd::prelude::*;

use crate::entity::{EntityView, RouteStatusView};
use crate::jobs::{FromJobView, OutcomeView, ToJobView};
use crate::routes::{RouteFromView, RouteToView, DDS_ENTITY_NULL};
use crate::runtime::{AdminRefView, RuntimeView};

verus! {

/// The replica of a remote reader serves local writers of its own topic and partition only: a writer that is newly
/// served has the topic of the reader, and the partition of the target, or no partition where the target has none.
/// A writer of another topic or partition is as it was, and whoever was served still is.
pub proof fn law_remote_reader_keeps_to_its_topic(s: RuntimeView, job: FromJobView, outcome: OutcomeView, key: Seq<char>)
    requires
        job.remote,
        0 <= job.next < job.targets.len(),
        s.config.allows(job.targets[job.next].key) && !s.routes_from.contains_key(job.targets[job.next].key)
            ==> outcome is Some,
    ensures
        ({
            let after = s.after_from(job, outcome);
            let target = job.targets[job.next];
            let served_before = s.routes_from.contains_key(target.key) && s.routes_from[target.key].local.contains(key);
            let served = after.routes_from.contains_key(target.key) && after.routes_from[target.key].local.contains(key);
            let writer = s.writers[key];
            let in_place = match target.partition {
                Some(p) => writer.qos.partition is Some && writer.qos.partition->Some_0.contains(p),
                None => writer.qos.partition is None || writer.qos.partition->Some_0.len() == 0,
            };
            &&& served_before ==> served
            &&& served && !served_before ==> s.writers.contains_key(key)
            &&& served && !served_before ==> writer.topic_name == job.entity.topic_name
            &&& served && !served_before ==> in_place
            &&& after.writers.contains_key(key) <==> s.writers.contains_key(key)
            &&& s.writers.contains_key(key) && writer.topic_name != job.entity.topic_name ==> after.writers[key] == writer
            &&& s.writers.contains_key(key) && !in_place ==> after.writers[key] == writer
        }),
{
}

/// The replica of a remote writer serves local readers of its own topic and partition only: a reader that is newly
/// served has the topic of the writer, and the partition of the target, or no partition where the target has none.
/// A reader of another topic or partition is as it was, and whoever was served still is.
pub proof fn law_remote_writer_keeps_to_its_topic(s: RuntimeView, job: ToJobView, outcome: OutcomeView, key: Seq<char>)
    requires
        job.remote,
        0 <= job.next < job.targets.len(),
        s.config.allows(job.targets[job.next].key) && !s.routes_to.contains_key(job.targets[job.next].key)
            ==> outcome is Some,
    ensures
        ({
            let after = s.after_to(job, outcome);
            let target = job.targets[job.next];
            let served_before = s.routes_to.contains_key(target.key) && s.routes_to[target.key].local.contains(key);
            let served = after.routes_to.contains_key(target.key) && after.routes_to[target.key].local.contains(key);
            let reader = s.readers[key];
            let in_place = match target.partition {
                Some(p) => reader.qos.partition is Some && reader.qos.partition->Some_0.contains(p),
                None => reader.qos.partition is None || reader.qos.partition->Some_0.len() == 0,
            };
            &&& served_before ==> served
            &&& served && !served_before ==> s.readers.contains_key(key)
            &&& served && !served_before ==> reader.topic_name == job.entity.topic_name
            &&& served && !served_before ==> in_place
            &&& after.readers.contains_key(key) <==> s.readers.contains_key(key)
            &&& s.readers.contains_key(key) && reader.topic_name != job.entity.topic_name ==> after.readers[key] == reader
            &&& s.readers.contains_key(key) && !in_place ==> after.readers[key] == reader
        }),
{
}

/// The replica of a remote reader serves every local writer of the same topic and partition, which tells
/// that it is routed for that partition, or for `*` where it has none; nothing else about it changes.
pub proof fn law_remote_reader_meets_all_of_its_topic(
    s: RuntimeView,
    job: FromJobView,
    outcome: OutcomeView,
    key: Seq<char>,
    label: Seq<char>,
)
    requires
        job.remote,
        0 <= job.next < job.targets.len(),
        s.config.allows(job.targets[job.next].key),
        s.routes_from.contains_key(job.targets[job.next].key) || outcome matches Some(Ok(_)),
        s.writers.contains_key(key),
        s.writers[key].topic_name == job.entity.topic_name,
        match job.targets[job.next].partition {
            Some(p) => s.writers[key].qos.partition is Some && s.writers[key].qos.partition->Some_0.contains(p),
            None => s.writers[key].qos.partition is None || s.writers[key].qos.partition->Some_0.len() == 0,
        },
    ensures
        ({
            let after = s.after_from(job, outcome);
            let target = job.targets[job.next];
            let own = match target.partition {
                Some(p) => p,
                None => "*"@,
            };
            let told = after.writers[key].routes;
            &&& after.routes_from.contains_key(target.key)
            &&& after.routes_from[target.key].local.contains(key)
            &&& after.writers.contains_key(key)
            &&& after.writers[key] == EntityView { routes: told, ..s.writers[key] }
            &&& told.contains_key(own)
            &&& told[own] == RouteStatusView::Routed(target.key)
            &&& label != own ==> (told.contains_key(label) <==> s.writers[key].routes.contains_key(label))
            &&& label != own ==> told[label] == s.writers[key].routes[label]
        }),
{
}

/// The replica of a remote writer serves every local reader of the same topic and partition, which tells
/// that it is routed for that partition, or for `*` where it has none; nothing else about it changes.
pub proof fn law_remote_writer_meets_all_of_its_topic(
    s: RuntimeView,
    job: ToJobView,
    outcome: OutcomeView,
    key: Seq<char>,
    label: Seq<char>,
)
    requires
        job.remote,
        0 <= job.next < job.targets.len(),
        s.config.allows(job.targets[job.next].key),
        (s.routes_to.contains_key(job.targets[job.next].key) && s.routes_to[job.targets[job.next].key].dds_writer != 0)
            || outcome matches Some(Ok(_)),
        s.readers.contains_key(key),
        s.readers[key].topic_name == job.entity.topic_name,
        match job.targets[job.next].partition {
            Some(p) => s.readers[key].qos.partition is Some && s.readers[key].qos.partition->Some_0.contains(p),
            None => s.readers[key].qos.partition is None || s.readers[key].qos.partition->Some_0.len() == 0,
        },
    ensures
        ({
            let after = s.after_to(job, outcome);
            let target = job.targets[job.next];
            let own = match target.partition {
                Some(p) => p,
                None => "*"@,
            };
            let told = after.readers[key].routes;
            &&& after.routes_to.contains_key(target.key)
            &&& after.routes_to[target.key].local.contains(key)
            &&& after.readers.contains_key(key)
            &&& after.readers[key] == EntityView { routes: told, ..s.readers[key] }
            &&& told.contains_key(own)
            &&& told[own] == RouteStatusView::Routed(target.key)
            &&& label != own ==> (told.contains_key(label) <==> s.readers[key].routes.contains_key(label))
            &&& label != own ==> told[label] == s.readers[key].routes[label]
        }),
{
}

/// What a target of a job to zenoh changes. Where it may not be routed, or its route could not be made, nothing.
/// Else the route for its key serves the endpoint besides those it served; a route that was there is otherwise
/// as it was, and a new one has the DDS reader that was made, the topic of the endpoint and the cache that was planned,
/// and is shown.
/// All other routes are as they were, and so are routes to DDS, readers and participants.
pub proof fn law_target_to_zenoh(s: RuntimeView, job: FromJobView, outcome: OutcomeView, ke: Seq<char>, x: Seq<char>)
    requires
        0 <= job.next < job.targets.len(),
        s.config.allows(job.targets[job.next].key) && !s.routes_from.contains_key(job.targets[job.next].key)
            ==> outcome is Some,
    ensures
        ({
            let after = s.after_from(job, outcome);
            let own = job.targets[job.next].key;
            let known = s.routes_from.contains_key(own);
            let routed = s.config.allows(own) && (known || outcome matches Some(Ok(_)));
            let route = after.routes_from[own];
            &&& !routed ==> after == s
            &&& routed ==> after.routes_from.contains_key(own)
            &&& routed ==> (route.remote.contains(x) <==> (known && s.routes_from[own].remote.contains(x)) || (job.remote
                && x == job.admin))
            &&& routed && !job.remote ==> (route.local.contains(x) <==> (known && s.routes_from[own].local.contains(x))
                || x == job.entity.key)
            &&& routed && known ==> route == RouteFromView {
                remote: route.remote,
                local: route.local,
                ..s.routes_from[own]
            } && after.admin == s.admin
            &&& routed && !known ==> {
                &&& outcome == Some(Ok::<i32, Seq<char>>(route.dds_reader))
                &&& route.topic_name == job.entity.topic_name
                &&& route.topic_type == job.entity.topic_type
                &&& route.keyless == job.entity.keyless
                &&& route.cache == s.plan_from(job).cache
                &&& after.admin.contains_key("route/from_dds/"@ + own)
                &&& after.admin["route/from_dds/"@ + own] == AdminRefView::FromDdsRoute(own)
                &&& x != "route/from_dds/"@ + own ==> (after.admin.contains_key(x) <==> s.admin.contains_key(x))
                    && after.admin[x] == s.admin[x]
            }
            &&& ke != own ==> (after.routes_from.contains_key(ke) <==> s.routes_from.contains_key(ke))
                && after.routes_from[ke] == s.routes_from[ke]
            &&& !job.remote ==> after.writers == s.writers
            &&& after.config == s.config
            &&& after.participants == s.participants
            &&& after.readers == s.readers
            &&& after.routes_to == s.routes_to
        }),
{
    reveal_strlit("route/from_dds");
    reveal_strlit("route/from_dds/");
    let own = job.targets[job.next].key;
    assert(crate::runtime::route_from_admin_text(own) =~= "route/from_dds/"@ + own);
}

/// What a target of a job from zenoh changes. Where it may not be routed, or what it lacked could not be made, nothing.
/// Else the route for its key serves the endpoint besides those it served. A route that was there is otherwise
/// as it was, but for the DDS writer that was made where it lacked one. A new one has the DDS writer that was made,
/// where one is wanted, and the topic of the endpoint, and is shown.
/// All other routes are as they were, and so are routes from DDS, writers and participants.
pub proof fn law_target_from_zenoh(s: RuntimeView, job: ToJobView, outcome: OutcomeView, ke: Seq<char>, x: Seq<char>)
    requires
        0 <= job.next < job.targets.len(),
        ({
            let own = job.targets[job.next].key;
            let known = s.routes_to.contains_key(own);
            s.config.allows(own) && (!known || (job.qos is Some && s.routes_to[own].dds_writer == 0)) ==> outcome is Some
        }),
    ensures
        ({
            let after = s.after_to(job, outcome);
            let own = job.targets[job.next].key;
            let known = s.routes_to.contains_key(own);
            let complete = known && (job.qos is None || s.routes_to[own].dds_writer != 0);
            let routed = s.config.allows(own) && (complete || outcome matches Some(Ok(_)));
            let route = after.routes_to[own];
            &&& !routed ==> after == s
            &&& routed ==> after.routes_to.contains_key(own)
            &&& routed ==> (route.remote.contains(x) <==> (known && s.routes_to[own].remote.contains(x)) || (job.remote
                && x == job.admin))
            &&& routed && !job.remote ==> (route.local.contains(x) <==> (known && s.routes_to[own].local.contains(x))
                || x == job.entity.key)
            &&& routed && known ==> route == RouteToView {
                remote: route.remote,
                local: route.local,
                dds_writer: route.dds_writer,
                ..s.routes_to[own]
            } && after.admin == s.admin
            &&& routed && complete ==> route.dds_writer == s.routes_to[own].dds_writer
            &&& routed && !complete && job.qos is Some ==> outcome == Some(Ok::<i32, Seq<char>>(route.dds_writer))
            &&& routed && !complete && job.qos is None ==> route.dds_writer == 0
            &&& routed && !known ==> {
                &&& route.topic_name == job.entity.topic_name
                &&& route.topic_type == job.entity.topic_type
                &&& route.keyless == job.entity.keyless
                &&& route.querying == job.querying
                &&& after.admin.contains_key("route/to_dds/"@ + own)
                &&& after.admin["route/to_dds/"@ + own] == AdminRefView::ToDdsRoute(own)
                &&& x != "route/to_dds/"@ + own ==> (after.admin.contains_key(x) <==> s.admin.contains_key(x))
                    && after.admin[x] == s.admin[x]
            }
            &&& ke != own ==> (after.routes_to.contains_key(ke) <==> s.routes_to.contains_key(ke))
                && after.routes_to[ke] == s.routes_to[ke]
            &&& !job.remote ==> after.readers == s.readers
            &&& after.config == s.config
            &&& after.participants == s.participants
            &&& after.writers == s.writers
            &&& after.routes_from == s.routes_from
        }),
{
    reveal_strlit("route/to_dds");
    reveal_strlit("route/to_dds/");
    assert(DDS_ENTITY_NULL == 0);
    let own = job.targets[job.next].key;
    assert(crate::runtime::route_to_admin_text(own) =~= "route/to_dds/"@ + own);
}

/// With a target that is done, a local writer tells how it is routed for the partition, or for `*` where the target
/// has none: not where the settings do not allow it, with the reason where the route could not be made,
/// and else with the key of the target. What it tells of other partitions stays, and so does all else about it.
pub proof fn law_local_writer_tells(s: RuntimeView, job: FromJobView, outcome: OutcomeView, label: Seq<char>)
    requires
        0 <= job.next < job.targets.len(),
    ensures
        ({
            let target = job.targets[job.next];
            let done = job.after(s.job_status_from(job, outcome));
            let known = s.routes_from.contains_key(target.key);
            let own = match target.partition {
                Some(p) => p,
                None => "*"@,
            };
            let told = done.entity.routes;
            &&& done == FromJobView { entity: done.entity, next: job.next + 1, ..job }
            &&& job.remote ==> done.entity == job.entity
            &&& !job.remote ==> {
                &&& done.entity == EntityView { routes: told, ..job.entity }
                &&& told.contains_key(own)
                &&& !s.config.allows(target.key) ==> told[own] == RouteStatusView::NotAllowed
                &&& s.config.allows(target.key) && (known || outcome matches Some(Ok(_))) ==> told[own]
                    == RouteStatusView::Routed(target.key)
                &&& s.config.allows(target.key) && !known ==> (outcome matches Some(Err(reason)) ==> told[own]
                    == RouteStatusView::CreationFailure(reason))
                &&& label != own ==> (told.contains_key(label) <==> job.entity.routes.contains_key(label))
                    && told[label] == job.entity.routes[label]
            }
        }),
{
}

/// With a target that is done, a local reader tells how it is routed for the partition, or for `*` where the target
/// has none: not where the settings do not allow it, with the reason where what was lacking could not be made,
/// and else with the key of the target. What it tells of other partitions stays, and so does all else about it.
pub proof fn law_local_reader_tells(s: RuntimeView, job: ToJobView, outcome: OutcomeView, label: Seq<char>)
    requires
        0 <= job.next < job.targets.len(),
    ensures
        ({
            let target = job.targets[job.next];
            let done = job.after(s.job_status_to(job, outcome));
            let complete = s.routes_to.contains_key(target.key) && (job.qos is None || s.routes_to[target.key].dds_writer
                != 0);
            let own = match target.partition {
                Some(p) => p,
                None => "*"@,
            };
            let told = done.entity.routes;
            &&& done == ToJobView { entity: done.entity, next: job.next + 1, ..job }
            &&& job.remote ==> done.entity == job.entity
            &&& !job.remote ==> {
                &&& done.entity == EntityView { routes: told, ..job.entity }
                &&& told.contains_key(own)
                &&& !s.config.allows(target.key) ==> told[own] == RouteStatusView::NotAllowed
                &&& s.config.allows(target.key) && (complete || outcome matches Some(Ok(_))) ==> told[own]
                    == RouteStatusView::Routed(target.key)
                &&& s.config.allows(target.key) && !complete ==> (outcome matches Some(Err(reason)) ==> told[own]
                    == RouteStatusView::CreationFailure(reason))
                &&& label != own ==> (told.contains_key(label) <==> job.entity.routes.contains_key(label))
                    && told[label] == job.entity.routes[label]
            }
        }),
{
    assert(DDS_ENTITY_NULL == 0);
}

} // verus!
