//! What the bridge does with what it is told, step by step.
//!
//! A bridge either routes what its own discovery tells, or forwards its discovery to the other bridges and routes what
//! they forward. Each step tells what is left to do outside.
use vstd::prelude::*;

use crate::changes::{
    lists_deleted, lists_dropped_from, lists_dropped_to, DeletedWriter, DroppedFromDds, DroppedToDds, FromChangeView,
    ToChangeView,
};
use crate::discovery::{forwarded, forwarded_on, Forwarded, ForwardedView};
use crate::entity::{DdsEntity, DiscoveryEvent, EntityView};
use crate::jobs::{FromDdsJob, ToDdsJob};
use crate::key_expr::{slashed, valid_key_expr, InvalidKeyExpr, KeyExpr};
use crate::keys::FwdKind;
use crate::routing::routable;
use crate::runtime::{entity_admin_text, participant_admin_text, DdsPluginRuntime, RuntimeView};

verus! {

/// How a bridge treats its own discovery.
#[derive(Clone, Copy, Debug, PartialEq, Eq, Structural)]
pub enum DiscoveryMode {
    /// It routes what is discovered.
    Local,
    /// It forwards what is discovered to the other bridges, and routes what they forward.
    Forward,
}

/// What is left to do for a local discovery event.
pub enum LocalStep {
    /// Route a writer, and keep it.
    RouteWriter(FromDdsJob),
    /// Route a reader, and keep it.
    RouteReader(ToDdsJob),
    /// These routes from DDS are no longer used.
    DropFromDds(Vec<DroppedFromDds>),
    /// These routes to DDS are no longer used.
    DropToDds(Vec<DroppedToDds>),
    /// Nothing.
    Done,
}

/// What is left to do for a discovery event that is forwarded.
pub enum ForwardStep {
    /// Tell the other bridges of a writer, and keep it.
    TellWriter(ToldWriter),
    /// Route a reader, tell the other bridges of it, and keep it.
    RouteReader(ToldReader),
    /// Tell the other bridges that a writer is gone, if it was known.
    TellWriterGone(Option<KeyExpr>),
    /// Tell the other bridges that a reader is gone, if it was known. These routes to DDS are no longer used.
    TellReaderGone(Option<KeyExpr>, Vec<DroppedToDds>),
    /// Nothing.
    Done,
}

/// A writer to tell the other bridges of.
pub struct ToldWriter {
    pub entity: DdsEntity,
    pub admin_keyexpr: KeyExpr,
    /// The key on which to tell.
    pub fwd_keyexpr: KeyExpr,
}

/// A reader to route and to tell the other bridges of.
pub struct ToldReader {
    pub job: ToDdsJob,
    /// The key on which to tell.
    pub fwd_keyexpr: KeyExpr,
}

/// What is left to do for a message that another bridge forwards.
pub enum RemoteStep {
    /// Route the writer that the message holds; it has this admin key.
    RouteWriter(KeyExpr),
    /// Route the reader that the message holds; it has this admin key.
    RouteReader(KeyExpr),
    /// These routes to DDS are no longer used, and these DDS writers are to be deleted.
    DropToDds(Vec<DroppedToDds>, Vec<DeletedWriter>),
    /// These routes from DDS are no longer used.
    DropFromDds(Vec<DroppedFromDds>),
    /// Pass on the ROS nodes that the message holds.
    RosNodes,
    /// The message is not for this bridge.
    Ignored,
}

/// The key on which the other bridges are told of an endpoint.
pub open spec fn told_on(prefix: Seq<char>, e: EntityView, is_writer: bool) -> Seq<char> {
    slashed(
        slashed(
            prefix,
            if is_writer {
                FwdKind::Writer.chunk()
            } else {
                FwdKind::Reader.chunk()
            },
        ),
        entity_admin_text(e, is_writer),
    )
}

impl LocalStep {
    /// Whether this is what is left to do in state `s` for an event.
    pub open spec fn answers(self, s: RuntimeView, event: DiscoveryEvent) -> bool {
        match event {
            DiscoveryEvent::DiscoveredPublication { entity } => self matches LocalStep::RouteWriter(job) && job@
                == s.local_writer_job(entity@),
            DiscoveryEvent::UndiscoveredPublication { key } => self matches LocalStep::DropFromDds(dropped)
                && if s.writers.contains_key(key@) {
                lists_dropped_from(dropped@, s, FromChangeView::LocalWriterGone(key@))
            } else {
                dropped@.len() == 0
            },
            DiscoveryEvent::DiscoveredSubscription { entity } => self matches LocalStep::RouteReader(job) && job@
                == s.local_reader_job(entity@),
            DiscoveryEvent::UndiscoveredSubscription { key } => self matches LocalStep::DropToDds(dropped)
                && if s.readers.contains_key(key@) {
                lists_dropped_to(dropped@, s, ToChangeView::LocalReaderGone(key@))
            } else {
                dropped@.len() == 0
            },
            DiscoveryEvent::DiscoveredParticipant { .. } => self is Done,
            DiscoveryEvent::UndiscoveredParticipant { .. } => self is Done,
        }
    }
}

impl ForwardStep {
    /// Whether this is what is left to do in state `s` for an event, where discovery is forwarded under `prefix`.
    pub open spec fn answers(self, s: RuntimeView, event: DiscoveryEvent, prefix: Seq<char>) -> bool {
        match event {
            DiscoveryEvent::DiscoveredPublication { entity } => self matches ForwardStep::TellWriter(told)
                && told.entity@ == entity@ && told.admin_keyexpr@ == entity_admin_text(entity@, true)
                && told.fwd_keyexpr@ == told_on(prefix, entity@, true),
            DiscoveryEvent::UndiscoveredPublication { key } => self matches ForwardStep::TellWriterGone(fwd) && match fwd {
                Some(ke) => s.writers.contains_key(key@) && ke@ == told_on(prefix, s.writers[key@], true),
                None => !s.writers.contains_key(key@),
            },
            DiscoveryEvent::DiscoveredSubscription { entity } => self matches ForwardStep::RouteReader(told)
                && told.job@ == s.local_reader_job(entity@) && told.fwd_keyexpr@ == told_on(prefix, entity@, false),
            DiscoveryEvent::UndiscoveredSubscription { key } => self matches ForwardStep::TellReaderGone(fwd, dropped)
                && (match fwd {
                Some(ke) => s.readers.contains_key(key@) && ke@ == told_on(prefix, s.readers[key@], false),
                None => !s.readers.contains_key(key@),
            }) && lists_dropped_to(dropped@, s, ToChangeView::ForwardedReaderGone(key@)),
            DiscoveryEvent::DiscoveredParticipant { .. } => self is Done,
            DiscoveryEvent::UndiscoveredParticipant { .. } => self is Done,
        }
    }
}

impl RuntimeView {
    /// Whether an event can be taken in: what is discovered can be shown and mapped to zenoh keys.
    pub open spec fn takes_local(self, event: DiscoveryEvent) -> bool {
        match event {
            DiscoveryEvent::DiscoveredPublication { entity } => valid_key_expr(entity_admin_text(entity@, true))
                && routable(entity@, self.config.scope),
            DiscoveryEvent::DiscoveredSubscription { entity } => valid_key_expr(entity_admin_text(entity@, false))
                && routable(entity@, self.config.scope),
            DiscoveryEvent::DiscoveredParticipant { entity } => valid_key_expr(participant_admin_text(entity@.key)),
            _ => true,
        }
    }

    /// The state after an event, but for what is left to do.
    pub open spec fn after_local(self, event: DiscoveryEvent) -> RuntimeView {
        match event {
            DiscoveryEvent::UndiscoveredPublication { key } => self.writer_gone(key@),
            DiscoveryEvent::UndiscoveredSubscription { key } => self.reader_gone(key@),
            DiscoveryEvent::DiscoveredParticipant { entity } => self.with_participant(
                participant_admin_text(entity@.key),
                entity@,
            ),
            DiscoveryEvent::UndiscoveredParticipant { key } => self.without_participant(key@),
            _ => self,
        }
    }

    /// Whether an event can be taken in and forwarded.
    pub open spec fn takes_forward(self, event: DiscoveryEvent) -> bool {
        match event {
            DiscoveryEvent::DiscoveredPublication { entity } => valid_key_expr(entity_admin_text(entity@, true)),
            _ => self.takes_local(event),
        }
    }

    /// The state after an event that is forwarded, but for what is left to do.
    pub open spec fn after_forward(self, event: DiscoveryEvent) -> RuntimeView {
        match event {
            DiscoveryEvent::UndiscoveredPublication { key } => self.without_writer(key@),
            DiscoveryEvent::UndiscoveredSubscription { key } => self.forwarded_reader_gone(key@),
            _ => self.after_local(event),
        }
    }

    /// The state after a message of another bridge, but for what is left to do.
    pub open spec fn after_remote(self, about: Option<ForwardedView>, deleted: bool) -> RuntimeView {
        match about {
            Some(ForwardedView::Writer(admin)) if deleted => self.changed_to(ToChangeView::RemoteWriterGone(admin)),
            Some(ForwardedView::Reader(admin)) if deleted => self.changed_from(FromChangeView::RemoteReaderGone(admin)),
            _ => self,
        }
    }
}

impl RemoteStep {
    /// Whether this is what is left to do in state `s` for a message of another bridge.
    pub open spec fn answers(self, s: RuntimeView, about: Option<ForwardedView>, deleted: bool) -> bool {
        match about {
            Some(ForwardedView::Writer(admin)) => if deleted {
                self matches RemoteStep::DropToDds(dropped, writers) && lists_dropped_to(
                    dropped@,
                    s,
                    ToChangeView::RemoteWriterGone(admin),
                ) && lists_deleted(writers@, s, ToChangeView::RemoteWriterGone(admin))
            } else {
                self matches RemoteStep::RouteWriter(ke) && ke@ == admin
            },
            Some(ForwardedView::Reader(admin)) => if deleted {
                self matches RemoteStep::DropFromDds(dropped) && lists_dropped_from(
                    dropped@,
                    s,
                    FromChangeView::RemoteReaderGone(admin),
                )
            } else {
                self matches RemoteStep::RouteReader(ke) && ke@ == admin
            },
            Some(ForwardedView::RosDisco) => self is RosNodes,
            None => self is Ignored,
        }
    }
}

impl DdsPluginRuntime {
    /// How the bridge treats its own discovery, by its settings.
    pub fn mode(&self) -> (mode: DiscoveryMode)
        ensures
            mode == (if self@.config.forward_discovery {
                DiscoveryMode::Forward
            } else {
                DiscoveryMode::Local
            }),
    {
        if self.config.forward_discovery {
            DiscoveryMode::Forward
        } else {
            DiscoveryMode::Local
        }
    }

    /// Takes in an event of the bridge's own discovery, which is routed here.
    pub fn on_local_event(&mut self, event: DiscoveryEvent) -> (step: Result<LocalStep, InvalidKeyExpr>)
        requires
            old(self)@.wf(),
        ensures
            step is Ok <==> old(self)@.takes_local(event),
            step matches Ok(st) ==> st.answers(old(self)@, event) && final(self)@ == old(self)@.after_local(event),
            step is Err ==> final(self)@ == old(self)@,
            final(self)@.wf(),
    {
        match event {
            DiscoveryEvent::DiscoveredPublication { entity } => match self.start_local_writer(entity) {
                Ok(job) => Ok(LocalStep::RouteWriter(job)),
                Err(e) => Err(e),
            },
            DiscoveryEvent::UndiscoveredPublication { key } => {
                let dropped: Vec<DroppedFromDds> = self.undiscovered_writer(&key);
                Ok(LocalStep::DropFromDds(dropped))
            },
            DiscoveryEvent::DiscoveredSubscription { entity } => match self.start_local_reader(entity) {
                Ok(job) => Ok(LocalStep::RouteReader(job)),
                Err(e) => Err(e),
            },
            DiscoveryEvent::UndiscoveredSubscription { key } => {
                let dropped: Vec<DroppedToDds> = self.undiscovered_reader(&key);
                Ok(LocalStep::DropToDds(dropped))
            },
            DiscoveryEvent::DiscoveredParticipant { entity } => match self.discovered_participant(entity) {
                Ok(_) => Ok(LocalStep::Done),
                Err(e) => Err(e),
            },
            DiscoveryEvent::UndiscoveredParticipant { key } => {
                self.undiscovered_participant(key.as_str());
                Ok(LocalStep::Done)
            },
        }
    }

    /// Takes in an event of the bridge's own discovery, which is forwarded under `prefix`.
    pub fn on_forward_event(&mut self, event: DiscoveryEvent, prefix: &KeyExpr) -> (step: Result<
        ForwardStep,
        InvalidKeyExpr,
    >)
        requires
            old(self)@.wf(),
        ensures
            step is Ok <==> old(self)@.takes_forward(event),
            step matches Ok(st) ==> st.answers(old(self)@, event, prefix@) && final(self)@ == old(
                self,
            )@.after_forward(event),
            step is Err ==> final(self)@ == old(self)@,
            final(self)@.wf(),
    {
        match event {
            DiscoveryEvent::DiscoveredPublication { entity } => match DdsPluginRuntime::plan_forward(
                &entity,
                true,
                prefix,
            ) {
                Ok((admin_keyexpr, fwd_keyexpr)) => Ok(
                    ForwardStep::TellWriter(ToldWriter { entity, admin_keyexpr, fwd_keyexpr }),
                ),
                Err(e) => Err(e),
            },
            DiscoveryEvent::UndiscoveredPublication { key } => {
                let fwd: Option<KeyExpr> = self.undiscovered_forwarded_writer(key.as_str(), prefix);
                Ok(ForwardStep::TellWriterGone(fwd))
            },
            DiscoveryEvent::DiscoveredSubscription { entity } => match DdsPluginRuntime::plan_forward(
                &entity,
                false,
                prefix,
            ) {
                Ok((_, fwd_keyexpr)) => match self.start_local_reader(entity) {
                    Ok(job) => Ok(ForwardStep::RouteReader(ToldReader { job, fwd_keyexpr })),
                    Err(e) => Err(e),
                },
                Err(e) => Err(e),
            },
            DiscoveryEvent::UndiscoveredSubscription { key } => {
                let (fwd, dropped): (Option<KeyExpr>, Vec<DroppedToDds>) = self.undiscovered_forwarded_reader(
                    &key,
                    prefix,
                );
                Ok(ForwardStep::TellReaderGone(fwd, dropped))
            },
            DiscoveryEvent::DiscoveredParticipant { entity } => match self.discovered_participant(entity) {
                Ok(_) => Ok(ForwardStep::Done),
                Err(e) => Err(e),
            },
            DiscoveryEvent::UndiscoveredParticipant { key } => {
                self.undiscovered_participant(key.as_str());
                Ok(ForwardStep::Done)
            },
        }
    }

    /// Keeps a writer that the other bridges were told of.
    pub fn keep_told_writer(&mut self, told: ToldWriter)
        requires
            old(self)@.wf(),
            told.admin_keyexpr@ == entity_admin_text(told.entity@, true),
        ensures
            final(self)@ == old(self)@.with_writer(told.admin_keyexpr@, told.entity@),
            final(self)@.wf(),
    {
        // its text is a key expression
        let _text: &str = told.admin_keyexpr.as_str();
        self.insert_dds_writer(told.admin_keyexpr, told.entity);
    }

    /// Takes in a message that another bridge forwards on `fwd_ke`; `deleted` says whether it tells
    /// that something is gone.
    pub fn on_remote_message(&mut self, fwd_ke: &KeyExpr, deleted: bool) -> (step: RemoteStep)
        requires
            old(self)@.wf(),
        ensures
            step.answers(old(self)@, forwarded_on(fwd_ke@), deleted),
            final(self)@ == old(self)@.after_remote(forwarded_on(fwd_ke@), deleted),
            final(self)@.wf(),
    {
        match forwarded(fwd_ke) {
            Some(Forwarded::Writer(admin)) => if deleted {
                let (dropped, writers): (Vec<DroppedToDds>, Vec<DeletedWriter>) = self.remote_writer_gone(&admin);
                RemoteStep::DropToDds(dropped, writers)
            } else {
                RemoteStep::RouteWriter(admin)
            },
            Some(Forwarded::Reader(admin)) => if deleted {
                let dropped: Vec<DroppedFromDds> = self.remote_reader_gone(&admin);
                RemoteStep::DropFromDds(dropped)
            } else {
                RemoteStep::RouteReader(admin)
            },
            Some(Forwarded::RosDisco) => RemoteStep::RosNodes,
            None => RemoteStep::Ignored,
        }
    }
}

} // verus!
