//! What the bridge knows: the DDS entities that were discovered, the routes, and the admin space that shows them.
use vstd::prelude::*;

use crate::collections::KeyMap;
use crate::config::{Config, ConfigView};
use crate::entity::{DdsEntity, DdsParticipant, EntityView, ParticipantView};
use crate::key_expr::{
    joinable, joined_key_expr, lemma_plain, literal, optional_key, plain_from, slashed,
    valid_key_expr, InvalidKeyExpr, KeyExpr,
};
use crate::keys::{ke_route_from_dds, ke_route_to_dds, KE_PREFIX_ROUTE_FROM_DDS, KE_PREFIX_ROUTE_TO_DDS};
use crate::routes::{RouteDDSZenoh, RouteFromView, RouteToView, RouteZenohDDS};
use crate::text::concat;

verus! {

/// What an entry of the admin space shows.
pub enum AdminRef {
    DdsParticipant(String),
    DdsWriterEntity(String),
    DdsReaderEntity(String),
    FromDdsRoute(KeyExpr),
    ToDdsRoute(KeyExpr),
    Config,
    Version,
}

/// What an entry of the admin space shows, over mathematical values.
pub enum AdminRefView {
    DdsParticipant(Seq<char>),
    DdsWriterEntity(Seq<char>),
    DdsReaderEntity(Seq<char>),
    FromDdsRoute(Seq<char>),
    ToDdsRoute(Seq<char>),
    Config,
    Version,
}

impl View for AdminRef {
    type V = AdminRefView;

    open spec fn view(&self) -> AdminRefView {
        match *self {
            AdminRef::DdsParticipant(key) => AdminRefView::DdsParticipant(key@),
            AdminRef::DdsWriterEntity(key) => AdminRefView::DdsWriterEntity(key@),
            AdminRef::DdsReaderEntity(key) => AdminRefView::DdsReaderEntity(key@),
            AdminRef::FromDdsRoute(key) => AdminRefView::FromDdsRoute(key@),
            AdminRef::ToDdsRoute(key) => AdminRefView::ToDdsRoute(key@),
            AdminRef::Config => AdminRefView::Config,
            AdminRef::Version => AdminRefView::Version,
        }
    }
}

/// What the bridge knows.
pub struct DdsPluginRuntime {
    pub config: Config,
    /// The entities that were discovered, by their DDS keys.
    pub discovered_participants: KeyMap<DdsParticipant>,
    pub discovered_writers: KeyMap<DdsEntity>,
    pub discovered_readers: KeyMap<DdsEntity>,
    /// The routes, by their zenoh keys.
    pub routes_from_dds: KeyMap<RouteDDSZenoh>,
    pub routes_to_dds: KeyMap<RouteZenohDDS>,
    /// The admin space, by keys relative to its prefix.
    pub admin_space: KeyMap<AdminRef>,
}

/// What the bridge knows, over mathematical values.
#[verifier::ext_equal]
pub struct RuntimeView {
    pub config: ConfigView,
    pub participants: Map<Seq<char>, ParticipantView>,
    pub writers: Map<Seq<char>, EntityView>,
    pub readers: Map<Seq<char>, EntityView>,
    pub routes_from: Map<Seq<char>, RouteFromView>,
    pub routes_to: Map<Seq<char>, RouteToView>,
    pub admin: Map<Seq<char>, AdminRefView>,
}

impl View for DdsPluginRuntime {
    type V = RuntimeView;

    open spec fn view(&self) -> RuntimeView {
        RuntimeView {
            config: self.config@,
            participants: self.discovered_participants@,
            writers: self.discovered_writers@,
            readers: self.discovered_readers@,
            routes_from: self.routes_from_dds@,
            routes_to: self.routes_to_dds@,
            admin: self.admin_space@,
        }
    }
}

/// Where a participant is shown: `participant/<key>`.
pub open spec fn participant_admin_text(key: Seq<char>) -> Seq<char> {
    "participant/"@ + key
}

/// Where a reader or a writer is shown: `participant/<participant>/<reader|writer>/<key>/<topic>`.
pub open spec fn entity_admin_text(e: EntityView, is_writer: bool) -> Seq<char> {
    "participant/"@ + e.participant_key + (if is_writer {
        "/writer/"@
    } else {
        "/reader/"@
    }) + e.key + "/"@ + e.topic_name
}

/// Where a route from DDS is shown: `route/from_dds/<zenoh key>`.
pub open spec fn route_from_admin_text(ke: Seq<char>) -> Seq<char> {
    slashed(KE_PREFIX_ROUTE_FROM_DDS@, ke)
}

/// Where a route to DDS is shown: `route/to_dds/<zenoh key>`.
pub open spec fn route_to_admin_text(ke: Seq<char>) -> Seq<char> {
    slashed(KE_PREFIX_ROUTE_TO_DDS@, ke)
}

/// What stands for a topic in a zenoh key: `[<partition>/]<topic>`.
pub open spec fn topic_text(topic_name: Seq<char>, partition: Option<Seq<char>>) -> Seq<char> {
    match partition {
        Some(p) => p + "/"@ + topic_name,
        None => topic_name,
    }
}

/// The zenoh key for a topic: `[<scope>/][<partition>/]<topic>`, where that is a key expression.
pub open spec fn topic_key(topic_name: Seq<char>, scope: Option<Seq<char>>, partition: Option<Seq<char>>) -> Option<
    Seq<char>,
> {
    let topic = topic_text(topic_name, partition);
    match scope {
        Some(s) => joined_key_expr(s, topic),
        None => if valid_key_expr(topic) {
            Some(topic)
        } else {
            None
        },
    }
}

impl RuntimeView {
    /// Whether everything that is known stands under its key, and can be shown.
    pub open spec fn wf(self) -> bool {
        &&& forall|k: Seq<char>| #[trigger]
            self.participants.contains_key(k) ==> self.participants[k].key == k && valid_key_expr(
                participant_admin_text(k),
            )
        &&& forall|k: Seq<char>| #[trigger]
            self.writers.contains_key(k) ==> self.writers[k].key == k && valid_key_expr(
                entity_admin_text(self.writers[k], true),
            )
        &&& forall|k: Seq<char>| #[trigger]
            self.readers.contains_key(k) ==> self.readers[k].key == k && valid_key_expr(
                entity_admin_text(self.readers[k], false),
            )
        &&& forall|k: Seq<char>| #[trigger]
            self.routes_from.contains_key(k) ==> valid_key_expr(k)
        &&& forall|k: Seq<char>| #[trigger]
            self.routes_to.contains_key(k) ==> valid_key_expr(k)
        &&& forall|k: Seq<char>| #[trigger] self.admin.contains_key(k) ==> valid_key_expr(k)
    }

    /// Whether all routes are ones that the settings allow.
    pub open spec fn routes_allowed(self) -> bool {
        &&& forall|k: Seq<char>| #[trigger] self.routes_from.contains_key(k) ==> self.config.allows(k)
        &&& forall|k: Seq<char>| #[trigger] self.routes_to.contains_key(k) ==> self.config.allows(k)
    }

    /// With a participant.
    pub open spec fn with_participant(self, admin: Seq<char>, e: ParticipantView) -> RuntimeView {
        RuntimeView {
            participants: self.participants.insert(e.key, e),
            admin: self.admin.insert(admin, AdminRefView::DdsParticipant(e.key)),
            ..self
        }
    }

    /// Without a participant.
    pub open spec fn without_participant(self, key: Seq<char>) -> RuntimeView {
        if self.participants.contains_key(key) {
            RuntimeView {
                participants: self.participants.remove(key),
                admin: self.admin.remove(participant_admin_text(self.participants[key].key)),
                ..self
            }
        } else {
            self
        }
    }

    /// With a writer.
    pub open spec fn with_writer(self, admin: Seq<char>, e: EntityView) -> RuntimeView {
        RuntimeView {
            writers: self.writers.insert(e.key, e),
            admin: self.admin.insert(admin, AdminRefView::DdsWriterEntity(e.key)),
            ..self
        }
    }

    /// Without a writer.
    pub open spec fn without_writer(self, key: Seq<char>) -> RuntimeView {
        if self.writers.contains_key(key) {
            RuntimeView {
                writers: self.writers.remove(key),
                admin: self.admin.remove(entity_admin_text(self.writers[key], true)),
                ..self
            }
        } else {
            self
        }
    }

    /// With a reader.
    pub open spec fn with_reader(self, admin: Seq<char>, e: EntityView) -> RuntimeView {
        RuntimeView {
            readers: self.readers.insert(e.key, e),
            admin: self.admin.insert(admin, AdminRefView::DdsReaderEntity(e.key)),
            ..self
        }
    }

    /// Without a reader.
    pub open spec fn without_reader(self, key: Seq<char>) -> RuntimeView {
        if self.readers.contains_key(key) {
            RuntimeView {
                readers: self.readers.remove(key),
                admin: self.admin.remove(entity_admin_text(self.readers[key], false)),
                ..self
            }
        } else {
            self
        }
    }

    /// With a route from DDS.
    pub open spec fn with_route_from(self, ke: Seq<char>, r: RouteFromView) -> RuntimeView {
        RuntimeView {
            routes_from: self.routes_from.insert(ke, r),
            admin: self.admin.insert(route_from_admin_text(ke), AdminRefView::FromDdsRoute(ke)),
            ..self
        }
    }

    /// With a route to DDS.
    pub open spec fn with_route_to(self, ke: Seq<char>, r: RouteToView) -> RuntimeView {
        RuntimeView {
            routes_to: self.routes_to.insert(ke, r),
            admin: self.admin.insert(route_to_admin_text(ke), AdminRefView::ToDdsRoute(ke)),
            ..self
        }
    }
}

/// What a bridge knows at first: its settings. Its admin space shows them, and its version.
pub open spec fn new_runtime(config: ConfigView) -> RuntimeView {
    RuntimeView {
        config,
        participants: Map::empty(),
        writers: Map::empty(),
        readers: Map::empty(),
        routes_from: Map::empty(),
        routes_to: Map::empty(),
        admin: Map::empty().insert("config"@, AdminRefView::Config).insert("version"@, AdminRefView::Version),
    }
}

pub proof fn lemma_new_runtime(config: ConfigView)
    ensures
        new_runtime(config).wf(),
{
    reveal_strlit("config");
    reveal_strlit("version");
    reveal_with_fuel(plain_from, 10);
    lemma_plain("config"@);
    lemma_plain("version"@);
}

impl DdsPluginRuntime {
    /// A bridge that knows nothing yet. Its admin space shows its settings and its version.
    pub fn new(config: Config) -> (runtime: DdsPluginRuntime)
        ensures
            runtime@ == new_runtime(config@),
            runtime@.wf(),
    {
        proof {
            lemma_new_runtime(config@);
        }
        let mut admin_space: KeyMap<AdminRef> = KeyMap::new();
        admin_space.insert(String::from_str("config"), AdminRef::Config);
        admin_space.insert(String::from_str("version"), AdminRef::Version);
        DdsPluginRuntime {
            config,
            discovered_participants: KeyMap::new(),
            discovered_writers: KeyMap::new(),
            discovered_readers: KeyMap::new(),
            routes_from_dds: KeyMap::new(),
            routes_to_dds: KeyMap::new(),
            admin_space,
        }
    }

    /// Whether `ke` may be routed.
    pub fn is_allowed(&self, ke: &KeyExpr) -> (allowed: bool)
        ensures
            allowed == self@.config.allows(ke@),
    {
        self.config.is_allowed(ke)
    }

    /// Where a participant is shown.
    pub fn get_participant_admin_keyexpr(e: &DdsParticipant) -> (key: KeyExpr)
        requires
            valid_key_expr(participant_admin_text(e.key@)),
        ensures
            key@ == participant_admin_text(e.key@),
    {
        let text: String = concat("participant/", e.key.as_str());
        KeyExpr::known(text.as_str())
    }

    /// The text of where a reader or a writer is shown.
    fn entity_admin_string(e: &DdsEntity, is_writer: bool) -> (text: String)
        ensures
            text@ == entity_admin_text(e@, is_writer),
    {
        let mut text: String = concat("participant/", e.participant_key.as_str());
        text.append(
            if is_writer {
                "/writer/"
            } else {
                "/reader/"
            },
        );
        text.append(e.key.as_str());
        text.append("/");
        text.append(e.topic_name.as_str());
        text
    }

    /// Where a reader or a writer is shown.
    pub fn get_entity_admin_keyexpr(e: &DdsEntity, is_writer: bool) -> (key: KeyExpr)
        requires
            valid_key_expr(entity_admin_text(e@, is_writer)),
        ensures
            key@ == entity_admin_text(e@, is_writer),
    {
        let text: String = DdsPluginRuntime::entity_admin_string(e, is_writer);
        KeyExpr::known(text.as_str())
    }

    /// Where a reader or a writer is shown, if it can be.
    pub fn try_entity_admin_keyexpr(e: &DdsEntity, is_writer: bool) -> (key: Result<KeyExpr, InvalidKeyExpr>)
        ensures
            key is Ok <==> valid_key_expr(entity_admin_text(e@, is_writer)),
            key matches Ok(k) ==> k@ == entity_admin_text(e@, is_writer),
    {
        let text: String = DdsPluginRuntime::entity_admin_string(e, is_writer);
        KeyExpr::new(text.as_str())
    }

    /// Adds a participant.
    pub fn insert_dds_participant(&mut self, admin_keyexpr: KeyExpr, e: DdsParticipant)
        ensures
            final(self)@ == old(self)@.with_participant(admin_keyexpr@, e@),
    {
        self.admin_space.insert(admin_keyexpr.to_text(), AdminRef::DdsParticipant(e.key.clone()));
        self.discovered_participants.insert(e.key.clone(), e);
    }

    /// Removes a participant. Gives back what was known, and where it was shown.
    pub fn remove_dds_participant(&mut self, dds_key: &str) -> (removed: Option<(KeyExpr, DdsParticipant)>)
        requires
            old(self)@.wf(),
        ensures
            final(self)@ == old(self)@.without_participant(dds_key@),
            final(self)@.wf(),
            match removed {
                Some((admin, e)) => old(self)@.participants.contains_key(dds_key@) && e@
                    == old(self)@.participants[dds_key@] && admin@ == participant_admin_text(e@.key),
                None => !old(self)@.participants.contains_key(dds_key@),
            },
    {
        match self.discovered_participants.remove(dds_key) {
            Some(e) => {
                let admin_keyexpr: KeyExpr = DdsPluginRuntime::get_participant_admin_keyexpr(&e);
                let _gone: Option<AdminRef> = self.admin_space.remove(admin_keyexpr.as_str());
                Some((admin_keyexpr, e))
            },
            None => {
                assert(self@ =~= old(self)@);
                None
            },
        }
    }

    /// Adds a writer.
    pub fn insert_dds_writer(&mut self, admin_keyexpr: KeyExpr, e: DdsEntity)
        ensures
            final(self)@ == old(self)@.with_writer(admin_keyexpr@, e@),
    {
        self.admin_space.insert(admin_keyexpr.to_text(), AdminRef::DdsWriterEntity(e.key.clone()));
        self.discovered_writers.insert(e.key.clone(), e);
    }

    /// Removes a writer. Gives back what was known, and where it was shown.
    pub fn remove_dds_writer(&mut self, dds_key: &str) -> (removed: Option<(KeyExpr, DdsEntity)>)
        requires
            old(self)@.wf(),
        ensures
            final(self)@ == old(self)@.without_writer(dds_key@),
            final(self)@.wf(),
            match removed {
                Some((admin, e)) => old(self)@.writers.contains_key(dds_key@) && e@ == old(self)@.writers[dds_key@]
                    && admin@ == entity_admin_text(e@, true),
                None => !old(self)@.writers.contains_key(dds_key@),
            },
    {
        match self.discovered_writers.remove(dds_key) {
            Some(e) => {
                let admin_keyexpr: KeyExpr = DdsPluginRuntime::get_entity_admin_keyexpr(&e, true);
                let _gone: Option<AdminRef> = self.admin_space.remove(admin_keyexpr.as_str());
                Some((admin_keyexpr, e))
            },
            None => {
                assert(self@ =~= old(self)@);
                None
            },
        }
    }

    /// Adds a reader.
    pub fn insert_dds_reader(&mut self, admin_keyexpr: KeyExpr, e: DdsEntity)
        ensures
            final(self)@ == old(self)@.with_reader(admin_keyexpr@, e@),
    {
        self.admin_space.insert(admin_keyexpr.to_text(), AdminRef::DdsReaderEntity(e.key.clone()));
        self.discovered_readers.insert(e.key.clone(), e);
    }

    /// Removes a reader. Gives back what was known, and where it was shown.
    pub fn remove_dds_reader(&mut self, dds_key: &str) -> (removed: Option<(KeyExpr, DdsEntity)>)
        requires
            old(self)@.wf(),
        ensures
            final(self)@ == old(self)@.without_reader(dds_key@),
            final(self)@.wf(),
            match removed {
                Some((admin, e)) => old(self)@.readers.contains_key(dds_key@) && e@ == old(self)@.readers[dds_key@]
                    && admin@ == entity_admin_text(e@, false),
                None => !old(self)@.readers.contains_key(dds_key@),
            },
    {
        match self.discovered_readers.remove(dds_key) {
            Some(e) => {
                let admin_keyexpr: KeyExpr = DdsPluginRuntime::get_entity_admin_keyexpr(&e, false);
                let _gone: Option<AdminRef> = self.admin_space.remove(admin_keyexpr.as_str());
                Some((admin_keyexpr, e))
            },
            None => {
                assert(self@ =~= old(self)@);
                None
            },
        }
    }

    /// Adds a route from DDS.
    pub fn insert_route_from_dds(&mut self, ke: &KeyExpr, r: RouteDDSZenoh)
        ensures
            final(self)@ == old(self)@.with_route_from(ke@, r@),
            valid_key_expr(route_from_admin_text(ke@)),
    {
        let admin_ke: KeyExpr = ke_route_from_dds().slash(ke);
        self.admin_space.insert(admin_ke.to_text(), AdminRef::FromDdsRoute(ke.clone()));
        self.routes_from_dds.insert(ke.to_text(), r);
    }

    /// Adds a route to DDS.
    pub fn insert_route_to_dds(&mut self, ke: &KeyExpr, r: RouteZenohDDS)
        ensures
            final(self)@ == old(self)@.with_route_to(ke@, r@),
            valid_key_expr(route_to_admin_text(ke@)),
    {
        let admin_ke: KeyExpr = ke_route_to_dds().slash(ke);
        self.admin_space.insert(admin_ke.to_text(), AdminRef::ToDdsRoute(ke.clone()));
        self.routes_to_dds.insert(ke.to_text(), r);
    }

    /// The zenoh key for a topic: `[<scope>/][<partition>/]<topic>`.
    pub fn topic_to_keyexpr(
        topic_name: &str,
        scope: &Option<KeyExpr>,
        partition: Option<&String>,
    ) -> (key: Result<KeyExpr, InvalidKeyExpr>)
        requires
            scope is Some ==> joinable(topic_text(topic_name@, optional_text_ref(partition))),
        ensures
            match key {
                Ok(k) => topic_key(topic_name@, optional_key(*scope), optional_text_ref(partition)) == Some(k@),
                Err(_) => topic_key(topic_name@, optional_key(*scope), optional_text_ref(partition)) is None,
            },
            scope matches Some(s) ==> valid_key_expr(
                slashed(s@, topic_text(topic_name@, optional_text_ref(partition))),
            ) ==> topic_key(topic_name@, Some(s@), optional_text_ref(partition)) == Some(
                slashed(s@, topic_text(topic_name@, optional_text_ref(partition))),
            ),
            scope matches Some(s) ==> literal(slashed(s@, topic_text(topic_name@, optional_text_ref(partition))))
                && !valid_key_expr(slashed(s@, topic_text(topic_name@, optional_text_ref(partition)))) ==> key is Err,
    {
        let topic: String = match partition {
            Some(part) => {
                let mut text: String = concat(part.as_str(), "/");
                text.append(topic_name);
                text
            },
            None => String::from_str(topic_name),
        };
        match scope {
            Some(scope) => scope.join(topic.as_str()),
            None => KeyExpr::new(topic.as_str()),
        }
    }
}

/// The text of an optional string.
pub open spec fn optional_text_ref(string: Option<&String>) -> Option<Seq<char>> {
    match string {
        Some(s) => Some(s@),
        None => None,
    }
}

/// What is added can be removed again: with nothing else under its key and where it is shown,
/// a writer, a reader or a participant leaves no trace.
pub proof fn law_remove_undoes_insert(s: RuntimeView, e: EntityView, p: ParticipantView)
    requires
        !s.writers.contains_key(e.key),
        !s.admin.contains_key(entity_admin_text(e, true)),
        !s.readers.contains_key(e.key),
        !s.admin.contains_key(entity_admin_text(e, false)),
        !s.participants.contains_key(p.key),
        !s.admin.contains_key(participant_admin_text(p.key)),
    ensures
        s.with_writer(entity_admin_text(e, true), e).without_writer(e.key) == s,
        s.with_reader(entity_admin_text(e, false), e).without_reader(e.key) == s,
        s.with_participant(participant_admin_text(p.key), p).without_participant(p.key) == s,
{
    assert(s.with_writer(entity_admin_text(e, true), e).without_writer(e.key) =~= s);
    assert(s.with_reader(entity_admin_text(e, false), e).without_reader(e.key) =~= s);
    assert(s.with_participant(participant_admin_text(p.key), p).without_participant(p.key) =~= s);
}

/// A topic without partition is mapped to its name, and one with a partition to `partition/topic`.
pub proof fn law_topic_mapping_without_scope(topic: Seq<char>, partition: Seq<char>)
    requires
        valid_key_expr(topic),
        valid_key_expr(partition + "/"@ + topic),
    ensures
        topic_key(topic, None, None) == Some(topic),
        topic_key(topic, None, Some(partition)) == Some(partition + "/"@ + topic),
{
}

} // verus!
