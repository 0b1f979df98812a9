//! The admin space: what a bridge answers to queries about itself.
use vstd::prelude::*;

use crate::entity::{DdsEntity, DdsParticipant, EntityView, ParticipantView};
use crate::json::{JsonValue, JsonView};
use crate::key_expr::{
    joined_text, key_exprs_intersect, lemma_plain, lemma_slashed_apart, literal, plain_from, slashed, stripped_key_exprs,
    stripped_literal, KeyExpr,
};
use crate::routes::{RouteDDSZenoh, RouteFromView, RouteToView, RouteZenohDDS};
use crate::runtime::{AdminRef, AdminRefView, DdsPluginRuntime, RuntimeView};
use crate::text::concat;

verus! {

/// What an entry of the admin space shows.
pub enum AdminValue<'a> {
    Participant(&'a DdsParticipant),
    Writer(&'a DdsEntity),
    Reader(&'a DdsEntity),
    FromDdsRoute(&'a RouteDDSZenoh),
    ToDdsRoute(&'a RouteZenohDDS),
    Config(JsonValue),
    Version,
}

/// What an entry of the admin space shows, over mathematical values.
pub enum AdminValueView {
    Participant(ParticipantView),
    Writer(EntityView),
    Reader(EntityView),
    FromDdsRoute(RouteFromView),
    ToDdsRoute(RouteToView),
    Config(JsonView),
    Version,
}

impl<'a> View for AdminValue<'a> {
    type V = AdminValueView;

    open spec fn view(&self) -> AdminValueView {
        match *self {
            AdminValue::Participant(e) => AdminValueView::Participant(e@),
            AdminValue::Writer(e) => AdminValueView::Writer(e@),
            AdminValue::Reader(e) => AdminValueView::Reader(e@),
            AdminValue::FromDdsRoute(r) => AdminValueView::FromDdsRoute(r@),
            AdminValue::ToDdsRoute(r) => AdminValueView::ToDdsRoute(r@),
            AdminValue::Config(json) => AdminValueView::Config(json@),
            AdminValue::Version => AdminValueView::Version,
        }
    }
}

/// An answer to a query on the admin space.
pub struct AdminReply<'a> {
    /// The key of the entry, relative to the prefix of the admin space.
    pub entry: KeyExpr,
    /// The key of the answer.
    pub key: KeyExpr,
    pub value: AdminValue<'a>,
}

impl RuntimeView {
    /// What an entry that refers to `admin_ref` shows; nothing where that does not exist.
    pub open spec fn admin_value(self, admin_ref: AdminRefView) -> Option<AdminValueView> {
        match admin_ref {
            AdminRefView::DdsParticipant(key) => if self.participants.contains_key(key) {
                Some(AdminValueView::Participant(self.participants[key]))
            } else {
                None
            },
            AdminRefView::DdsWriterEntity(key) => if self.writers.contains_key(key) {
                Some(AdminValueView::Writer(self.writers[key]))
            } else {
                None
            },
            AdminRefView::DdsReaderEntity(key) => if self.readers.contains_key(key) {
                Some(AdminValueView::Reader(self.readers[key]))
            } else {
                None
            },
            AdminRefView::FromDdsRoute(ke) => if self.routes_from.contains_key(ke) {
                Some(AdminValueView::FromDdsRoute(self.routes_from[ke]))
            } else {
                None
            },
            AdminRefView::ToDdsRoute(ke) => if self.routes_to.contains_key(ke) {
                Some(AdminValueView::ToDdsRoute(self.routes_to[ke]))
            } else {
                None
            },
            AdminRefView::Config => Some(AdminValueView::Config(self.config.json())),
            AdminRefView::Version => Some(AdminValueView::Version),
        }
    }

    /// Whether the entry `ke` of the admin space shows something.
    pub open spec fn shows(self, ke: Seq<char>) -> bool {
        self.admin.contains_key(ke) && self.admin_value(self.admin[ke]) is Some
    }

    /// Whether the entry `ke` of the admin space answers a query for `sub_ke`.
    pub open spec fn admin_answers(self, sub_ke: Seq<char>, ke: Seq<char>) -> bool {
        self.shows(ke) && if literal(sub_ke) {
            ke == sub_ke
        } else {
            key_exprs_intersect(sub_ke, ke)
        }
    }

    /// Whether `replies` are the answers to a query for `sub_ke` under `prefix`: one for each entry that answers it.
    pub open spec fn lists_replies<'a>(self, replies: Seq<AdminReply<'a>>, prefix: Seq<char>, sub_ke: Seq<char>) -> bool {
        &&& forall|i: int|
            0 <= i < replies.len() ==> {
                &&& self.admin_answers(sub_ke, (#[trigger] replies[i]).entry@)
                &&& replies[i].key@ == joined_text(prefix, replies[i].entry@)
                &&& prefix.len() > 0 && prefix.last() != '*' ==> replies[i].key@ == slashed(prefix, replies[i].entry@)
                &&& Some(replies[i].value@) == self.admin_value(self.admin[replies[i].entry@])
            }
        &&& forall|ke: Seq<char>| #[trigger]
            self.admin_answers(sub_ke, ke) ==> exists|i: int|
                0 <= i < replies.len() && (#[trigger] replies[i]).entry@ == ke
        &&& forall|i: int, j: int|
            0 <= i < j < replies.len() ==> (#[trigger] replies[i]).entry@ != (#[trigger] replies[j]).entry@
    }
}

impl DdsPluginRuntime {
    /// What an entry of the admin space shows, if what it refers to exists.
    pub fn get_admin_value<'a>(&'a self, admin_ref: &AdminRef) -> (value: Option<AdminValue<'a>>)
        ensures
            match value {
                Some(v) => self@.admin_value(admin_ref@) == Some(v@),
                None => self@.admin_value(admin_ref@) is None,
            },
    {
        match admin_ref {
            AdminRef::DdsParticipant(key) => match self.discovered_participants.get(key.as_str()) {
                Some(e) => Some(AdminValue::Participant(e)),
                None => None,
            },
            AdminRef::DdsWriterEntity(key) => match self.discovered_writers.get(key.as_str()) {
                Some(e) => Some(AdminValue::Writer(e)),
                None => None,
            },
            AdminRef::DdsReaderEntity(key) => match self.discovered_readers.get(key.as_str()) {
                Some(e) => Some(AdminValue::Reader(e)),
                None => None,
            },
            AdminRef::FromDdsRoute(ke) => match self.routes_from_dds.get(ke.as_str()) {
                Some(r) => Some(AdminValue::FromDdsRoute(r)),
                None => None,
            },
            AdminRef::ToDdsRoute(ke) => match self.routes_to_dds.get(ke.as_str()) {
                Some(r) => Some(AdminValue::ToDdsRoute(r)),
                None => None,
            },
            AdminRef::Config => Some(AdminValue::Config(self.config.to_json())),
            AdminRef::Version => Some(AdminValue::Version),
        }
    }

    /// The answers to a query for one key of the admin space.
    fn reply_for_key<'a>(&'a self, sub_ke: &KeyExpr, prefix: &KeyExpr) -> (replies: Vec<AdminReply<'a>>)
        requires
            literal(sub_ke@),
        ensures
            self@.lists_replies(replies@, prefix@, sub_ke@),
    {
        let mut replies: Vec<AdminReply<'a>> = Vec::new();
        if let Some(admin_ref) = self.admin_space.get(sub_ke.as_str()) {
            if let Some(value) = self.get_admin_value(admin_ref) {
                replies.push(AdminReply { entry: sub_ke.clone(), key: prefix.slash(sub_ke), value });
                assert(replies@[0].entry@ == sub_ke@);
            }
        }
        replies
    }

    /// The answers to a query for all matching keys of the admin space.
    fn replies_for_matching<'a>(&'a self, sub_ke: &KeyExpr, prefix: &KeyExpr) -> (replies: Vec<AdminReply<'a>>)
        requires
            self@.wf(),
            !literal(sub_ke@),
        ensures
            self@.lists_replies(replies@, prefix@, sub_ke@),
    {
        let n: usize = self.admin_space.len();
        let ghost order = self.admin_space.order();
        let mut replies: Vec<AdminReply<'a>> = Vec::new();
        let ghost mut places: Seq<int> = seq![];
        let mut i: usize = 0;
        while i < n
            invariant
                self@.wf(),
                !literal(sub_ke@),
                i <= n,
                n == order.len(),
                order == self.admin_space.order(),
                order.no_duplicates(),
                order.to_set() == self@.admin.dom(),
                places.len() == replies@.len(),
                forall|j: int|
                    0 <= j < replies@.len() ==> 0 <= #[trigger] places[j] < i && replies@[j].entry@ == order[places[j]],
                forall|j: int, k: int| 0 <= j < k < places.len() ==> #[trigger] places[j] < #[trigger] places[k],
                forall|j: int|
                    0 <= j < replies@.len() ==> {
                        &&& self@.admin_answers(sub_ke@, (#[trigger] replies@[j]).entry@)
                        &&& replies@[j].key@ == joined_text(prefix@, replies@[j].entry@)
                        &&& prefix@.len() > 0 && prefix@.last() != '*' ==> replies@[j].key@ == slashed(
                            prefix@,
                            replies@[j].entry@,
                        )
                        &&& Some(replies@[j].value@) == self@.admin_value(self@.admin[replies@[j].entry@])
                    },
                forall|j: int|
                    0 <= j < i && self@.admin_answers(sub_ke@, #[trigger] order[j]) ==> exists|m: int|
                        0 <= m < replies@.len() && (#[trigger] replies@[m]).entry@ == order[j],
            decreases n - i,
        {
            let ghost before = replies@;
            let admin_ref = self.admin_space.value_at(i);
            let entry: KeyExpr = KeyExpr::known(self.admin_space.key_at(i).as_str());
            if sub_ke.intersects(&entry) {
                if let Some(value) = self.get_admin_value(admin_ref) {
                    let key: KeyExpr = prefix.slash(&entry);
                    replies.push(AdminReply { entry, key, value });
                    proof {
                        places = places.push(i as int);
                        assert(replies@.last().entry@ == order[i as int]);
                        assert forall|j: int|
                            0 <= j < i && self@.admin_answers(sub_ke@, #[trigger] order[j]) implies exists|m: int|
                            0 <= m < replies@.len() && (#[trigger] replies@[m]).entry@ == order[j] by {
                            let m = choose|m: int|
                                0 <= m < before.len() && (#[trigger] before[m]).entry@ == order[j];
                            assert(replies@[m].entry@ == order[j]);
                        }
                    }
                }
            }
            i += 1;
        }
        proof {
            assert forall|ke: Seq<char>| #[trigger] self@.admin_answers(sub_ke@, ke) implies exists|m: int|
                0 <= m < replies@.len() && (#[trigger] replies@[m]).entry@ == ke by {
                assert(order.to_set().contains(ke));
                let j = order.index_of(ke);
                assert(self@.admin_answers(sub_ke@, order[j]));
            }
            assert forall|j: int, k: int| 0 <= j < k < replies@.len() implies (#[trigger] replies@[j]).entry@ != (
            #[trigger] replies@[k]).entry@ by {
                assert(places[j] < places[k]);
                assert(places[k] < order.len());
            }
        }
        replies
    }

    /// Answers a query on the admin space, whose keys begin with `admin_keyexpr_prefix`: for each way
    /// in which the selector goes on behind the prefix, the entries that match. Gives nothing back where
    /// the selector does not begin with the prefix.
    pub fn treat_admin_query<'a>(&'a self, selector: &KeyExpr, admin_keyexpr_prefix: &KeyExpr) -> (replies: Option<
        Vec<Vec<AdminReply<'a>>>,
    >)
        requires
            self@.wf(),
        ensures
            match replies {
                None => stripped_key_exprs(selector@, admin_keyexpr_prefix@).len() == 0,
                Some(lists) => {
                    let sub_kes = stripped_key_exprs(selector@, admin_keyexpr_prefix@);
                    &&& sub_kes.len() > 0
                    &&& lists@.len() == sub_kes.len()
                    &&& forall|i: int|
                        0 <= i < sub_kes.len() ==> self@.lists_replies(
                            (#[trigger] lists@[i])@,
                            admin_keyexpr_prefix@,
                            sub_kes[i],
                        )
                },
            },
            literal(selector@) && literal(admin_keyexpr_prefix@) ==> stripped_key_exprs(
                selector@,
                admin_keyexpr_prefix@,
            ) == stripped_literal(selector@, admin_keyexpr_prefix@),
    {
        let sub_kes: Vec<KeyExpr> = selector.strip_prefix(admin_keyexpr_prefix);
        if sub_kes.len() == 0 {
            return None;
        }
        Some(self.reply_to_all(&sub_kes, admin_keyexpr_prefix))
    }

    /// For each of some key expressions, the entries of the admin space that match.
    pub fn reply_to_all<'a>(&'a self, sub_kes: &Vec<KeyExpr>, prefix: &KeyExpr) -> (lists: Vec<Vec<AdminReply<'a>>>)
        requires
            self@.wf(),
        ensures
            lists@.len() == sub_kes@.len(),
            forall|i: int|
                0 <= i < sub_kes@.len() ==> self@.lists_replies((#[trigger] lists@[i])@, prefix@, sub_kes@[i]@),
    {
        let mut lists: Vec<Vec<AdminReply<'a>>> = Vec::new();
        let mut i: usize = 0;
        while i < sub_kes.len()
            invariant
                self@.wf(),
                i <= sub_kes@.len(),
                lists@.len() == i,
                forall|j: int| 0 <= j < i ==> self@.lists_replies((#[trigger] lists@[j])@, prefix@, sub_kes@[j]@),
            decreases sub_kes@.len() - i,
        {
            let sub_ke: &KeyExpr = &sub_kes[i];
            let replies: Vec<AdminReply<'a>> = if sub_ke.is_wild() {
                self.replies_for_matching(sub_ke, prefix)
            } else {
                self.reply_for_key(sub_ke, prefix)
            };
            lists.push(replies);
            i += 1;
        }
        lists
    }
}

/// Where the version of the plugin stands below its status: `<status>/__version__`.
pub open spec fn version_text(plugin_status_key: Seq<char>) -> Seq<char> {
    slashed(plugin_status_key, "__version__"@)
}

/// The plugin, as zenoh asks for its status.
#[allow(clippy::upper_case_acronyms)]
pub struct DDSPlugin;

impl DDSPlugin {
    /// The key under which a query on the status of the plugin is answered with its version,
    /// where the selector asks for that.
    pub fn adminspace_getter(selector: &KeyExpr, plugin_status_key: &KeyExpr) -> (key: Option<KeyExpr>)
        ensures
            match key {
                Some(k) => k@ == version_text(plugin_status_key@) && key_exprs_intersect(selector@, k@),
                None => !key_exprs_intersect(selector@, version_text(plugin_status_key@)),
            },
    {
        let status: &str = plugin_status_key.as_str();
        let mut text: String = concat(status, "/");
        text.append("__version__");
        proof {
            reveal_strlit("/");
            reveal_strlit("__version__");
            reveal_with_fuel(plain_from, 12);
            lemma_plain("__version__"@);
            lemma_slashed_apart(plugin_status_key@, "__version__"@);
            assert(text@ =~= version_text(plugin_status_key@));
        }
        let version_key: KeyExpr = KeyExpr::known(text.as_str());
        if selector.intersects(&version_key) {
            Some(version_key)
        } else {
            None
        }
    }
}

} // verus!
