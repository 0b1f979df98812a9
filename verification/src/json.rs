//! JSON values.
use vstd::prelude::*;

verus! {

/// A JSON value; an object lists its members.
pub enum JsonValue {
    Null,
    Bool(bool),
    Number(i64),
    Text(String),
    List(Vec<JsonValue>),
    Object(Vec<(String, JsonValue)>),
}

/// A JSON value, over mathematical values.
pub enum JsonView {
    Null,
    Bool(bool),
    Number(int),
    Text(Seq<char>),
    List(Seq<JsonView>),
    Object(Seq<(Seq<char>, JsonView)>),
}

impl View for JsonValue {
    type V = JsonView;

    open spec fn view(&self) -> JsonView {
        json_view(*self)
    }
}

/// What a JSON value is.
pub open spec fn json_view(value: JsonValue) -> JsonView
    decreases value,
{
    match value {
        JsonValue::Null => JsonView::Null,
        JsonValue::Bool(b) => JsonView::Bool(b),
        JsonValue::Number(n) => JsonView::Number(n as int),
        JsonValue::Text(text) => JsonView::Text(text@),
        JsonValue::List(items) => JsonView::List(items_view(items@)),
        JsonValue::Object(members) => JsonView::Object(members_view(members@)),
    }
}

/// What the items of a list are.
pub open spec fn items_view(items: Seq<JsonValue>) -> Seq<JsonView>
    decreases items,
{
    if items.len() == 0 {
        seq![]
    } else {
        items_view(items.drop_last()).push(json_view(items.last()))
    }
}

/// What the members of an object are.
pub open spec fn members_view(members: Seq<(String, JsonValue)>) -> Seq<(Seq<char>, JsonView)>
    decreases members,
{
    if members.len() == 0 {
        seq![]
    } else {
        members_view(members.drop_last()).push((members.last().0@, json_view(members.last().1)))
    }
}

/// The members that are not null.
pub open spec fn without_nulls(members: Seq<(Seq<char>, JsonView)>) -> Seq<(Seq<char>, JsonView)> {
    members.filter(|m: (Seq<char>, JsonView)| m.1 !is Null)
}

/// The members, without the null members of the one that is named `qos`.
pub open spec fn without_null_qos(members: Seq<(Seq<char>, JsonView)>) -> Seq<(Seq<char>, JsonView)> {
    members.map_values(
        |m: (Seq<char>, JsonView)|
            match m.1 {
                JsonView::Object(inner) if m.0 == "qos"@ => (m.0, JsonView::Object(without_nulls(inner))),
                _ => m,
            },
    )
}

/// The value, without the null members of its member `qos`, where it is an object.
pub open spec fn null_qos_removed(value: JsonView) -> JsonView {
    match value {
        JsonView::Object(members) => JsonView::Object(without_null_qos(members)),
        _ => value,
    }
}

proof fn lemma_members_push(members: Seq<(String, JsonValue)>, member: (String, JsonValue))
    ensures
        members_view(members.push(member)) == members_view(members).push((member.0@, json_view(member.1))),
{
    assert(members.push(member).drop_last() =~= members);
}

proof fn lemma_members_view(members: Seq<(String, JsonValue)>)
    ensures
        members_view(members).len() == members.len(),
        forall|i: int| 0 <= i < members.len() ==> #[trigger] members_view(members)[i] == (
            members[i].0@,
            json_view(members[i].1),
        ),
    decreases members.len(),
{
    if members.len() > 0 {
        lemma_members_view(members.drop_last());
    }
}

fn remove_nulls(members: Vec<(String, JsonValue)>) -> (kept: Vec<(String, JsonValue)>)
    ensures
        members_view(kept@) == without_nulls(members_view(members@)),
{
    let ghost all = members@;
    let ghost keep = |m: (Seq<char>, JsonView)| m.1 !is Null;
    let mut kept: Vec<(String, JsonValue)> = Vec::new();
    let ghost mut n: int = 0;
    proof {
        lemma_members_view(all);
        assert(members_view(all).take(0).filter(keep) =~= seq![]) by {
            reveal(Seq::filter);
        }
    }
    for member in iter: members
        invariant
            iter.seq() == all,
            n == iter.index(),
            keep == (|m: (Seq<char>, JsonView)| m.1 !is Null),
            members_view(all).len() == all.len(),
            forall|i: int| 0 <= i < all.len() ==> #[trigger] members_view(all)[i] == (
                all[i].0@,
                json_view(all[i].1),
            ),
            members_view(kept@) == members_view(all).take(n).filter(keep),
    {
        proof {
            let views = members_view(all);
            assert(views.take(n + 1).drop_last() =~= views.take(n));
            assert(views.take(n + 1).last() == (member.0@, json_view(member.1)));
            reveal(Seq::filter);
        }
        match member.1 {
            JsonValue::Null => {},
            value => {
                proof {
                    lemma_members_push(kept@, (member.0, value));
                }
                kept.push((member.0, value));
            },
        }
        proof {
            n = n + 1;
        }
    }
    assert(members_view(all).take(n) =~= members_view(all));
    kept
}

/// Removes the null members of the member `qos` of an object.
pub fn remove_null_qos_values(value: JsonValue) -> (cleaned: JsonValue)
    ensures
        cleaned@ == null_qos_removed(value@),
{
    match value {
        JsonValue::Object(members) => {
            let ghost all = members@;
            let mut cleaned: Vec<(String, JsonValue)> = Vec::new();
            let ghost mut n: int = 0;
            proof {
                lemma_members_view(all);
            }
            for member in iter: members
                invariant
                    iter.seq() == all,
                    n == iter.index(),
                    members_view(all).len() == all.len(),
                    forall|i: int| 0 <= i < all.len() ==> #[trigger] members_view(all)[i] == (
                        all[i].0@,
                        json_view(all[i].1),
                    ),
                    members_view(cleaned@) == without_null_qos(members_view(all).take(n)),
            {
                let ghost before = without_null_qos(members_view(all).take(n));
                let is_qos: bool = crate::text::same(member.0.as_str(), "qos");
                let kept: (String, JsonValue) = match member.1 {
                    JsonValue::Object(inner) => {
                        if is_qos {
                            (member.0, JsonValue::Object(remove_nulls(inner)))
                        } else {
                            (member.0, JsonValue::Object(inner))
                        }
                    },
                    other => (member.0, other),
                };
                proof {
                    assert(without_null_qos(members_view(all).take(n + 1)) =~= before.push((kept.0@, json_view(kept.1))));
                    lemma_members_push(cleaned@, kept);
                    n = n + 1;
                }
                cleaned.push(kept);
            }
            assert(members_view(all).take(n) =~= members_view(all));
            JsonValue::Object(cleaned)
        },
        other => other,
    }
}

/// Adds a member to an object under construction.
pub fn add_member(members: &mut Vec<(String, JsonValue)>, name: &str, value: JsonValue)
    ensures
        members_view(final(members)@) == members_view(old(members)@).push((name@, value@)),
{
    let member: (String, JsonValue) = (String::from_str(name), value);
    proof {
        lemma_members_push(members@, member);
    }
    members.push(member);
}

} // verus!
