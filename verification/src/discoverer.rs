//! What the discovery of DDS tells, topic by topic and partition by partition.
use vstd::prelude::*;

use crate::text::{optional_text, texts};

verus! {

/// A publication or a subscription that came or went, in one of its partitions.
#[allow(inconsistent_fields)]
pub enum MatchedEntity {
    DiscoveredPublication { name: String, partition: Option<String> },
    UndiscoveredPublication { name: String, partition: Option<String> },
    DiscoveredSubscription { name: String, partition: Option<String> },
    UndiscoveredSubscription { name: String, partition: Option<String> },
}

/// A publication or a subscription that came or went, over mathematical values.
pub struct MatchedView {
    pub is_publication: bool,
    pub alive: bool,
    pub name: Seq<char>,
    pub partition: Option<Seq<char>>,
}

impl View for MatchedEntity {
    type V = MatchedView;

    open spec fn view(&self) -> MatchedView {
        match *self {
            MatchedEntity::DiscoveredPublication { name, partition } => MatchedView {
                is_publication: true,
                alive: true,
                name: name@,
                partition: optional_text(partition),
            },
            MatchedEntity::UndiscoveredPublication { name, partition } => MatchedView {
                is_publication: true,
                alive: false,
                name: name@,
                partition: optional_text(partition),
            },
            MatchedEntity::DiscoveredSubscription { name, partition } => MatchedView {
                is_publication: false,
                alive: true,
                name: name@,
                partition: optional_text(partition),
            },
            MatchedEntity::UndiscoveredSubscription { name, partition } => MatchedView {
                is_publication: false,
                alive: false,
                name: name@,
                partition: optional_text(partition),
            },
        }
    }
}

/// What is told of an endpoint: once for each of its partitions, or once where it has none.
pub open spec fn told_of(is_publication: bool, alive: bool, name: Seq<char>, partitions: Seq<Seq<char>>) -> Seq<
    MatchedView,
> {
    if partitions.len() == 0 {
        seq![MatchedView { is_publication, alive, name, partition: None }]
    } else {
        partitions.map_values(|p: Seq<char>| MatchedView { is_publication, alive, name, partition: Some(p) })
    }
}

fn matched_entity(is_publication: bool, alive: bool, name: String, partition: Option<String>) -> (told: MatchedEntity)
    ensures
        told@ == (MatchedView { is_publication, alive, name: name@, partition: optional_text(partition) }),
{
    if alive {
        if is_publication {
            MatchedEntity::DiscoveredPublication { name, partition }
        } else {
            MatchedEntity::DiscoveredSubscription { name, partition }
        }
    } else if is_publication {
        MatchedEntity::UndiscoveredPublication { name, partition }
    } else {
        MatchedEntity::UndiscoveredSubscription { name, partition }
    }
}

/// What is told of an endpoint of the topic `name`.
pub fn matched_entities(is_publication: bool, alive: bool, name: &String, partitions: &Vec<String>) -> (told: Vec<
    MatchedEntity,
>)
    ensures
        told@.map_values(|m: MatchedEntity| m@) == told_of(is_publication, alive, name@, texts(partitions@)),
{
    let ghost all = told_of(is_publication, alive, name@, texts(partitions@));
    let mut told: Vec<MatchedEntity> = Vec::new();
    if partitions.len() == 0 {
        told.push(matched_entity(is_publication, alive, name.clone(), None));
    }
    let mut i: usize = 0;
    while i < partitions.len()
        invariant
            i <= partitions@.len(),
            all == told_of(is_publication, alive, name@, texts(partitions@)),
            partitions@.len() == 0 ==> told@.len() == 1 && told@[0]@ == all[0],
            partitions@.len() > 0 ==> told@.len() == i,
            forall|j: int| 0 <= j < told@.len() ==> (#[trigger] told@[j])@ == all[j],
        decreases partitions@.len() - i,
    {
        told.push(matched_entity(is_publication, alive, name.clone(), Some(partitions[i].clone())));
        i += 1;
    }
    assert(told@.map_values(|m: MatchedEntity| m@) =~= all);
    told
}

} // verus!
