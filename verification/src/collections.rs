//! Sets and maps whose elements and keys are texts.
use vstd::prelude::*;

use crate::text::{contains, occurs, same, texts};

verus! {

/// A set of texts.
pub struct KeySet {
    items: Vec<String>,
}

impl View for KeySet {
    type V = Set<Seq<char>>;

    closed spec fn view(&self) -> Set<Seq<char>> {
        texts(self.items@).to_set()
    }
}

impl KeySet {
    #[verifier::type_invariant]
    spec fn distinct(self) -> bool {
        texts(self.items@).no_duplicates()
    }

    /// The empty set.
    pub fn new() -> (set: KeySet)
        ensures
            set@ == Set::<Seq<char>>::empty(),
    {
        let set = KeySet { items: Vec::new() };
        assert(set@ =~= Set::<Seq<char>>::empty());
        set
    }

    /// The position of `item`, if the set holds it.
    fn position(&self, item: &str) -> (at: Option<usize>)
        ensures
            match at {
                Some(i) => i < self.items@.len() && self.items@[i as int]@ == item@,
                None => !self@.contains(item@),
            },
    {
        let mut i: usize = 0;
        while i < self.items.len()
            invariant
                i <= self.items@.len(),
                forall|j: int| 0 <= j < i ==> self.items@[j]@ != item@,
            decreases self.items@.len() - i,
        {
            if same(self.items[i].as_str(), item) {
                return Some(i);
            }
            i += 1;
        }
        None
    }

    /// Whether the set holds `item`.
    pub fn contains(&self, item: &str) -> (held: bool)
        ensures
            held == self@.contains(item@),
    {
        match self.position(item) {
            Some(i) => {
                assert(texts(self.items@)[i as int] == item@);
                true
            },
            None => false,
        }
    }

    /// Whether the set holds nothing.
    pub fn is_empty(&self) -> (empty: bool)
        ensures
            empty == (self@ == Set::<Seq<char>>::empty()),
    {
        if self.items.len() == 0 {
            assert(self@ =~= Set::<Seq<char>>::empty());
            true
        } else {
            assert(self@.contains(texts(self.items@)[0]));
            false
        }
    }

    /// Adds `item`.
    pub fn insert(&mut self, item: String)
        ensures
            final(self)@ == old(self)@.insert(item@),
    {
        if self.contains(item.as_str()) {
            assert(self@ =~= self@.insert(item@));
            return;
        }
        proof {
            use_type_invariant(&*self);
        }
        let mut items: Vec<String> = Vec::new();
        std::mem::swap(&mut items, &mut self.items);
        let ghost before = items@;
        items.push(item);
        proof {
            let old_texts = texts(before);
            let new_texts = texts(items@);
            assert(new_texts =~= old_texts.push(item@));
            assert(!old_texts.contains(item@));
            assert forall|t: Seq<char>| new_texts.contains(t) == (old_texts.contains(t) || t == item@) by {
                if old_texts.contains(t) {
                    let i = choose|i: int| 0 <= i < old_texts.len() && old_texts[i] == t;
                    assert(new_texts[i] == t);
                }
                assert(new_texts[old_texts.len() as int] == item@);
            }
            assert(new_texts.to_set() =~= old_texts.to_set().insert(item@));
        }
        self.items = items;
    }

    /// Takes `item` out, if it is there.
    pub fn remove(&mut self, item: &str)
        ensures
            final(self)@ == old(self)@.remove(item@),
    {
        match self.position(item) {
            Some(i) => {
                proof {
                    use_type_invariant(&*self);
                }
                let mut items: Vec<String> = Vec::new();
                std::mem::swap(&mut items, &mut self.items);
                let ghost before = items@;
                let _removed: String = items.swap_remove(i);
                proof {
                    let old_texts = texts(before);
                    let new_texts = texts(items@);
                    assert(new_texts =~= old_texts.update(i as int, old_texts.last()).drop_last());
                    assert forall|t: Seq<char>| new_texts.contains(t) == (old_texts.contains(t) && t != item@) by {
                        if old_texts.contains(t) && t != item@ {
                            let j = choose|j: int| 0 <= j < old_texts.len() && old_texts[j] == t;
                            if j == old_texts.len() - 1 {
                                assert(new_texts[i as int] == t);
                            } else {
                                assert(new_texts[j] == t);
                            }
                        }
                        if new_texts.contains(t) {
                            let j = choose|j: int| 0 <= j < new_texts.len() && new_texts[j] == t;
                            if j == i {
                                assert(old_texts[old_texts.len() - 1] == t);
                            } else {
                                assert(old_texts[j] == t);
                            }
                            assert(old_texts[i as int] == item@);
                        }
                    }
                    assert(new_texts.to_set() =~= old_texts.to_set().remove(item@));
                }
                self.items = items;
            },
            None => {
                assert(self@ =~= self@.remove(item@));
            },
        }
    }

    /// Takes out every item in which `part` stands.
    pub fn remove_containing(&mut self, part: &str)
        ensures
            final(self)@ == old(self)@.filter(|item: Seq<char>| !occurs(item, part@)),
    {
        let ghost before = self@;
        let ghost keep = |item: Seq<char>| !occurs(item, part@);
        proof {
            use_type_invariant(&*self);
        }
        let mut rest: Vec<String> = Vec::new();
        std::mem::swap(&mut rest, &mut self.items);
        let ghost all = texts(rest@);
        let mut kept: KeySet = KeySet::new();
        while rest.len() > 0
            invariant
                before == all.to_set(),
                keep == (|item: Seq<char>| !occurs(item, part@)),
                texts(rest@) == all.take(rest@.len() as int),
                rest@.len() <= all.len(),
                kept@ == all.skip(rest@.len() as int).to_set().filter(keep),
            decreases rest@.len(),
        {
            let ghost n = rest@.len() as int;
            match rest.pop() {
                Some(item) => {
                    proof {
                        assert(all[n - 1] == item@) by {
                            assert(all.take(n)[n - 1] == item@);
                        }
                        assert(texts(rest@) =~= all.take(n - 1));
                        let tail = all.skip(n);
                        let longer = all.skip(n - 1);
                        assert forall|t: Seq<char>| longer.to_set().contains(t) == (tail.to_set().contains(t) || t
                            == item@) by {
                            if tail.contains(t) {
                                let j = choose|j: int| 0 <= j < tail.len() && tail[j] == t;
                                assert(longer[j + 1] == t);
                            }
                            assert(longer[0] == item@);
                            if longer.contains(t) && t != item@ {
                                let j = choose|j: int| 0 <= j < longer.len() && longer[j] == t;
                                assert(tail[j - 1] == t);
                            }
                        }
                    }
                    if !contains(item.as_str(), part) {
                        kept.insert(item);
                    }
                    assert(kept@ =~= all.skip(n - 1).to_set().filter(keep));
                },
                None => {},
            }
        }
        assert(all.skip(0) =~= all);
        proof {
            use_type_invariant(&kept);
        }
        self.items = kept.items;
    }

    /// Whether `part` stands in one of the items.
    pub fn any_containing(&self, part: &str) -> (found: bool)
        ensures
            found == exists|item: Seq<char>| self@.contains(item) && occurs(item, part@),
    {
        let mut i: usize = 0;
        while i < self.items.len()
            invariant
                i <= self.items@.len(),
                forall|j: int| 0 <= j < i ==> !occurs(self.items@[j]@, part@),
            decreases self.items@.len() - i,
        {
            if contains(self.items[i].as_str(), part) {
                assert(texts(self.items@)[i as int] == self.items@[i as int]@);
                assert(self@.contains(self.items@[i as int]@));
                return true;
            }
            i += 1;
        }
        false
    }

    /// The items, each once.
    pub fn to_vec(&self) -> (items: Vec<String>)
        ensures
            texts(items@).to_set() == self@,
            texts(items@).no_duplicates(),
    {
        proof {
            use_type_invariant(self);
        }
        crate::text::clone_strings(&self.items)
    }
}

impl Clone for KeySet {
    fn clone(&self) -> (copy: KeySet)
        ensures
            copy@ == self@,
    {
        KeySet { items: self.to_vec() }
    }
}

/// A map from texts to values.
pub struct KeyMap<V: View> {
    entries: Vec<(String, V)>,
}

/// The keys of a list of entries.
spec fn keys_of<V>(entries: Seq<(String, V)>) -> Seq<Seq<char>> {
    entries.map_values(|e: (String, V)| e.0@)
}

/// What a list of entries with distinct keys maps each key to.
spec fn map_of<V: View>(entries: Seq<(String, V)>) -> Map<Seq<char>, V::V> {
    Map::new(
        |k: Seq<char>| keys_of(entries).contains(k),
        |k: Seq<char>| entries[keys_of(entries).index_of(k)].1@,
    )
}

impl<V: View> View for KeyMap<V> {
    type V = Map<Seq<char>, V::V>;

    closed spec fn view(&self) -> Map<Seq<char>, V::V> {
        map_of(self.entries@)
    }
}

proof fn lemma_entry<V: View>(entries: Seq<(String, V)>, i: int)
    requires
        keys_of(entries).no_duplicates(),
        0 <= i < entries.len(),
    ensures
        map_of(entries).contains_key(entries[i].0@),
        map_of(entries)[entries[i].0@] == entries[i].1@,
{
    let keys = keys_of(entries);
    assert(keys[i] == entries[i].0@);
    assert(keys.contains(keys[i]));
    let j = keys.index_of(keys[i]);
    assert(keys[j] == keys[i]);
    assert(j == i);
}

proof fn lemma_push<V: View>(entries: Seq<(String, V)>, key: String, value: V)
    requires
        keys_of(entries).no_duplicates(),
        !keys_of(entries).contains(key@),
    ensures
        keys_of(entries.push((key, value))).no_duplicates(),
        map_of(entries.push((key, value))) == map_of(entries).insert(key@, value@),
{
    let more = entries.push((key, value));
    let keys = keys_of(entries);
    let more_keys = keys_of(more);
    assert(more_keys =~= keys.push(key@));
    assert(more_keys.no_duplicates());
    assert forall|k: Seq<char>| map_of(more).contains_key(k) == map_of(entries).insert(key@, value@).contains_key(
        k,
    ) by {
        if keys.contains(k) {
            let i = keys.index_of(k);
            assert(more_keys[i] == k);
        }
        assert(more_keys[entries.len() as int] == key@);
    }
    assert forall|k: Seq<char>| map_of(more).contains_key(k) implies map_of(more)[k] == map_of(entries).insert(
        key@,
        value@,
    )[k] by {
        let i = more_keys.index_of(k);
        lemma_entry(more, i);
        if i < entries.len() {
            lemma_entry(entries, i);
            assert(k != key@) by {
                assert(keys[i] == k);
            }
        }
    }
    assert(map_of(more) =~= map_of(entries).insert(key@, value@));
}

proof fn lemma_remove<V: View>(entries: Seq<(String, V)>, at: int)
    requires
        keys_of(entries).no_duplicates(),
        0 <= at < entries.len(),
    ensures
        keys_of(entries.update(at, entries.last()).drop_last()).no_duplicates(),
        map_of(entries.update(at, entries.last()).drop_last()) == map_of(entries).remove(entries[at].0@),
{
    let less = entries.update(at, entries.last()).drop_last();
    let keys = keys_of(entries);
    let less_keys = keys_of(less);
    let gone = entries[at].0@;
    assert forall|i: int| 0 <= i < less.len() implies #[trigger] less_keys[i] == keys[if i == at {
        entries.len() - 1
    } else {
        i
    }] by {}
    assert(less_keys.no_duplicates());
    assert forall|k: Seq<char>| less_keys.contains(k) == (keys.contains(k) && k != gone) by {
        assert(keys[at] == gone);
        if keys.contains(k) && k != gone {
            let i = keys.index_of(k);
            if i == entries.len() - 1 {
                assert(less_keys[at] == k);
            } else {
                assert(less_keys[i] == k);
            }
        }
        if less_keys.contains(k) {
            let i = less_keys.index_of(k);
            if i == at {
                assert(keys[entries.len() - 1] == k);
            } else {
                assert(keys[i] == k);
            }
        }
    }
    assert forall|k: Seq<char>| less_keys.contains(k) implies map_of(less)[k] == map_of(entries)[k] by {
        let i = less_keys.index_of(k);
        lemma_entry(less, i);
        if i == at {
            lemma_entry(entries, entries.len() - 1);
        } else {
            lemma_entry(entries, i);
        }
    }
    assert(map_of(less) =~= map_of(entries).remove(gone));
}

impl<V: View> KeyMap<V> {
    #[verifier::type_invariant]
    spec fn distinct(self) -> bool {
        keys_of(self.entries@).no_duplicates()
    }

    /// The keys, each once, in the order in which the entries are walked.
    pub closed spec fn order(self) -> Seq<Seq<char>> {
        keys_of(self.entries@)
    }

    /// The empty map.
    pub fn new() -> (map: KeyMap<V>)
        ensures
            map@ == Map::<Seq<char>, V::V>::empty(),
    {
        let map = KeyMap { entries: Vec::new() };
        assert(map@ =~= Map::<Seq<char>, V::V>::empty());
        map
    }

    /// The position of the entry for `key`, if there is one.
    fn position(&self, key: &str) -> (at: Option<usize>)
        ensures
            match at {
                Some(i) => {
                    &&& i < self.entries@.len()
                    &&& self.entries@[i as int].0@ == key@
                    &&& self@.contains_key(key@)
                    &&& self@[key@] == self.entries@[i as int].1@
                },
                None => !self@.contains_key(key@),
            },
    {
        proof {
            use_type_invariant(self);
        }
        let mut i: usize = 0;
        while i < self.entries.len()
            invariant
                i <= self.entries@.len(),
                keys_of(self.entries@).no_duplicates(),
                forall|j: int| 0 <= j < i ==> self.entries@[j].0@ != key@,
            decreases self.entries@.len() - i,
        {
            if same(self.entries[i].0.as_str(), key) {
                proof {
                    lemma_entry(self.entries@, i as int);
                }
                return Some(i);
            }
            i += 1;
        }
        None
    }

    /// Whether there is a value for `key`.
    pub fn contains_key(&self, key: &str) -> (held: bool)
        ensures
            held == self@.contains_key(key@),
    {
        self.position(key).is_some()
    }

    /// The value for `key`, if there is one.
    pub fn get(&self, key: &str) -> (value: Option<&V>)
        ensures
            match value {
                Some(v) => self@.contains_key(key@) && v@ == self@[key@],
                None => !self@.contains_key(key@),
            },
    {
        match self.position(key) {
            Some(i) => Some(&self.entries[i].1),
            None => None,
        }
    }

    /// Sets the value for `key`.
    pub fn insert(&mut self, key: String, value: V)
        ensures
            final(self)@ == old(self)@.insert(key@, value@),
    {
        let _replaced: Option<V> = self.remove(key.as_str());
        assert(!self@.contains_key(key@));
        proof {
            use_type_invariant(&*self);
            lemma_push(self.entries@, key, value);
        }
        let mut entries: Vec<(String, V)> = Vec::new();
        std::mem::swap(&mut entries, &mut self.entries);
        entries.push((key, value));
        self.entries = entries;
        assert(self@ =~= old(self)@.insert(key@, value@));
    }

    /// Takes the value for `key` out, if there is one.
    pub fn remove(&mut self, key: &str) -> (value: Option<V>)
        ensures
            final(self)@ == old(self)@.remove(key@),
            match value {
                Some(v) => old(self)@.contains_key(key@) && v@ == old(self)@[key@],
                None => !old(self)@.contains_key(key@),
            },
    {
        match self.position(key) {
            Some(i) => {
                proof {
                    use_type_invariant(&*self);
                    lemma_remove(self.entries@, i as int);
                }
                let mut entries: Vec<(String, V)> = Vec::new();
                std::mem::swap(&mut entries, &mut self.entries);
                let ghost before = entries@;
                let (_key, value): (String, V) = entries.swap_remove(i);
                assert(entries@ =~= before.update(i as int, before.last()).drop_last());
                self.entries = entries;
                Some(value)
            },
            None => {
                assert(self@ =~= self@.remove(key@));
                None
            },
        }
    }

    /// Takes one entry out, if there is any.
    pub fn pop(&mut self) -> (entry: Option<(String, V)>)
        ensures
            match entry {
                Some((k, v)) => {
                    &&& old(self)@.contains_key(k@)
                    &&& v@ == old(self)@[k@]
                    &&& final(self)@ == old(self)@.remove(k@)
                    &&& final(self).order() == old(self).order().drop_last()
                    &&& old(self).order().len() > 0
                },
                None => {
                    &&& old(self)@ == Map::<Seq<char>, V::V>::empty()
                    &&& final(self)@ == old(self)@
                    &&& old(self).order().len() == 0
                },
            },
    {
        if self.entries.len() == 0 {
            assert(self@ =~= Map::<Seq<char>, V::V>::empty());
            return None;
        }
        proof {
            use_type_invariant(&*self);
            lemma_remove(self.entries@, self.entries@.len() - 1);
            lemma_entry(self.entries@, self.entries@.len() - 1);
        }
        let mut entries: Vec<(String, V)> = Vec::new();
        std::mem::swap(&mut entries, &mut self.entries);
        let ghost before = entries@;
        assert(before.update(before.len() - 1, before.last()).drop_last() =~= before.drop_last());
        let popped: Option<(String, V)> = entries.pop();
        assert(entries@ =~= before.drop_last());
        assert(keys_of(entries@) =~= keys_of(before).drop_last());
        self.entries = entries;
        popped
    }

    /// How many entries the walk meets: each key once.
    pub fn len(&self) -> (n: usize)
        ensures
            n == self.order().len(),
            self.order().no_duplicates(),
            self.order().to_set() == self@.dom(),
    {
        proof {
            use_type_invariant(self);
        }
        assert(self.order().to_set() =~= self@.dom());
        self.entries.len()
    }

    /// The key of the entry at `at`, in the order of the walk.
    pub fn key_at(&self, at: usize) -> (key: &String)
        requires
            at < self.order().len(),
        ensures
            key@ == self.order()[at as int],
            self@.contains_key(key@),
    {
        proof {
            use_type_invariant(self);
            lemma_entry(self.entries@, at as int);
        }
        &self.entries[at].0
    }

    /// The value of the entry at `at`, in the order of the walk.
    pub fn value_at(&self, at: usize) -> (value: &V)
        requires
            at < self.order().len(),
        ensures
            self@.contains_key(self.order()[at as int]),
            value@ == self@[self.order()[at as int]],
    {
        proof {
            use_type_invariant(self);
            lemma_entry(self.entries@, at as int);
        }
        &self.entries[at].1
    }
}

} // verus!
