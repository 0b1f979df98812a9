//! Searching and building text, over the characters it holds.
use vstd::prelude::*;
use vstd::std_specs::iter::IteratorSpec;

verus! {

/// Whether `pattern` stands in `text` at position `at`.
pub open spec fn occurs_at(text: Seq<char>, pattern: Seq<char>, at: int) -> bool {
    &&& 0 <= at
    &&& at + pattern.len() <= text.len()
    &&& text.subrange(at, at + pattern.len()) == pattern
}

/// Whether `pattern` stands anywhere in `text`.
pub open spec fn occurs(text: Seq<char>, pattern: Seq<char>) -> bool {
    exists|at: int| occurs_at(text, pattern, at)
}

/// Whether `at` is the first place where `pattern` stands in `text`.
pub open spec fn first_at(text: Seq<char>, pattern: Seq<char>, at: int) -> bool {
    &&& occurs_at(text, pattern, at)
    &&& forall|earlier: int| earlier < at ==> !occurs_at(text, pattern, earlier)
}

/// The first place where `pattern` stands in `text`.
pub open spec fn first_index(text: Seq<char>, pattern: Seq<char>) -> Option<int> {
    if occurs(text, pattern) {
        Some(choose|at: int| first_at(text, pattern, at))
    } else {
        None
    }
}

/// Where `pattern` stands in `text`, there is a first place.
proof fn lemma_first_at(text: Seq<char>, pattern: Seq<char>, at: int) -> (first: int)
    requires
        occurs_at(text, pattern, at),
    ensures
        first_at(text, pattern, first),
    decreases at,
{
    if exists|earlier: int| earlier < at && occurs_at(text, pattern, earlier) {
        let earlier = choose|earlier: int| earlier < at && occurs_at(text, pattern, earlier);
        lemma_first_at(text, pattern, earlier)
    } else {
        at
    }
}

/// Where there is a first place, `pattern` stands there.
pub proof fn lemma_index_occurs(text: Seq<char>, pattern: Seq<char>)
    ensures
        first_index(text, pattern) matches Some(at) ==> first_at(text, pattern, at),
{
    if occurs(text, pattern) {
        let at = choose|at: int| occurs_at(text, pattern, at);
        let first = lemma_first_at(text, pattern, at);
    }
}

/// There is one first place at most.
pub proof fn lemma_first_index(text: Seq<char>, pattern: Seq<char>, at: int)
    requires
        first_at(text, pattern, at),
    ensures
        first_index(text, pattern) == Some(at),
{
    let chosen = choose|i: int| first_at(text, pattern, i);
    assert(first_at(text, pattern, chosen));
    assert(!(chosen < at));
    assert(!(at < chosen));
}

/// The texts that a list of strings holds.
pub open spec fn texts(strings: Seq<String>) -> Seq<Seq<char>> {
    strings.map_values(|s: String| s@)
}

/// The texts that an optional list of strings holds.
pub open spec fn optional_texts(strings: Option<Vec<String>>) -> Option<Seq<Seq<char>>> {
    match strings {
        Some(list) => Some(texts(list@)),
        None => None,
    }
}

/// The text of an optional string.
pub open spec fn optional_text(string: Option<String>) -> Option<Seq<char>> {
    match string {
        Some(s) => Some(s@),
        None => None,
    }
}

/// The characters of `text`, in order.
pub fn chars_of(text: &str) -> (list: Vec<char>)
    ensures
        list@ == text@,
{
    let mut list: Vec<char> = Vec::new();
    for c in iter: text.chars()
        invariant
            iter.seq() == text@,
            list@ == iter.seq().take(iter.index() as int),
    {
        list.push(c);
    }
    list
}

/// Whether two texts are the same.
pub fn same(left: &str, right: &str) -> (b: bool)
    ensures
        b == (left@ == right@),
{
    let mut lefts = left.chars();
    let mut rights = right.chars();
    let ghost mut n: int = 0;
    loop
        invariant
            0 <= n <= left@.len(),
            n <= right@.len(),
            lefts.remaining() == left@.skip(n),
            rights.remaining() == right@.skip(n),
            left@.take(n) == right@.take(n),
        decreases left@.len() - n,
    {
        match (lefts.next(), rights.next()) {
            (Some(a), Some(b)) => {
                assert(a == left@[n] && b == right@[n]);
                if a != b {
                    return false;
                }
                assert(left@.take(n + 1) =~= left@.take(n).push(a));
                assert(right@.take(n + 1) =~= right@.take(n).push(b));
                assert(left@.skip(n).drop_first() =~= left@.skip(n + 1));
                assert(right@.skip(n).drop_first() =~= right@.skip(n + 1));
                proof {
                    n = n + 1;
                }
            },
            (None, None) => {
                assert(left@.take(n) =~= left@);
                assert(right@.take(n) =~= right@);
                return true;
            },
            (Some(_), None) => {
                return false;
            },
            (None, Some(_)) => {
                return false;
            },
        }
    }
}

/// Whether `pattern` stands in `text` at `at`.
fn stands_at(text: &Vec<char>, pattern: &Vec<char>, at: usize) -> (found: bool)
    requires
        at + pattern.len() <= text.len(),
    ensures
        found == occurs_at(text@, pattern@, at as int),
{
    let mut i: usize = 0;
    while i < pattern.len()
        invariant
            i <= pattern@.len(),
            at + pattern.len() <= text.len(),
            forall|j: int| 0 <= j < i ==> text@[at + j] == pattern@[j],
        decreases pattern@.len() - i,
    {
        if text[at + i] != pattern[i] {
            assert(text@.subrange(at as int, at + pattern@.len())[i as int] != pattern@[i as int]);
            return false;
        }
        i += 1;
    }
    assert(text@.subrange(at as int, at + pattern@.len()) =~= pattern@);
    true
}

/// The position of the first place where `pattern` stands in `text`.
pub fn find(text: &str, pattern: &str) -> (at: Option<usize>)
    ensures
        match at {
            Some(i) => {
                &&& first_at(text@, pattern@, i as int)
                &&& first_index(text@, pattern@) == Some(i as int)
                &&& i + pattern@.len() <= usize::MAX
            },
            None => !occurs(text@, pattern@) && first_index(text@, pattern@) is None,
        },
{
    let chars: Vec<char> = chars_of(text);
    let wanted: Vec<char> = chars_of(pattern);
    if wanted.len() > chars.len() {
        return None;
    }
    let last: usize = chars.len() - wanted.len();
    let mut i: usize = 0;
    loop
        invariant
            chars@ == text@,
            wanted@ == pattern@,
            last == chars.len() - wanted@.len(),
            i <= last,
            forall|earlier: int| earlier < i ==> !occurs_at(text@, pattern@, earlier),
        decreases last - i,
    {
        if stands_at(&chars, &wanted, i) {
            proof {
                lemma_first_index(text@, pattern@, i as int);
            }
            return Some(i);
        }
        if i == last {
            return None;
        }
        i += 1;
    }
}

/// Whether `pattern` stands anywhere in `text`.
pub fn contains(text: &str, pattern: &str) -> (found: bool)
    ensures
        found == occurs(text@, pattern@),
{
    match find(text, pattern) {
        Some(_) => true,
        None => false,
    }
}

/// Whether `text` begins with `prefix`.
pub fn starts_with(text: &str, prefix: &str) -> (b: bool)
    ensures
        b == prefix@.is_prefix_of(text@),
{
    let chars: Vec<char> = chars_of(text);
    let wanted: Vec<char> = chars_of(prefix);
    wanted.len() <= chars.len() && stands_at(&chars, &wanted, 0)
}

/// Whether `text` ends with `suffix`.
pub fn ends_with(text: &str, suffix: &str) -> (b: bool)
    ensures
        b == suffix@.is_suffix_of(text@),
{
    let chars: Vec<char> = chars_of(text);
    let wanted: Vec<char> = chars_of(suffix);
    wanted.len() <= chars.len() && stands_at(&chars, &wanted, chars.len() - wanted.len())
}

/// The part of `text` from the position `at` on.
pub fn skip(text: &str, at: usize) -> (rest: String)
    requires
        at <= text@.len(),
    ensures
        rest@ == text@.skip(at as int),
{
    let rest: &str = text.substring_char(at, text.unicode_len());
    assert(rest@ =~= text@.skip(at as int));
    String::from_str(rest)
}

/// The part of `text` up to the position `at`.
pub fn take(text: &str, at: usize) -> (part: String)
    requires
        at <= text@.len(),
    ensures
        part@ == text@.take(at as int),
{
    let part: &str = text.substring_char(0, at);
    assert(part@ =~= text@.take(at as int));
    String::from_str(part)
}

/// `left` followed by `right`.
pub fn concat(left: &str, right: &str) -> (both: String)
    ensures
        both@ == left@ + right@,
{
    let mut both: String = String::from_str(left);
    both.append(right);
    both
}

/// A copy of a list of strings.
pub fn clone_strings(strings: &Vec<String>) -> (copy: Vec<String>)
    ensures
        texts(copy@) == texts(strings@),
{
    let mut copy: Vec<String> = Vec::new();
    let mut i: usize = 0;
    while i < strings.len()
        invariant
            i <= strings@.len(),
            texts(copy@) == texts(strings@).take(i as int),
        decreases strings@.len() - i,
    {
        let ghost before = copy@;
        copy.push(strings[i].clone());
        assert(texts(copy@) =~= texts(before).push(strings@[i as int]@));
        assert(texts(strings@).take(i + 1) =~= texts(strings@).take(i as int).push(strings@[i as int]@));
        i += 1;
    }
    assert(texts(strings@).take(i as int) =~= texts(strings@));
    copy
}

/// The texts of `parts`, with `separator` between each and the next.
pub open spec fn joined(parts: Seq<Seq<char>>, separator: Seq<char>) -> Seq<char>
    decreases parts.len(),
{
    if parts.len() == 0 {
        seq![]
    } else if parts.len() == 1 {
        parts[0]
    } else {
        joined(parts.drop_last(), separator) + separator + parts.last()
    }
}

/// Joins `parts`, with `separator` between each and the next.
pub fn join(parts: &Vec<String>, separator: &str) -> (text: String)
    ensures
        text@ == joined(texts(parts@), separator@),
{
    if parts.len() == 0 {
        return String::new();
    }
    let mut text: String = parts[0].clone();
    let mut i: usize = 1;
    assert(texts(parts@).take(1).len() == 1);
    while i < parts.len()
        invariant
            1 <= i <= parts@.len(),
            text@ == joined(texts(parts@).take(i as int), separator@),
        decreases parts@.len() - i,
    {
        let ghost before = texts(parts@).take(i as int);
        let ghost after = texts(parts@).take(i + 1);
        assert(after.drop_last() =~= before);
        text.append(separator);
        text.append(parts[i].as_str());
        assert(after.last() == parts@[i as int]@);
        i += 1;
    }
    assert(texts(parts@).take(i as int) =~= texts(parts@));
    text
}

} // verus!
