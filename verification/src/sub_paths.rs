//! What is left of a path expression behind a prefix.
use vstd::prelude::*;

use crate::text::{chars_of, ends_with, same, skip, starts_with, take, texts};

verus! {

/// Whether a path can be cut behind the character at `at`: it is a `/`, or an ASCII character at the end.
pub open spec fn is_cut(path: Seq<char>, at: int) -> bool {
    path[at] == '/' || (at == path.len() - 1 && path[at] < '\u{80}')
}

/// The places before `end` behind which a path can be cut, the last first.
pub open spec fn cuts_before(path: Seq<char>, end: int) -> Seq<int>
    decreases end,
{
    if end <= 0 {
        seq![]
    } else if is_cut(path, end - 1) {
        seq![end - 1] + cuts_before(path, end - 1)
    } else {
        cuts_before(path, end - 1)
    }
}

/// The places behind which a path can be cut, the last first.
pub open spec fn cuts(path: Seq<char>) -> Seq<int> {
    cuts_before(path, path.len() as int)
}

/// The first parts of a path, the longest first.
pub open spec fn first_parts(path: Seq<char>) -> Seq<Seq<char>> {
    cuts(path).map_values(|at: int| path.take(at + 1))
}

/// What goes on behind the cut at `at`; a `**` before the cut may match beyond it, and goes on too.
pub open spec fn rest_behind(path: Seq<char>, at: int) -> Seq<char> {
    let part = path.take(at + 1);
    if "**/"@.is_suffix_of(part) {
        path.skip(at - 2)
    } else if "**"@.is_suffix_of(part) {
        path.skip(at - 1)
    } else {
        path.skip(at + 1)
    }
}

/// What goes on behind those of the first `n` cuts whose first part matches the prefix.
pub open spec fn rests_behind(path: Seq<char>, matching: Seq<bool>, n: int) -> Seq<Seq<char>>
    decreases n,
{
    if n <= 0 {
        seq![]
    } else if matching[n - 1] {
        rests_behind(path, matching, n - 1).push(rest_behind(path, cuts(path)[n - 1]))
    } else {
        rests_behind(path, matching, n - 1)
    }
}

/// What follows the prefix in the paths that `path` matches, where `matching` tells which first parts match the prefix.
/// A `**` covers all the rest.
pub open spec fn sub_paths(path: Seq<char>, prefix: Seq<char>, matching: Seq<bool>) -> Seq<Seq<char>> {
    let rests = rests_behind(path, matching, cuts(path).len() as int);
    if prefix.is_prefix_of(path) {
        seq![path.skip(prefix.len() as int)]
    } else if rests.contains("**"@) {
        seq!["**"@]
    } else {
        rests
    }
}

/// The places behind which a path can be cut, the last first.
fn find_cuts(path: &str) -> (places: Vec<usize>)
    ensures
        places@.map_values(|at: usize| at as int) == cuts(path@),
        forall|i: int| 0 <= i < places@.len() ==> #[trigger] places@[i] < path@.len(),
        path@.len() <= usize::MAX,
{
    let chars: Vec<char> = chars_of(path);
    let n: usize = chars.len();
    let mut places: Vec<usize> = Vec::new();
    let mut end: usize = n;
    while end > 0
        invariant
            chars@ == path@,
            n == chars@.len(),
            end <= n,
            cuts(path@) == places@.map_values(|at: usize| at as int) + cuts_before(path@, end as int),
            forall|i: int| 0 <= i < places@.len() ==> #[trigger] places@[i] < path@.len(),
        decreases end,
    {
        let ghost before = places@.map_values(|at: usize| at as int);
        let at: usize = end - 1;
        if chars[at] == '/' || (at == n - 1 && chars[at] < '\u{80}') {
            places.push(at);
            assert(places@.map_values(|at: usize| at as int) =~= before.push(at as int));
            assert(before + cuts_before(path@, end as int) =~= before.push(at as int) + cuts_before(path@, at as int));
        }
        end = at;
    }
    assert(places@.map_values(|at: usize| at as int) + cuts_before(path@, 0) =~= places@.map_values(
        |at: usize| at as int,
    ));
    places
}

/// The admin space of the bridge.
pub struct DdsPlugin;

impl DdsPlugin {
    /// The first parts of a path expression that may match a prefix, the longest first.
    pub fn get_first_parts(path_expr: &str) -> (parts: Vec<String>)
        ensures
            texts(parts@) == first_parts(path_expr@),
    {
        let places: Vec<usize> = find_cuts(path_expr);
        let ghost all = first_parts(path_expr@);
        let mut parts: Vec<String> = Vec::new();
        let mut i: usize = 0;
        while i < places.len()
            invariant
                i <= places@.len(),
                places@.map_values(|at: usize| at as int) == cuts(path_expr@),
                forall|j: int| 0 <= j < places@.len() ==> #[trigger] places@[j] < path_expr@.len(),
                path_expr@.len() <= usize::MAX,
                all == first_parts(path_expr@),
                parts@.len() == i,
                forall|j: int| 0 <= j < i ==> #[trigger] parts@[j]@ == all[j],
            decreases places@.len() - i,
        {
            assert(places@[i as int] < path_expr@.len());
            assert(cuts(path_expr@)[i as int] == places@[i as int]);
            let part: String = take(path_expr, places[i] + 1);
            parts.push(part);
            i += 1;
        }
        assert(all.len() == cuts(path_expr@).len());
        assert(cuts(path_expr@).len() == places@.len());
        assert(texts(parts@) =~= all);
        parts
    }

    /// What follows `prefix` in the paths that `path_expr` matches, where `matching` tells for each of
    /// its first parts whether it matches `prefix`.
    pub fn get_sub_path_exprs(path_expr: &str, prefix: &str, matching: &Vec<bool>) -> (rests: Vec<String>)
        requires
            matching@.len() == first_parts(path_expr@).len(),
        ensures
            texts(rests@) == sub_paths(path_expr@, prefix@, matching@),
    {
        let mut rests: Vec<String> = Vec::new();
        if starts_with(path_expr, prefix) {
            let chars: Vec<char> = chars_of(prefix);
            rests.push(skip(path_expr, chars.len()));
            assert(texts(rests@) =~= sub_paths(path_expr@, prefix@, matching@));
            return rests;
        }
        let places: Vec<usize> = find_cuts(path_expr);
        let ghost last = cuts(path_expr@).len() as int;
        assert(last == places@.len());
        assert(texts(rests@) =~= rests_behind(path_expr@, matching@, 0));
        let mut i: usize = 0;
        while i < places.len()
            invariant
                i <= places@.len(),
                last == cuts(path_expr@).len(),
                last == places@.len(),
                last == matching@.len(),
                !prefix@.is_prefix_of(path_expr@),
                places@.map_values(|at: usize| at as int) == cuts(path_expr@),
                forall|j: int| 0 <= j < places@.len() ==> #[trigger] places@[j] < path_expr@.len(),
                path_expr@.len() <= usize::MAX,
                texts(rests@) == rests_behind(path_expr@, matching@, i as int),
                !rests_behind(path_expr@, matching@, i as int).contains("**"@),
            decreases places@.len() - i,
        {
            let at: usize = places[i];
            let ghost before = rests@;
            assert(cuts(path_expr@)[i as int] == at);
            assert(at < path_expr@.len());
            if matching[i] {
                let part: String = take(path_expr, at + 1);
                proof {
                    reveal_strlit("**/");
                    reveal_strlit("**");
                }
                let rest: String = if ends_with(part.as_str(), "**/") {
                    skip(path_expr, at - 2)
                } else if ends_with(part.as_str(), "**") {
                    skip(path_expr, at - 1)
                } else {
                    skip(path_expr, at + 1)
                };
                assert(rest@ == rest_behind(path_expr@, at as int));
                let covers: bool = same(rest.as_str(), "**");
                rests.push(rest);
                assert(texts(rests@) =~= texts(before).push(rest@));
                if covers {
                    proof {
                        assert(rests_behind(path_expr@, matching@, i + 1).last() == "**"@);
                        lemma_rests_grow(path_expr@, matching@, i + 1, last);
                    }
                    let mut all: Vec<String> = Vec::new();
                    all.push(String::from_str("**"));
                    assert(texts(all@) =~= seq!["**"@]);
                    return all;
                }
                assert forall|j: int| 0 <= j < rests@.len() implies texts(rests@)[j] != "**"@ by {
                    if j < before.len() {
                        assert(texts(rests@)[j] == texts(before)[j]);
                        assert(texts(before).contains(texts(before)[j]));
                    }
                }
            }
            i += 1;
        }
        rests
    }
}

/// What was found stays.
proof fn lemma_rests_grow(path: Seq<char>, matching: Seq<bool>, n: int, m: int)
    requires
        0 < n <= m,
        rests_behind(path, matching, n).contains("**"@),
    ensures
        rests_behind(path, matching, m).contains("**"@),
    decreases m - n,
{
    if n < m {
        lemma_rests_grow(path, matching, n, m - 1);
        let less = rests_behind(path, matching, m - 1);
        let all = rests_behind(path, matching, m);
        let i = less.index_of("**"@);
        assert(all[i] == "**"@);
    }
}

} // verus!
