//! Zenoh key expressions: lists of chunks separated by `/`, in which `*`, `**` and `$*` are wildcards.
use vstd::prelude::*;

use crate::text::{chars_of, optional_text, texts};

verus! {

/// Whether a chunk of `text` begins at `at`.
pub open spec fn starts_chunk(text: Seq<char>, at: int) -> bool {
    at == 0 || text[at - 1] == '/'
}

/// Whether a chunk of `text` ends before `at`.
pub open spec fn ends_chunk(text: Seq<char>, at: int) -> bool {
    at == text.len() || text[at] == '/'
}

/// Whether the chunk of `text` that begins at `at` is `**`.
pub open spec fn double_wild_at(text: Seq<char>, at: int) -> bool {
    &&& starts_chunk(text, at)
    &&& text[at] == '*'
    &&& at + 1 < text.len()
    &&& text[at + 1] == '*'
    &&& ends_chunk(text, at + 2)
}

/// Whether the character at `at` may stand there in a key expression:
/// no chunk is empty, `#` and `?` are not used, `$` is only used in `$*`, which neither
/// is a whole chunk nor is followed by `$`, and any other `*` is a chunk `*`
/// or belongs to a chunk `**`, which is not followed by a chunk that begins with `*`.
pub open spec fn fits(text: Seq<char>, at: int) -> bool {
    &&& text[at] != '#'
    &&& text[at] != '?'
    &&& text[at] == '/' ==> at > 0 && at + 1 < text.len() && text[at + 1] != '/'
    &&& text[at] == '$' ==> {
        &&& at + 1 < text.len()
        &&& text[at + 1] == '*'
        &&& at + 2 < text.len() ==> text[at + 2] != '$'
        &&& !(starts_chunk(text, at) && ends_chunk(text, at + 2))
    }
    &&& text[at] == '*' ==> {
        ||| at > 0 && text[at - 1] == '$'
        ||| starts_chunk(text, at) && ends_chunk(text, at + 1)
        ||| double_wild_at(text, at) && !(at + 3 < text.len() && text[at + 3] == '*')
        ||| at > 0 && double_wild_at(text, at - 1)
    }
}

/// Whether `text` is a key expression in canonical form.
pub open spec fn valid_key_expr(text: Seq<char>) -> bool {
    &&& text.len() > 0
    &&& forall|at: int| 0 <= at < text.len() ==> #[trigger] fits(text, at)
}

/// Whether `text` holds no wildcard.
pub open spec fn literal(text: Seq<char>) -> bool {
    forall|i: int| 0 <= i < text.len() ==> #[trigger] text[i] != '*'
}

/// `left` and `right` with a `/` between them.
pub open spec fn slashed(left: Seq<char>, right: Seq<char>) -> Seq<char> {
    left.push('/') + right
}

/// Whether the characters of `text` from `at` on are neither `#`, `?`, `$` nor `*`,
/// and no `/` among them begins, ends or follows a `/`.
pub open spec fn plain_from(text: Seq<char>, at: int) -> bool
    decreases text.len() - at,
{
    at >= text.len() || {
        &&& text[at] != '#'
        &&& text[at] != '?'
        &&& text[at] != '$'
        &&& text[at] != '*'
        &&& text[at] == '/' ==> at > 0 && at + 1 < text.len() && text[at + 1] != '/'
        &&& plain_from(text, at + 1)
    }
}

proof fn lemma_plain_from(text: Seq<char>, at: int)
    requires
        plain_from(text, at),
    ensures
        forall|i: int| at <= i < text.len() ==> #[trigger] fits(text, i),
        forall|i: int| at <= i < text.len() ==> #[trigger] text[i] != '*',
    decreases text.len() - at,
{
    if at < text.len() {
        lemma_plain_from(text, at + 1);
    }
}

/// A text of plain characters is a literal key expression.
pub proof fn lemma_plain(text: Seq<char>)
    requires
        text.len() > 0,
        plain_from(text, 0),
    ensures
        valid_key_expr(text),
        literal(text),
{
    lemma_plain_from(text, 0);
}

/// A key expression behind another is a key expression, where they do not meet in wildcards.
pub proof fn lemma_slashed_apart(left: Seq<char>, right: Seq<char>)
    requires
        valid_key_expr(left),
        valid_key_expr(right),
        left.last() != '*' || right[0] != '*',
    ensures
        valid_key_expr(slashed(left, right)),
        slashed(left, right).last() == right.last(),
{
    let text = slashed(left, right);
    let n = left.len() as int;
    assert(fits(left, n - 1));
    assert(fits(right, 0));
    assert(text[n] == '/');
    assert(text[n + 1] == right[0]);
    assert forall|at: int| 0 <= at < text.len() implies #[trigger] fits(text, at) by {
        if at < n {
            assert(fits(left, at));
            assert(forall|i: int| 0 <= i < n ==> #[trigger] text[i] == left[i]);
            assert(starts_chunk(text, at) == starts_chunk(left, at));
            assert(at > 0 ==> starts_chunk(text, at - 1) == starts_chunk(left, at - 1));
        } else if at > n {
            let i = at - n - 1;
            assert(fits(right, i));
            assert(text[at] == right[i]);
            assert(i > 0 ==> text[at - 1] == right[i - 1]);
            assert(i + 1 < right.len() ==> text[at + 1] == right[i + 1]);
            assert(i + 2 < right.len() ==> text[at + 2] == right[i + 2]);
            assert(i + 3 < right.len() ==> text[at + 3] == right[i + 3]);
            assert(starts_chunk(text, at) == starts_chunk(right, i));
            if i > 0 {
                assert(i > 1 ==> text[at - 2] == right[i - 2]);
                assert(starts_chunk(text, at - 1) == starts_chunk(right, i - 1));
            }
        }
    }
}

/// A key expression behind a literal one is a key expression.
pub proof fn lemma_slashed(left: Seq<char>, right: Seq<char>)
    requires
        valid_key_expr(left),
        literal(left),
        valid_key_expr(right),
    ensures
        valid_key_expr(slashed(left, right)),
        literal(right) ==> literal(slashed(left, right)),
{
    let text = slashed(left, right);
    let n = left.len() as int;
    assert(left[n - 1] != '*');
    lemma_slashed_apart(left, right);
    if literal(right) {
        assert forall|i: int| 0 <= i < text.len() implies #[trigger] text[i] != '*' by {
            if i < n {
                assert(text[i] == left[i]);
            } else if i > n {
                assert(text[i] == right[i - n - 1]);
            }
        }
    }
}

/// The canonical form of `left/right`, or nothing where that has none.
pub uninterp spec fn joined_key_expr(left: Seq<char>, right: Seq<char>) -> Option<Seq<char>>;

/// The canonical form of `left/right`, where that has one.
pub open spec fn joined_text(left: Seq<char>, right: Seq<char>) -> Seq<char> {
    joined_key_expr(left, right)->Some_0
}

/// Whether some key matches both key expressions.
pub uninterp spec fn key_exprs_intersect(left: Seq<char>, right: Seq<char>) -> bool;

/// What may follow `prefix` in the keys that `text` matches.
pub uninterp spec fn stripped_key_exprs(text: Seq<char>, prefix: Seq<char>) -> Seq<Seq<char>>;

/// What is left of a literal `text` behind `prefix` and a `/`.
pub open spec fn stripped_literal(text: Seq<char>, prefix: Seq<char>) -> Seq<Seq<char>> {
    if text.len() > prefix.len() + 1 && prefix.push('/').is_prefix_of(text) {
        seq![text.skip(prefix.len() as int + 1)]
    } else {
        seq![]
    }
}

/// Whether `$*` stands in `text` at `at`.
pub open spec fn star_at(text: Seq<char>, at: int) -> bool {
    &&& 0 <= at
    &&& at + 2 <= text.len()
    &&& text[at] == '$'
    &&& text[at + 1] == '*'
}

/// Whether `$*$*` stands in `text` at `at`.
pub open spec fn repeats_star_at(text: Seq<char>, at: int) -> bool {
    star_at(text, at) && star_at(text, at + 2)
}

/// Whether two bytes or more stand in `text` from `at` on.
pub open spec fn two_bytes_from(text: Seq<char>, at: int) -> bool {
    at + 2 <= text.len() || (at + 1 == text.len() && text[at] >= '\u{80}')
}

/// Where a text is read on from `at`: behind two bytes, where these are followed by `$*`, or at once.
pub open spec fn read_on(text: Seq<char>, at: int) -> int {
    if star_at(text, at + 2) && text[at] <= '\u{7f}' && text[at + 1] <= '\u{7f}' {
        at + 2
    } else if star_at(text, at + 1) && '\u{80}' <= text[at] <= '\u{7ff}' {
        at + 1
    } else {
        at
    }
}

/// Whether `text` can be brought into canonical form from `at` on, where `inside` tells whether anything but
/// repeated `$*` was read of the chunk. Inside a chunk, `$*$*` has to be followed by two bytes. What these are
/// does not matter: where they hold a `/`, and `$*` follows, the chunk is read on.
pub open spec fn joinable_from(text: Seq<char>, at: int, inside: bool) -> bool
    decreases text.len() - at,
{
    if at >= text.len() {
        true
    } else if !repeats_star_at(text, at) {
        joinable_from(text, at + 1, text[at] != '/')
    } else if inside {
        two_bytes_from(text, at + 4) && joinable_from(text, read_on(text, at + 4), true)
    } else {
        joinable_from(text, at + 2, false)
    }
}

/// Whether `text` can be brought into canonical form behind a key expression and a `/`.
pub open spec fn joinable(text: Seq<char>) -> bool {
    joinable_from(text, 0, false)
}

/// Asks `zenoh::key_expr::keyexpr::new` whether `text` is a key expression.
/// It takes the texts that are in canonical form, as [`valid_key_expr`] says.
#[verifier::external_body]
fn accepts(text: &str) -> (ok: bool)
    ensures
        ok == valid_key_expr(text@),
{
    zenoh::key_expr::keyexpr::new(text).is_ok()
}

/// Calls `zenoh::key_expr::keyexpr::join`, which puts a `/` and `right` behind `left`, brings that
/// into canonical form, and fails where the outcome is not a key expression. It panics on a text
/// that is not [`joinable`].
/// What is canonical, and what holds no `*`, is left as it is; a key expression can always be joined.
#[verifier::external_body]
fn join_texts(left: &str, right: &str) -> (joined: Option<String>)
    requires
        valid_key_expr(left@),
        joinable(right@),
    ensures
        optional_text(joined) == joined_key_expr(left@, right@),
        joined matches Some(text) ==> valid_key_expr(text@),
        valid_key_expr(right@) ==> joined is Some,
        valid_key_expr(slashed(left@, right@)) ==> optional_text(joined) == Some(slashed(left@, right@)),
        literal(slashed(left@, right@)) && !valid_key_expr(slashed(left@, right@)) ==> joined is None,
{
    let left = zenoh::key_expr::keyexpr::new(left).unwrap();
    left.join(right).ok().map(|joined| joined.as_str().to_string())
}

/// Calls `zenoh::key_expr::keyexpr::intersects`. A key expression intersects itself;
/// two literal ones that differ do not intersect.
#[verifier::external_body]
fn texts_intersect(left: &str, right: &str) -> (b: bool)
    requires
        valid_key_expr(left@),
        valid_key_expr(right@),
    ensures
        b == key_exprs_intersect(left@, right@),
        left@ == right@ ==> b,
        literal(left@) && literal(right@) && left@ != right@ ==> !b,
{
    let left = zenoh::key_expr::keyexpr::new(left).unwrap();
    left.intersects(zenoh::key_expr::keyexpr::new(right).unwrap())
}

/// Calls `zenoh::key_expr::keyexpr::strip_prefix`, whose results are key expressions.
/// Of a literal key expression and a literal prefix it gives what stands behind the prefix and a `/`.
#[verifier::external_body]
fn strip_texts(text: &str, prefix: &str) -> (rest: Vec<String>)
    requires
        valid_key_expr(text@),
        valid_key_expr(prefix@),
    ensures
        texts(rest@) == stripped_key_exprs(text@, prefix@),
        forall|i: int| 0 <= i < rest@.len() ==> valid_key_expr(#[trigger] rest@[i]@),
        literal(text@) && literal(prefix@) ==> texts(rest@) == stripped_literal(text@, prefix@),
{
    let text = zenoh::key_expr::keyexpr::new(text).unwrap();
    let rest = text.strip_prefix(zenoh::key_expr::keyexpr::new(prefix).unwrap());
    rest.iter().map(|part| part.as_str().to_string()).collect()
}

/// A key expression.
pub struct KeyExpr {
    text: String,
}

impl View for KeyExpr {
    type V = Seq<char>;

    closed spec fn view(&self) -> Seq<char> {
        self.text@
    }
}

/// The texts of a list of key expressions.
pub open spec fn key_texts(list: Seq<KeyExpr>) -> Seq<Seq<char>> {
    list.map_values(|k: KeyExpr| k@)
}

/// The text of an optional key expression.
pub open spec fn optional_key(key: Option<KeyExpr>) -> Option<Seq<char>> {
    match key {
        Some(k) => Some(k@),
        None => None,
    }
}

/// A text that is no key expression.
#[derive(Clone, Copy, Debug, PartialEq, Eq, Structural)]
pub struct InvalidKeyExpr;

impl KeyExpr {
    #[verifier::type_invariant]
    spec fn canonical(self) -> bool {
        valid_key_expr(self.text@)
    }

    /// The key expression that `text` is.
    pub fn new(text: &str) -> (key: Result<KeyExpr, InvalidKeyExpr>)
        ensures
            key is Ok <==> valid_key_expr(text@),
            key matches Ok(k) ==> k@ == text@,
    {
        if accepts(text) {
            Ok(KeyExpr { text: String::from_str(text) })
        } else {
            Err(InvalidKeyExpr)
        }
    }

    /// A key expression that is known to be one.
    pub fn known(text: &str) -> (key: KeyExpr)
        requires
            valid_key_expr(text@),
        ensures
            key@ == text@,
    {
        KeyExpr { text: String::from_str(text) }
    }

    /// Its text, which is a key expression.
    pub fn as_str(&self) -> (text: &str)
        ensures
            text@ == self@,
            valid_key_expr(self@),
    {
        proof {
            use_type_invariant(self);
        }
        self.text.as_str()
    }

    /// Its text.
    pub fn to_text(&self) -> (text: String)
        ensures
            text@ == self@,
            valid_key_expr(self@),
    {
        proof {
            use_type_invariant(self);
        }
        self.text.clone()
    }

    /// The key expression for `self/right`.
    pub fn join(&self, right: &str) -> (key: Result<KeyExpr, InvalidKeyExpr>)
        requires
            joinable(right@),
        ensures
            match key {
                Ok(k) => joined_key_expr(self@, right@) == Some(k@),
                Err(_) => joined_key_expr(self@, right@) is None,
            },
            valid_key_expr(slashed(self@, right@)) ==> joined_key_expr(self@, right@) == Some(slashed(self@, right@)),
            literal(slashed(self@, right@)) && !valid_key_expr(slashed(self@, right@)) ==> joined_key_expr(
                self@,
                right@,
            ) is None,
    {
        proof {
            use_type_invariant(self);
        }
        match join_texts(self.text.as_str(), right) {
            Some(text) => Ok(KeyExpr { text }),
            None => Err(InvalidKeyExpr),
        }
    }

    /// The key expression for `self/right`.
    pub fn slash(&self, right: &KeyExpr) -> (key: KeyExpr)
        ensures
            joined_key_expr(self@, right@) is Some,
            key@ == joined_text(self@, right@),
            self@.last() != '*' || right@[0] != '*' ==> key@ == slashed(self@, right@),
            literal(self@) ==> key@ == slashed(self@, right@),
            literal(self@) && literal(right@) ==> literal(key@),
    {
        proof {
            use_type_invariant(self);
            use_type_invariant(right);
            lemma_joinable(right@);
            if self@.last() != '*' || right@[0] != '*' {
                lemma_slashed_apart(self@, right@);
            }
            if literal(self@) {
                assert(self@[self@.len() - 1] != '*');
                lemma_slashed(self@, right@);
            }
        }
        match join_texts(self.text.as_str(), right.text.as_str()) {
            Some(text) => KeyExpr { text },
            // Not met: two key expressions can always be joined.
            None => self.clone(),
        }
    }

    /// Whether some key matches both key expressions.
    pub fn intersects(&self, other: &KeyExpr) -> (b: bool)
        ensures
            b == key_exprs_intersect(self@, other@),
            self@ == other@ ==> b,
            literal(self@) && literal(other@) && self@ != other@ ==> !b,
    {
        proof {
            use_type_invariant(self);
            use_type_invariant(other);
        }
        texts_intersect(self.text.as_str(), other.text.as_str())
    }

    /// The key expressions that follow `prefix` in the keys that match.
    pub fn strip_prefix(&self, prefix: &KeyExpr) -> (rest: Vec<KeyExpr>)
        ensures
            key_texts(rest@) == stripped_key_exprs(self@, prefix@),
            literal(self@) && literal(prefix@) ==> key_texts(rest@) == stripped_literal(self@, prefix@),
    {
        proof {
            use_type_invariant(self);
            use_type_invariant(prefix);
        }
        let parts: Vec<String> = strip_texts(self.text.as_str(), prefix.text.as_str());
        let mut rest: Vec<KeyExpr> = Vec::new();
        let mut i: usize = 0;
        while i < parts.len()
            invariant
                i <= parts@.len(),
                rest@.len() == i,
                forall|j: int| 0 <= j < i ==> #[trigger] rest@[j]@ == parts@[j]@,
                forall|j: int| 0 <= j < parts@.len() ==> valid_key_expr(#[trigger] parts@[j]@),
            decreases parts@.len() - i,
        {
            rest.push(KeyExpr { text: parts[i].clone() });
            i += 1;
        }
        assert(key_texts(rest@) =~= texts(parts@));
        rest
    }

    /// Whether it holds a wildcard.
    pub fn is_wild(&self) -> (wild: bool)
        ensures
            wild == !literal(self@),
    {
        let chars: Vec<char> = chars_of(self.text.as_str());
        let mut i: usize = 0;
        while i < chars.len()
            invariant
                chars@ == self@,
                i <= chars@.len(),
                forall|j: int| 0 <= j < i ==> #[trigger] self@[j] != '*',
            decreases chars@.len() - i,
        {
            if chars[i] == '*' {
                assert(self@[i as int] == '*');
                return true;
            }
            i += 1;
        }
        false
    }
}

impl Clone for KeyExpr {
    fn clone(&self) -> (copy: KeyExpr)
        ensures
            copy@ == self@,
    {
        proof {
            use_type_invariant(self);
        }
        KeyExpr { text: self.text.clone() }
    }
}

proof fn lemma_joinable_from(text: Seq<char>, at: int, inside: bool)
    requires
        valid_key_expr(text),
        0 <= at,
    ensures
        joinable_from(text, at, inside),
    decreases text.len() - at,
{
    if at < text.len() {
        assert(fits(text, at));
        lemma_joinable_from(text, at + 1, text[at] != '/');
    }
}

/// A key expression holds no repeated `$*`.
pub proof fn lemma_joinable(text: Seq<char>)
    requires
        valid_key_expr(text),
    ensures
        joinable(text),
{
    lemma_joinable_from(text, 0, false);
}

fn has_star(chars: &Vec<char>, at: usize) -> (b: bool)
    requires
        at <= chars@.len(),
    ensures
        b == star_at(chars@, at as int),
{
    chars.len() - at >= 2 && chars[at] == '$' && chars[at + 1] == '*'
}

/// Whether `text` can be brought into canonical form behind a key expression and a `/`.
pub fn is_joinable(text: &str) -> (ok: bool)
    ensures
        ok == joinable(text@),
{
    let chars: Vec<char> = chars_of(text);
    let mut at: usize = 0;
    let mut inside: bool = false;
    while at < chars.len()
        invariant
            chars@ == text@,
            at <= chars@.len(),
            joinable(text@) == joinable_from(text@, at as int, inside),
        decreases chars@.len() - at,
    {
        if !has_star(&chars, at) || !has_star(&chars, at + 2) {
            inside = chars[at] != '/';
            at += 1;
        } else if !inside {
            at += 2;
        } else {
            let next: usize = at + 4;
            let left: usize = chars.len() - next;
            if left == 0 || (left == 1 && chars[next] <= '\u{7f}') {
                return false;
            }
            if left >= 2 && has_star(&chars, next + 2) && chars[next] <= '\u{7f}' && chars[next + 1] <= '\u{7f}' {
                at = next + 2;
            } else if has_star(&chars, next + 1) && '\u{80}' <= chars[next] && chars[next] <= '\u{7ff}' {
                at = next + 1;
            } else {
                at = next;
            }
        }
    }
    true
}

} // verus!
