//! Regular expressions over topics.
use vstd::prelude::*;

use crate::text::optional_text;

verus! {

/// Why `pattern` is no regular expression, if it is none.
pub uninterp spec fn regex_error(pattern: Seq<char>) -> Option<Seq<char>>;

/// Whether the regular expression `pattern` matches somewhere in `text`.
pub uninterp spec fn regex_matches(pattern: Seq<char>, text: Seq<char>) -> bool;

/// Calls `regex::Regex::new`, and gives the message of its error where it fails.
#[verifier::external_body]
fn error_of(pattern: &str) -> (error: Option<String>)
    ensures
        optional_text(error) == regex_error(pattern@),
{
    regex::Regex::new(pattern).err().map(|e| e.to_string())
}

/// Calls `regex::Regex::is_match` on the regular expression that `regex::Regex::new` makes of `pattern`.
#[verifier::external_body]
fn is_match_of(pattern: &str, text: &str) -> (b: bool)
    requires
        regex_error(pattern@) is None,
    ensures
        b == regex_matches(pattern@, text@),
{
    regex::Regex::new(pattern).unwrap().is_match(text)
}

/// A regular expression.
pub struct TopicPattern {
    source: String,
}

impl View for TopicPattern {
    type V = Seq<char>;

    closed spec fn view(&self) -> Seq<char> {
        self.source@
    }
}

/// The text of an optional regular expression.
pub open spec fn optional_pattern(pattern: Option<TopicPattern>) -> Option<Seq<char>> {
    match pattern {
        Some(p) => Some(p@),
        None => None,
    }
}

impl TopicPattern {
    #[verifier::type_invariant]
    spec fn compiles(self) -> bool {
        regex_error(self.source@) is None
    }

    /// The regular expression that `source` is, or why it is none.
    pub fn new(source: &str) -> (pattern: Result<TopicPattern, String>)
        ensures
            match pattern {
                Ok(p) => regex_error(source@) is None && p@ == source@,
                Err(message) => regex_error(source@) == Some(message@),
            },
    {
        match error_of(source) {
            None => Ok(TopicPattern { source: String::from_str(source) }),
            Some(message) => Err(message),
        }
    }

    /// Whether it matches somewhere in `text`.
    pub fn is_match(&self, text: &str) -> (b: bool)
        ensures
            b == regex_matches(self@, text@),
    {
        proof {
            use_type_invariant(self);
        }
        is_match_of(self.source.as_str(), text)
    }

    /// Its text.
    pub fn as_str(&self) -> (source: &str)
        ensures
            source@ == self@,
    {
        self.source.as_str()
    }
}

} // verus!
