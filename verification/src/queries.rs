//! How zenoh is asked, and whose publications and queries are taken.
use vstd::prelude::*;

verus! {

/// Whose publications a subscriber takes, or whose queries a cache answers.
#[derive(Clone, Copy, Debug, PartialEq, Eq, Structural)]
pub enum Locality {
    /// Those of the same session.
    SessionLocal,
    /// Those of other sessions.
    Remote,
    /// All.
    Any,
}

/// Who is to answer a query.
#[derive(Clone, Copy, Debug, PartialEq, Eq, Structural)]
pub enum QueryTarget {
    /// The nearest that can answer.
    BestMatching,
    /// All that match.
    All,
    /// All that match and have everything.
    AllComplete,
}

/// Which answers to a query are left out.
#[derive(Clone, Copy, Debug, PartialEq, Eq, Structural)]
pub enum ConsolidationMode {
    /// As zenoh decides.
    Auto,
    /// None is left out.
    Unconsolidated,
    /// Those that are older than one that came before.
    Monotonic,
    /// All but the latest of each key.
    Latest,
}

/// Under which keys answers to a query are taken.
#[derive(Clone, Copy, Debug, PartialEq, Eq, Structural)]
pub enum ReplyKeyExpr {
    /// Under any key.
    Any,
    /// Under those that the query matches.
    MatchingQuery,
}

/// How a query is made.
#[derive(Clone, Copy, Debug, PartialEq, Eq, Structural)]
pub struct QuerySettings {
    pub target: QueryTarget,
    pub consolidation: ConsolidationMode,
    pub accept_replies: ReplyKeyExpr,
    /// How long the query may take, in nanoseconds.
    pub timeout: u64,
}

/// A query to all that match, whose answers are all taken.
pub open spec fn query_all(accept_replies: ReplyKeyExpr, timeout: u64) -> QuerySettings {
    QuerySettings {
        target: QueryTarget::All,
        consolidation: ConsolidationMode::Unconsolidated,
        accept_replies,
        timeout,
    }
}

impl QuerySettings {
    /// A query to all that match, whose answers are all taken.
    pub fn all(accept_replies: ReplyKeyExpr, timeout: u64) -> (settings: QuerySettings)
        ensures
            settings == query_all(accept_replies, timeout),
    {
        QuerySettings {
            target: QueryTarget::All,
            consolidation: ConsolidationMode::Unconsolidated,
            accept_replies,
            timeout,
        }
    }
}

} // verus!
