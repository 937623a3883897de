//! The ways in which a query or a polling cycle fails.

use vstd::prelude::*;
use vstd::string::*;

verus! {

/// What is wrong with stored data that a query refuses to answer from.
#[derive(Clone, Copy, Debug, PartialEq, Eq, Structural)]
pub enum IntegrityFault {
    /// A row carries no class tag, or one that is none of the three known.
    UnknownClass,
    /// A stored reward is no plain decimal, or does not fit in 64 bits once
    /// its fraction is cut off.
    RewardOutOfRange,
    /// More than one row answers a query that must have exactly one answer.
    AmbiguousMatch,
}

#[derive(Clone, Debug, PartialEq, Eq)]
pub enum QueryError {
    /// The store could not be reached; the text is the store's own.
    Storage(String),
    /// The stored data breaks a rule that the query relies on.
    DataIntegrity(IntegrityFault),
    /// A query that must have exactly one answer has none.
    NotFound,
    /// The remote query service could not be reached; the text is the transport's own.
    Network(String),
}

pub enum QueryErrorView {
    Storage(Seq<char>),
    DataIntegrity(IntegrityFault),
    NotFound,
    Network(Seq<char>),
}

impl View for QueryError {
    type V = QueryErrorView;

    open spec fn view(&self) -> QueryErrorView {
        match self {
            QueryError::Storage(m) => QueryErrorView::Storage(m@),
            QueryError::DataIntegrity(f) => QueryErrorView::DataIntegrity(*f),
            QueryError::NotFound => QueryErrorView::NotFound,
            QueryError::Network(m) => QueryErrorView::Network(m@),
        }
    }
}

impl IntegrityFault {
    pub open spec fn message_text(self) -> Seq<char> {
        match self {
            IntegrityFault::UnknownClass => "Unknown class type or class not provided"@,
            IntegrityFault::RewardOutOfRange => "Total rewards do not fit in 64 bits"@,
            IntegrityFault::AmbiguousMatch => "More than one row matches"@,
        }
    }

    /// The fault in words.
    pub fn message(&self) -> (m: String)
        ensures
            m@ == self.message_text(),
    {
        match self {
            IntegrityFault::UnknownClass => String::from_str(
                "Unknown class type or class not provided",
            ),
            IntegrityFault::RewardOutOfRange => String::from_str(
                "Total rewards do not fit in 64 bits",
            ),
            IntegrityFault::AmbiguousMatch => String::from_str("More than one row matches"),
        }
    }
}

impl QueryErrorView {
    pub open spec fn message_text(self) -> Seq<char> {
        match self {
            QueryErrorView::Storage(m) => m,
            QueryErrorView::DataIntegrity(f) => f.message_text(),
            QueryErrorView::NotFound => "No row matches"@,
            QueryErrorView::Network(m) => m,
        }
    }
}

impl QueryError {
    /// The free text that an error envelope carries for this error.
    pub fn message(&self) -> (m: String)
        ensures
            m@ == self@.message_text(),
    {
        match self {
            QueryError::Storage(m) => m.clone(),
            QueryError::DataIntegrity(f) => f.message(),
            QueryError::NotFound => String::from_str("No row matches"),
            QueryError::Network(m) => m.clone(),
        }
    }
}

} // verus!
