//! The wire shape of a change notification.

use crate::term::{parse_terms, parse_triple, MalformedTerm, Triple, TripleView};
use vstd::prelude::*;

verus! {

/// The row of a notification as a mathematical value.
pub struct EmbeddedTripleView {
    pub source: Seq<char>,
    pub s: Seq<char>,
    pub p: Seq<char>,
    pub o: Seq<char>,
}

/// The changed row that a notification carries: the source it belongs to
/// and the three terms in their textual encoding.
#[derive(Debug, PartialEq, Eq)]
pub struct EmbeddedTriple {
    pub source: String,
    pub s: String,
    pub p: String,
    pub o: String,
}

impl View for EmbeddedTriple {
    type V = EmbeddedTripleView;

    open spec fn view(&self) -> EmbeddedTripleView {
        EmbeddedTripleView { source: self.source@, s: self.s@, p: self.p@, o: self.o@ }
    }
}

/// A notification as a mathematical value.
pub struct TripleEventView {
    pub table: Seq<char>,
    pub action: Seq<char>,
    pub data: EmbeddedTripleView,
}

/// One change notification: the table and the action that caused it, and
/// the row.
#[derive(Debug, PartialEq, Eq)]
pub struct TripleEvent {
    pub table: String,
    pub action: String,
    pub data: EmbeddedTriple,
}

impl View for TripleEvent {
    type V = TripleEventView;

    open spec fn view(&self) -> TripleEventView {
        TripleEventView { table: self.table@, action: self.action@, data: self.data@ }
    }
}

/// The triple that the row of `event` encodes.
pub open spec fn event_triple(event: TripleEventView) -> Result<TripleView, MalformedTerm> {
    parse_terms(event.data.s, event.data.p, event.data.o)
}

impl TripleEvent {
    /// Decodes the three terms of the row.
    pub fn triple(&self) -> (parsed: Result<Triple, MalformedTerm>)
        ensures
            match parsed {
                Ok(triple) => event_triple(self@) == Ok::<TripleView, MalformedTerm>(triple@),
                Err(reason) => event_triple(self@) == Err::<TripleView, MalformedTerm>(reason),
            },
    {
        parse_triple(self.data.s.as_str(), self.data.p.as_str(), self.data.o.as_str())
    }
}

} // verus!
