//! Keeps a queryable graph in step with a relational table of
//! (subject, predicate, object, source) triples: the codec for textual
//! terms, the bookkeeping of pending change notifications, and the request
//! rules of the query gateway.

pub mod batch;
pub mod bootstrap;
pub mod config;
pub mod event;
pub mod gateway;
pub mod term;
pub mod trusted;
