//! An embeddable, in-process graph (quad) store.
//!
//! A store holds named *collections*, each a set of *statements*
//! (subject, predicate, object, optional context).  Read transactions see a
//! point-in-time snapshot of the store; write transactions stage mutations on
//! a private working copy and publish it atomically on commit, failing if a
//! conflicting commit happened first.

pub mod collection;
pub mod error;
pub mod filters;
pub mod laws;
pub mod matching;
pub mod order;
pub mod state;
pub mod store;
pub mod types;

pub use store::ligature_in_memory;
