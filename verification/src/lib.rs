//! Transition tables for explicit state machines.
//!
//! A state enumeration is declared with a `linear(Target)` and `arbitrary(A, B, ..)`
//! annotation on each of its variants. This crate reads such a declaration, checks it,
//! folds it into a transition table, and answers the transition queries that the
//! derived interface of the enumeration offers.

pub mod declaration;
pub mod laws;
pub mod reader;
pub mod search;
pub mod syntax;
pub mod table;
pub mod text;
