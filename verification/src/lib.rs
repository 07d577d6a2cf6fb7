//! Recognition of binary operator tokens for an expression-language front end.
//!
//! The library receives a cursor into source text (a [`span::Span`]) and tries
//! to match one whitespace-padded binary operator spelling from one of five
//! precedence tiers.  On a match it returns the operator tag and the advanced
//! cursor; otherwise it returns a position-tagged, labelled error and leaves
//! the caller's cursor untouched.  An enclosing expression parser composes the
//! tier recognizers, from the loosest-binding tier to the tightest, into a
//! full expression grammar.

pub mod bin_op;
pub mod error;
pub mod laws;
pub mod observer;
pub mod op;
pub mod span;
