//! A scoped static semantic analyzer for a typed superset of JavaScript.
//!
//! The crate consumes an already-parsed syntax tree and produces a
//! structural [`ty::Type`] for every declaration and expression it
//! understands, collecting diagnostics instead of failing outright.  Its
//! three coupled pieces are the builtin library merger ([`builtin`]), the
//! scoped analyzer with per-node-kind dispatch ([`analyzer`]), and the
//! structural assignability engine ([`assign`]).

pub mod analyzer;
pub mod assign;
pub mod ast;
pub mod builtin;
pub mod diag;
pub mod laws;
pub mod parser;
pub mod ty;

use vstd::prelude::*;

verus! {

/// A source location attached to nodes and diagnostics.
#[derive(Clone, Copy, PartialEq, Eq, Structural, Debug)]
pub struct Span {
    pub lo: u32,
    pub hi: u32,
}

} // verus!
