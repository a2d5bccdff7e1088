//! User-facing diagnostics.
//!
//! These are always recovered locally: the handler that detects one
//! appends it to the run's accumulator and analysis continues.  They are
//! disjoint from [`crate::builtin::Fatal`], which signals corrupt builtin
//! data and aborts environment construction.

use crate::Span;
use vstd::prelude::*;

verus! {

/// A recoverable diagnostic attached to a source location.
#[derive(Debug)]
pub enum Error {
    /// A reference expression named a variable that no scope and no
    /// builtin environment binds.
    NoSuchVar { span: Span, name: String },
    /// A named type was requested that the builtin environment lacks.
    NoSuchType { span: Span, name: String },
    /// The source of an assignment is not assignable to the target type.
    NotAssignable { span: Span },
    /// The right-hand side of an iteration statement is not an iterable
    /// of any element type.
    NotIterable { span: Span },
}

/// Mathematical mirror of [`Error`].
#[verifier::ext_equal]
pub enum ErrorV {
    NoSuchVar { span: Span, name: Seq<char> },
    NoSuchType { span: Span, name: Seq<char> },
    NotAssignable { span: Span },
    NotIterable { span: Span },
}

impl View for Error {
    type V = ErrorV;

    open spec fn view(&self) -> ErrorV {
        match *self {
            Error::NoSuchVar { span, name } => ErrorV::NoSuchVar { span, name: name@ },
            Error::NoSuchType { span, name } => ErrorV::NoSuchType { span, name: name@ },
            Error::NotAssignable { span } => ErrorV::NotAssignable { span },
            Error::NotIterable { span } => ErrorV::NotIterable { span },
        }
    }
}

/// Element-wise view of an accumulated diagnostic list.
pub open spec fn errors_view(es: Vec<Error>) -> Seq<ErrorV> {
    Seq::new(es@.len(), |i: int| es@[i]@)
}

} // verus!
