//! The syntax-tree surface this analyzer consumes.
//!
//! The tree producer (lexer and parser) is an external collaborator; the
//! analyzer only requires nodes that carry enough structure to dispatch on
//! and a source location to attach to diagnostics.

use crate::ty::Kw;
use crate::Span;
use vstd::prelude::*;

verus! {

/// A standard-library variant whose declaration file can be requested
/// from the builtin environment.
#[derive(Clone, Copy, PartialEq, Eq, Structural, Debug, Hash)]
pub enum Lib {
    Es5,
    Es2015,
    Es2016,
    Es2017,
    Es2018,
    Es2019,
    Es2020,
}

/// A type annotation as written in source.
pub enum TypeAnn {
    /// A primitive keyword annotation.
    Keyword(Kw),
    /// A reference to a named type.
    Named(String),
    /// An array annotation, element type first.
    Array(Box<TypeAnn>),
}

/// A named, optionally annotated member of a class, interface body or
/// parameter list.
pub struct MemberDecl {
    pub name: String,
    pub ann: Option<TypeAnn>,
}

/// One declarator of a `var`/`let`/`const` declaration.
pub struct VarDeclarator {
    pub span: Span,
    pub name: String,
    pub ann: Option<TypeAnn>,
}

/// A variable declaration, possibly with several declarators.
pub struct VarDecl {
    pub span: Span,
    pub decls: Vec<VarDeclarator>,
}

/// An expression.  The analyzer's worked example only requires reference
/// expressions; further kinds plug into the same dispatch.
pub enum Expr {
    Ident { span: Span, name: String },
}

/// A binding pattern: either a fresh identifier or an existing reference
/// expression used as an assignable location.
pub enum Pat {
    Ident { span: Span, name: String },
    Expr(Box<Expr>),
}

/// The left-hand target of an iteration statement.
pub enum ForHead {
    Var(VarDecl),
    Pat(Pat),
}

/// A declaration that may appear inside a namespace body and becomes one
/// of the namespace's exports.
pub enum ExportDecl {
    Var { span: Span, name: String, ann: TypeAnn },
    Fn { span: Span, name: String, params: Vec<MemberDecl>, ret: Option<TypeAnn> },
    TypeAlias { span: Span, name: String, ann: TypeAnn },
    Interface { span: Span, name: String, members: Vec<MemberDecl> },
}

/// A top-level declaration of a builtin library file.
pub enum Decl {
    Var(VarDecl),
    Fn { span: Span, name: String, params: Vec<MemberDecl>, ret: Option<TypeAnn> },
    Class {
        span: Span,
        name: String,
        is_abstract: bool,
        members: Vec<MemberDecl>,
        super_class: Option<String>,
        implements: Vec<String>,
        type_params: Option<Vec<String>>,
    },
    Interface { span: Span, name: String, members: Vec<MemberDecl> },
    TypeAlias { span: Span, name: String, ann: TypeAnn },
    Namespace { span: Span, name: String, body: Vec<ExportDecl> },
}

/// A statement.
pub enum Stmt {
    Decl(Decl),
    ForIn { span: Span, left: ForHead, right: Expr },
    ForOf { span: Span, left: ForHead, right: Expr },
    Empty(Span),
}

/// The loaded syntax tree of one builtin library file.
pub struct LibFile {
    pub lib: Lib,
    pub body: Vec<Stmt>,
}

} // verus!
