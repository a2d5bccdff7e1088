//! The parsing-context surface of the syntax-tree producer.
//!
//! The token machinery itself is an external collaborator; what matters
//! to callers is the context discipline: a parse step may run under a
//! temporarily changed [`Context`], and the original context is restored
//! afterwards through the [`WithCtx`] guard.

use crate::diag::Error;
use crate::Span;
use vstd::prelude::*;

verus! {

/// Flags that change how the next tokens are parsed.
#[derive(Clone, Copy, PartialEq, Eq, Structural, Debug)]
pub struct Context {
    /// Whether an `in` token may start a binary expression here, rather
    /// than belonging to an enclosing `for` head.
    pub include_in_expr: bool,
    /// Whether the parser is inside an iteration statement.
    pub in_iteration: bool,
}

/// The parser's context-carrying state.
pub struct Parser {
    pub ctx: Context,
}

/// A guard remembering the context that was active before a temporary
/// change; handing it back to [`WithCtx::restore`] reinstates it.
pub struct WithCtx {
    pub orig_ctx: Context,
}

impl WithCtx {
    /// Restores the remembered original context.
    pub fn restore(self, p: &mut Parser)
        ensures
            final(p).ctx == self.orig_ctx,
    {
        p.ctx = self.orig_ctx;
    }
}

impl Parser {
    /// Replaces the active context; the returned guard restores the
    /// original one.
    pub fn with_ctx(&mut self, ctx: Context) -> (g: WithCtx)
        ensures
            final(self).ctx == ctx,
            g.orig_ctx == old(self).ctx,
    {
        let orig_ctx = self.ctx;
        self.ctx = ctx;
        WithCtx { orig_ctx }
    }

    /// Changes only whether `in` may start an expression; the returned
    /// guard restores the original context.
    pub fn include_in_expr(&mut self, include_in_expr: bool) -> (g: WithCtx)
        ensures
            final(self).ctx == (Context { include_in_expr, ..old(self).ctx }),
            g.orig_ctx == old(self).ctx,
    {
        let ctx = Context { include_in_expr, ..self.ctx };
        self.with_ctx(ctx)
    }

    /// Runs one parse step, handing it the active context.
    pub fn parse_with<F, Ret>(&mut self, f: F) -> (r: Ret) where F: FnOnce(Context) -> Ret
        requires
            f.requires((old(self).ctx,)),
        ensures
            *final(self) == *old(self),
            f.ensures((old(self).ctx,), r),
    {
        let ctx = self.ctx;
        f(ctx)
    }
}

/// How an object-like node is put together from its parsed properties.
/// The syntax-tree producer implements this once per object-like node
/// kind it builds.
pub trait ParseObject {
    /// One parsed property of the object.
    type Prop;

    /// Assembles the node from its span and properties.
    fn make_object(span: Span, props: Vec<Self::Prop>) -> Self where Self: core::marker::Sized;

    /// Parses one property, reporting a diagnostic on malformed input.
    fn parse_object_prop(&mut self) -> Result<Self::Prop, Error>;
}

} // verus!
