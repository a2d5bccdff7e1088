//! The scoped analyzer: a tree of lexical environments, per-node-kind
//! dispatch, and an append-only diagnostic accumulator.
//!
//! Handlers follow a uniform recovery policy: a user-facing defect is
//! appended to the accumulator and analysis continues with a best-effort
//! placeholder, so one error never suppresses diagnostics in the rest of
//! the program.  The current scope is restored on every exit path of a
//! construct that pushed one.

use crate::assign::{assignable, is_assignable, unwrap_static};
use crate::ast::{Decl, Expr, ForHead, Lib, Pat, Stmt, VarDeclarator};
use crate::builtin::{
    ann_ty, ann_ty_opt, assoc_find, assoc_set, assoc_upsert, bindings_view, find_binding,
    lemma_assoc_find_none, unique_names, validate_ann, validate_ann_opt, Binding, BuiltinEnv,
    MergedV,
};
use crate::diag::{errors_view, Error, ErrorV};
use crate::ty::{dup, rc_dup, Kw, MemberV, Type, TypeV};
use crate::Span;
use std::rc::Rc;
use vstd::prelude::*;

verus! {

broadcast use vstd::std_specs::vec::axiom_vec_index_decreases;

/// What kind of construct introduced a scope.
#[derive(Clone, Copy, PartialEq, Eq, Structural, Debug)]
pub enum ScopeKind {
    /// The root of a file.
    Module,
    /// An ordinary block.
    Block,
    /// A construct with control-flow-local bindings, such as a loop.
    Flow,
}

/// How an expression is being used, which decides what counts as valid.
#[derive(Clone, Copy, PartialEq, Eq, Structural, Debug)]
pub enum TypeOfMode {
    RValue,
    LValue,
}

/// One lexical environment: bindings with unique names.  Bindings change
/// only while this scope is the current one.
pub struct Scope {
    pub kind: ScopeKind,
    pub bindings: Vec<Binding>,
}

/// Mathematical mirror of [`Scope`].
#[verifier::ext_equal]
pub struct ScopeV {
    pub kind: ScopeKind,
    pub bindings: Seq<MemberV>,
}

impl View for Scope {
    type V = ScopeV;

    open spec fn view(&self) -> ScopeV {
        ScopeV { kind: self.kind, bindings: bindings_view(self.bindings) }
    }
}

/// Element-wise view of the scope chain, root first, current scope last.
pub open spec fn scopes_view(ss: Vec<Scope>) -> Seq<ScopeV> {
    Seq::new(ss@.len(), |i: int| ss@[i]@)
}

/// Walk the chain from the current scope towards the root; the first
/// binding found wins.
pub open spec fn lookup_scopes(ss: Seq<ScopeV>, name: Seq<char>) -> Option<TypeV>
    decreases ss.len(),
{
    if ss.len() == 0 {
        None
    } else {
        match assoc_find(ss.last().bindings, name) {
            Some(t) => Some(t),
            None => lookup_scopes(ss.drop_last(), name),
        }
    }
}

/// Scope-chain lookup with fall-through to the builtin variables; a
/// builtin hit is a shared handle into the cached environment.
pub open spec fn resolve_spec(ss: Seq<ScopeV>, env: MergedV, name: Seq<char>) -> Option<TypeV> {
    match lookup_scopes(ss, name) {
        Some(t) => Some(t),
        None => match assoc_find(env.vars, name) {
            Some(t) => Some(TypeV::Static(Box::new(t))),
            None => None,
        },
    }
}

/// A lookup that fails in every scope above `k` is decided by the chain
/// up to `k`.
pub proof fn lemma_lookup_scopes_take(ss: Seq<ScopeV>, name: Seq<char>, k: int)
    requires
        0 <= k <= ss.len(),
        forall|j: int| k <= j < ss.len() ==> assoc_find(#[trigger] ss[j].bindings, name) is None,
    ensures
        lookup_scopes(ss, name) == lookup_scopes(ss.take(k), name),
    decreases ss.len() - k,
{
    if k == ss.len() {
        assert(ss.take(k) =~= ss);
    } else {
        assert(ss.drop_last() =~= ss.take(ss.len() - 1));
        lemma_lookup_scopes_take(ss.take(ss.len() - 1), name, k);
        assert(ss.take(ss.len() - 1).take(k) =~= ss.take(k));
    }
}

/// The analyzer state: the scope chain it owns, the diagnostics gathered
/// so far, the shared builtin environment seeding the root scope, and the
/// library set the run was bound to.
pub struct Analyzer {
    pub scopes: Vec<Scope>,
    pub errors: Vec<Error>,
    pub env: Rc<BuiltinEnv>,
    pub libs: Vec<Lib>,
}

/// The analyzer's structural invariant: there is always a root scope and
/// every scope's bindings have unique names.
pub open spec fn analyzer_wf(a: Analyzer) -> bool {
    &&& a.scopes@.len() >= 1
    &&& forall|k: int|
        0 <= k < a.scopes@.len() ==> unique_names(#[trigger] scopes_view(a.scopes)[k].bindings)
}

impl Analyzer {
    /// A fresh analyzer bound to a builtin environment and the library
    /// set it was computed from, with one empty root scope.
    pub fn new(env: Rc<BuiltinEnv>, libs: Vec<Lib>) -> (a: Analyzer)
        ensures
            analyzer_wf(a),
            scopes_view(a.scopes) =~= seq![
                ScopeV { kind: ScopeKind::Module, bindings: Seq::empty() },
            ],
            errors_view(a.errors) =~= Seq::<ErrorV>::empty(),
            a.env == env,
            a.libs == libs,
    {
        let mut scopes: Vec<Scope> = Vec::new();
        scopes.push(Scope { kind: ScopeKind::Module, bindings: Vec::new() });
        let a = Analyzer { scopes, errors: Vec::new(), env, libs };
        proof {
            assert(bindings_view(a.scopes@[0].bindings) =~= Seq::<MemberV>::empty());
        }
        a
    }

    /// A throwaway analyzer seeded with nothing, used to validate the
    /// self-contained builtin declarations themselves.
    pub fn for_builtin() -> (a: Analyzer)
        ensures
            analyzer_wf(a),
            a.env@.vars =~= Seq::<MemberV>::empty(),
            a.env@.types =~= Seq::<MemberV>::empty(),
            errors_view(a.errors) =~= Seq::<ErrorV>::empty(),
    {
        let env = Rc::new(BuiltinEnv { vars: Vec::new(), types: Vec::new() });
        proof {
            assert(bindings_view(env.vars) =~= Seq::<MemberV>::empty());
            assert(bindings_view(env.types) =~= Seq::<MemberV>::empty());
        }
        Analyzer::new(env, Vec::new())
    }

    /// Pushes a fresh scope of the given kind; it becomes current.
    pub fn push_child_scope(&mut self, kind: ScopeKind)
        requires
            analyzer_wf(*old(self)),
            old(self).scopes@.len() < usize::MAX,
        ensures
            analyzer_wf(*final(self)),
            scopes_view(final(self).scopes) == scopes_view(old(self).scopes).push(
                ScopeV { kind, bindings: Seq::empty() },
            ),
            final(self).errors == old(self).errors,
            final(self).env == old(self).env,
            final(self).libs == old(self).libs,
    {
        let ghost before = self.scopes;
        self.scopes.push(Scope { kind, bindings: Vec::new() });
        proof {
            assert(bindings_view(self.scopes@.last().bindings) =~= Seq::<MemberV>::empty());
            assert(scopes_view(self.scopes) =~= scopes_view(before).push(
                ScopeV { kind, bindings: Seq::empty() },
            ));
        }
    }

    /// Pops the current scope and makes its parent current again.  The
    /// popped scope's bindings are dropped with it.
    pub fn pop_scope(&mut self)
        requires
            analyzer_wf(*old(self)),
            old(self).scopes@.len() > 1,
        ensures
            analyzer_wf(*final(self)),
            scopes_view(final(self).scopes) == scopes_view(old(self).scopes).drop_last(),
            final(self).errors == old(self).errors,
            final(self).env == old(self).env,
            final(self).libs == old(self).libs,
    {
        let ghost before = self.scopes;
        let _ = self.scopes.pop();
        proof {
            assert(scopes_view(self.scopes) =~= scopes_view(before).drop_last());
        }
    }

    /// Binds `name` in the current scope, replacing a same-scope binding
    /// of the same name.
    pub fn bind(&mut self, name: &String, ty: Rc<Type>)
        requires
            analyzer_wf(*old(self)),
        ensures
            analyzer_wf(*final(self)),
            scopes_view(final(self).scopes) == scopes_view(old(self).scopes).update(
                old(self).scopes@.len() - 1,
                ScopeV {
                    kind: old(self).scopes@.last().kind,
                    bindings: assoc_upsert(
                        scopes_view(old(self).scopes).last().bindings,
                        MemberV { name: name@, ty: ty@ },
                    ),
                },
            ),
            final(self).errors == old(self).errors,
            final(self).env == old(self).env,
            final(self).libs == old(self).libs,
    {
        let ghost before = self.scopes;
        let k = self.scopes.len() - 1;
        let ghost old_bindings = self.scopes@[k as int].bindings;
        let ghost old_kind = self.scopes@[k as int].kind;
        let sc = &mut self.scopes[k];
        let nm = Binding { name: name.clone(), ty };
        let ghost nmv = MemberV { name: nm.name@, ty: nm.ty@ };
        proof {
            assert(scopes_view(before)[k as int].bindings == bindings_view(old_bindings));
            assert(unique_names(bindings_view(old_bindings)));
        }
        match find_binding(&sc.bindings, name) {
            Some(i) => {
                sc.bindings[i] = nm;
                proof {
                    let mv = bindings_view(old_bindings);
                    assert(mv[i as int].name == nmv.name);
                    assert forall|j: int| 0 <= j < mv.len() && j != i implies mv[j].name
                        != nmv.name by {
                        if j < i {
                            assert(mv[j].name != mv[i as int].name);
                        } else {
                            assert(mv[i as int].name != mv[j].name);
                        }
                    }
                    assert(bindings_view(sc.bindings) =~= assoc_set(mv, nmv.name, nmv.ty));
                    assert forall|p: int, q: int|
                        0 <= p < q < bindings_view(sc.bindings).len() implies bindings_view(
                        sc.bindings,
                    )[p].name != bindings_view(sc.bindings)[q].name by {
                        assert(mv[p].name != mv[q].name);
                    }
                }
            },
            None => {
                proof {
                    lemma_assoc_find_none(bindings_view(old_bindings), nmv.name);
                }
                sc.bindings.push(nm);
                proof {
                    let mv = bindings_view(old_bindings);
                    assert(bindings_view(sc.bindings) =~= mv.push(nmv));
                    assert forall|p: int, q: int|
                        0 <= p < q < bindings_view(sc.bindings).len() implies bindings_view(
                        sc.bindings,
                    )[p].name != bindings_view(sc.bindings)[q].name by {
                        if q < mv.len() {
                            assert(mv[p].name != mv[q].name);
                        } else {
                            assert(mv[p].name != nmv.name);
                        }
                    }
                }
            },
        }
        proof {
            assert(scopes_view(self.scopes) =~= scopes_view(before).update(
                before@.len() - 1,
                ScopeV {
                    kind: old_kind,
                    bindings: assoc_upsert(bindings_view(old_bindings), nmv),
                },
            ));
        }
    }

    /// Resolves a name from the current scope to the root, then falls
    /// through to the builtin variables.
    pub fn resolve_var(&self, name: &String) -> (r: Option<Rc<Type>>)
        ensures
            match r {
                Some(t) => resolve_spec(scopes_view(self.scopes), self.env@, name@) == Some(t@),
                None => resolve_spec(scopes_view(self.scopes), self.env@, name@) is None,
            },
    {
        let ghost sv = scopes_view(self.scopes);
        let n = self.scopes.len();
        let mut k: usize = n;
        while k > 0
            invariant
                n == self.scopes@.len(),
                0 <= k <= n,
                sv == scopes_view(self.scopes),
                forall|j: int|
                    k <= j < n ==> assoc_find(#[trigger] sv[j].bindings, name@) is None,
            decreases k,
        {
            let sc = &self.scopes[k - 1];
            match find_binding(&sc.bindings, name) {
                Some(i) => {
                    proof {
                        lemma_lookup_scopes_take(sv, name@, k as int);
                        assert(sv.take(k as int).last() == sv[k - 1]);
                        assert(sv.take(k as int).drop_last() =~= sv.take(k as int - 1));
                    }
                    return Some(rc_dup(&sc.bindings[i].ty));
                },
                None => {
                    k -= 1;
                },
            }
        }
        proof {
            lemma_lookup_scopes_take(sv, name@, 0);
            assert(sv.take(0) =~= Seq::<ScopeV>::empty());
        }
        match find_binding(&self.env.vars, name) {
            Some(i) => Some(Rc::new(Type::Static(rc_dup(&self.env.vars[i].ty)))),
            None => None,
        }
    }

    /// Validates an expression as a type, in the given use mode.  A miss
    /// is reported to the caller, which decides whether to record it.
    pub fn validate_expr(&mut self, e: &Expr, mode: TypeOfMode) -> (r: Result<Rc<Type>, Error>)
        ensures
            *final(self) == *old(self),
            match r {
                Ok(t) => expr_type_spec(
                    scopes_view(old(self).scopes),
                    old(self).env@,
                    *e,
                ) == Ok::<TypeV, ErrorV>(t@),
                Err(er) => expr_type_spec(
                    scopes_view(old(self).scopes),
                    old(self).env@,
                    *e,
                ) == Err::<TypeV, ErrorV>(er@),
            },
    {
        match e {
            Expr::Ident { span, name } => match self.resolve_var(name) {
                Some(t) => Ok(t),
                None => Err(Error::NoSuchVar { span: *span, name: name.clone() }),
            },
        }
    }
}

/// The type an expression has under a scope chain and environment, or
/// the diagnostic its validation produces.
pub open spec fn expr_type_spec(ss: Seq<ScopeV>, env: MergedV, e: Expr) -> Result<TypeV, ErrorV> {
    match e {
        Expr::Ident { span, name } => match resolve_spec(ss, env, name@) {
            Some(t) => Ok(t),
            None => Err(ErrorV::NoSuchVar { span, name: name@ }),
        },
    }
}


/// The element type a value can be iterated at: one `Static` level is
/// unwrapped, then an array yields its element.
pub open spec fn elem_of(t: TypeV) -> Option<TypeV> {
    match unwrap_static(t) {
        TypeV::Array(e) => Some(*e),
        _ => None,
    }
}

/// Source location and referenced name of a pattern used as an
/// assignable location.
pub open spec fn pat_span_name(p: Pat) -> (Span, Seq<char>) {
    match p {
        Pat::Ident { span, name } => (span, name@),
        Pat::Expr(e) => match *e {
            Expr::Ident { span, name } => (span, name@),
        },
    }
}

/// Bindings a loop head's first `n` declarators introduce before the
/// right-hand side is looked at: only annotated declarators bind here.
pub open spec fn lhs_binds_to(decls: Seq<VarDeclarator>, n: int) -> Seq<MemberV>
    decreases n,
{
    if n <= 0 {
        Seq::empty()
    } else {
        let rest = lhs_binds_to(decls, n - 1);
        match decls[n - 1].ann {
            Some(a) => assoc_upsert(rest, MemberV { name: decls[n - 1].name@, ty: ann_ty(a) }),
            None => rest,
        }
    }
}

/// Bindings a variable declaration statement introduces into the current
/// scope: every declarator binds, an unannotated one at `any`.
pub open spec fn var_binds_to(base: Seq<MemberV>, decls: Seq<VarDeclarator>, n: int) -> Seq<
    MemberV,
>
    decreases n,
{
    if n <= 0 {
        base
    } else {
        assoc_upsert(
            var_binds_to(base, decls, n - 1),
            MemberV { name: decls[n - 1].name@, ty: ann_ty_opt(decls[n - 1].ann) },
        )
    }
}

/// Diagnostics of the compatibility phase for the first `n` declarators
/// of a loop head, given the iterable's type: an annotated declarator
/// must accept the synthesized array, an unannotated one needs an element
/// type to bind.
pub open spec fn decl_compat_to(decls: Seq<VarDeclarator>, rty: TypeV, n: int) -> Seq<ErrorV>
    decreases n,
{
    if n <= 0 {
        Seq::empty()
    } else {
        let rest = decl_compat_to(decls, rty, n - 1);
        let d = decls[n - 1];
        let here = match d.ann {
            Some(a) => if assignable(TypeV::Array(Box::new(ann_ty(a))), rty) {
                Seq::<ErrorV>::empty()
            } else {
                seq![ErrorV::NotAssignable { span: d.span }]
            },
            None => if elem_of(rty) is Some {
                Seq::<ErrorV>::empty()
            } else {
                seq![ErrorV::NotIterable { span: d.span }]
            },
        };
        rest + here
    }
}

/// Every diagnostic one iteration statement produces, in order: the
/// left-hand target checked first, then the iterable (skipped for a
/// declaration with zero declarators), then compatibility, which only
/// runs when the iterable validated.
pub open spec fn for_errors(
    ss: Seq<ScopeV>,
    env: MergedV,
    left: ForHead,
    right: Expr,
    span: Span,
) -> Seq<ErrorV> {
    match left {
        ForHead::Var(vd) => {
            let child = ScopeV {
                kind: ScopeKind::Flow,
                bindings: lhs_binds_to(vd.decls@, vd.decls@.len() as int),
            };
            let ss2 = ss.push(child);
            let rhs_errs: Seq<ErrorV> = if vd.decls@.len() == 0 {
                Seq::empty()
            } else {
                match expr_type_spec(ss2, env, right) {
                    Ok(t) => Seq::empty(),
                    Err(e) => seq![e],
                }
            };
            let compat_errs: Seq<ErrorV> = match expr_type_spec(ss2, env, right) {
                Err(e) => Seq::empty(),
                Ok(rty) => decl_compat_to(vd.decls@, rty, vd.decls@.len() as int),
            };
            rhs_errs + compat_errs
        },
        ForHead::Pat(p) => {
            let child = ScopeV { kind: ScopeKind::Flow, bindings: Seq::empty() };
            let ss2 = ss.push(child);
            let pn = pat_span_name(p);
            let lhs_errs: Seq<ErrorV> = match resolve_spec(ss2, env, pn.1) {
                Some(t) => Seq::empty(),
                None => seq![ErrorV::NoSuchVar { span: pn.0, name: pn.1 }],
            };
            let rhs_errs: Seq<ErrorV> = match expr_type_spec(ss2, env, right) {
                Ok(t) => Seq::empty(),
                Err(e) => seq![e],
            };
            let compat_errs: Seq<ErrorV> = match expr_type_spec(ss2, env, right) {
                Err(e) => Seq::empty(),
                Ok(rty) => match resolve_spec(ss2, env, pn.1) {
                    None => Seq::empty(),
                    Some(lty) => if assignable(TypeV::Array(Box::new(lty)), rty) {
                        Seq::<ErrorV>::empty()
                    } else {
                        seq![ErrorV::NotAssignable { span: pn.0 }]
                    },
                },
            };
            lhs_errs + rhs_errs + compat_errs
        },
    }
}

/// The element type of an iterable, as an owned value.
fn elem_type(t: &Type) -> (r: Option<Type>)
    ensures
        match r {
            Some(e) => elem_of(t@) == Some(e@),
            None => elem_of(t@) is None,
        },
{
    let tu: &Type = match t {
        Type::Static(inner) => &**inner,
        _ => t,
    };
    proof {
        assert(tu@ == unwrap_static(t@));
    }
    match tu {
        Type::Array(e) => Some(dup(e)),
        _ => None,
    }
}

impl Analyzer {
    /// Checks one iteration statement: validates the left-hand target in
    /// a fresh `Flow` scope (binding fresh declarations there), validates
    /// the iterable unless the declaration has zero declarators, checks
    /// compatibility against a synthesized array of the target's type,
    /// and restores the previous scope on every exit path.
    pub fn check_for_loop(&mut self, span: Span, left: &ForHead, right: &Expr)
        requires
            analyzer_wf(*old(self)),
            old(self).scopes@.len() < usize::MAX - 1,
            old(self).errors@.len() < usize::MAX - 3,
        ensures
            analyzer_wf(*final(self)),
            scopes_view(final(self).scopes) == scopes_view(old(self).scopes),
            final(self).env == old(self).env,
            final(self).libs == old(self).libs,
            errors_view(final(self).errors) == errors_view(old(self).errors) + for_errors(
                scopes_view(old(self).scopes),
                old(self).env@,
                *left,
                *right,
                span,
            ),
    {
        let ghost ss0 = scopes_view(old(self).scopes);
        let ghost errs0 = errors_view(old(self).errors);
        let ghost envv = old(self).env@;
        self.push_child_scope(ScopeKind::Flow);
        match left {
            ForHead::Var(vd) => {
                let nd = vd.decls.len();
                let mut i: usize = 0;
                while i < nd
                    invariant
                        nd == vd.decls@.len(),
                        0 <= i <= nd,
                        analyzer_wf(*self),
                        scopes_view(self.scopes) == ss0.push(
                            ScopeV { kind: ScopeKind::Flow, bindings: lhs_binds_to(vd.decls@, i as int) },
                        ),
                        self.errors == old(self).errors,
                        self.env == old(self).env,
                        self.libs == old(self).libs,
                    decreases nd - i,
                {
                    let d = &vd.decls[i];
                    match &d.ann {
                        Some(a) => {
                            let ty = validate_ann(a);
                            self.bind(&d.name, Rc::new(ty));
                            proof {
                                assert(scopes_view(self.scopes) =~= ss0.push(
                                    ScopeV {
                                        kind: ScopeKind::Flow,
                                        bindings: lhs_binds_to(vd.decls@, i as int + 1),
                                    },
                                ));
                            }
                        },
                        None => {},
                    }
                    i += 1;
                }
                let ghost ss2 = scopes_view(self.scopes);
                // the iterable, skipped entirely for an empty declarator list
                if nd != 0 {
                    match self.validate_expr(right, TypeOfMode::RValue) {
                        Ok(_) => {},
                        Err(e) => {
                            self.errors.push(e);
                        },
                    }
                }
                let ghost errs2 = errors_view(self.errors);
                // compatibility, only when the iterable validated
                match self.validate_expr(right, TypeOfMode::RValue) {
                    Err(_) => {},
                    Ok(rty) => {
                        let mut i: usize = 0;
                        while i < nd
                            invariant
                                nd == vd.decls@.len(),
                                0 <= i <= nd,
                                analyzer_wf(*self),
                                scopes_view(self.scopes).len() == ss0.len() + 1,
                                scopes_view(self.scopes).drop_last() =~= ss0,
                                errors_view(self.errors) == errs2 + decl_compat_to(
                                    vd.decls@,
                                    rty@,
                                    i as int,
                                ),
                                self.errors@.len() <= old(self).errors@.len() + 2 + i,
                                self.env == old(self).env,
                                self.libs == old(self).libs,
                            decreases nd - i,
                        {
                            let d = &vd.decls[i];
                            match &d.ann {
                                Some(a) => {
                                    let lt = validate_ann(a);
                                    proof {
                                        assert(vd.decls@[i as int].ann == Some(*a));
                                    }
                                    if !is_assignable(&Type::Array(Box::new(lt)), &rty) {
                                        let ghost ev0 = errors_view(self.errors);
                                        self.errors.push(Error::NotAssignable { span: d.span });
                                        proof {
                                            assert(errors_view(self.errors) =~= ev0.push(
                                                ErrorV::NotAssignable { span: d.span },
                                            ));
                                            assert(decl_compat_to(vd.decls@, rty@, i as int + 1)
                                                =~= decl_compat_to(vd.decls@, rty@, i as int)
                                                + seq![ErrorV::NotAssignable { span: d.span }]);
                                            assert(errors_view(self.errors) =~= errs2
                                                + decl_compat_to(vd.decls@, rty@, i as int + 1));
                                        }
                                    } else {
                                        proof {
                                            assert(errors_view(self.errors) =~= errs2
                                                + decl_compat_to(vd.decls@, rty@, i as int + 1));
                                        }
                                    }
                                },
                                None => {
                                    proof {
                                        assert(vd.decls@[i as int].ann is None);
                                    }
                                    match elem_type(&rty) {
                                        Some(e) => {
                                            self.bind(&d.name, Rc::new(e));
                                            proof {
                                                assert(scopes_view(self.scopes).drop_last()
                                                    =~= ss0);
                                                assert(decl_compat_to(
                                                    vd.decls@,
                                                    rty@,
                                                    i as int + 1,
                                                ) =~= decl_compat_to(vd.decls@, rty@, i as int));
                                                assert(errors_view(self.errors) == errs2
                                                    + decl_compat_to(vd.decls@, rty@, i as int));
                                                assert(decl_compat_to(vd.decls@, rty@, i as int)
                                                    == decl_compat_to(vd.decls@, rty@, i as int + 1));
                                                assert(errors_view(self.errors) == errs2
                                                    + decl_compat_to(
                                                    vd.decls@,
                                                    rty@,
                                                    i as int + 1,
                                                ));
                                            }
                                        },
                                        None => {
                                            let ghost ev0 = errors_view(self.errors);
                                            self.errors.push(Error::NotIterable { span: d.span });
                                            // recover with the best-effort placeholder
                                            self.bind(&d.name, Rc::new(Type::Keyword(Kw::Unknown)));
                                            proof {
                                                assert(scopes_view(self.scopes).drop_last()
                                                    =~= ss0);
                                                assert(errors_view(self.errors) =~= ev0.push(
                                                    ErrorV::NotIterable { span: d.span },
                                                ));
                                                assert(decl_compat_to(vd.decls@, rty@, i as int + 1)
                                                    =~= decl_compat_to(vd.decls@, rty@, i as int)
                                                    + seq![ErrorV::NotIterable { span: d.span }]);
                                                assert(errors_view(self.errors) =~= errs2
                                                    + decl_compat_to(
                                                    vd.decls@,
                                                    rty@,
                                                    i as int + 1,
                                                ));
                                            }
                                        },
                                    }
                                },
                            }
                            i += 1;
                        }
                    },
                }
                self.pop_scope();
                proof {
                    assert(scopes_view(self.scopes) =~= ss0);
                    assert(errors_view(self.errors) =~= errs0 + for_errors(
                        ss0,
                        envv,
                        *left,
                        *right,
                        span,
                    ));
                }
            },
            ForHead::Pat(p) => {
                let (pspan, pname): (Span, &String) = match p {
                    Pat::Ident { span: s2, name } => (*s2, name),
                    Pat::Expr(e) => match &**e {
                        Expr::Ident { span: s2, name } => (*s2, name),
                    },
                };
                let ghost ss2 = scopes_view(self.scopes);
                match self.resolve_var(pname) {
                    Some(_) => {},
                    None => {
                        self.errors.push(
                            Error::NoSuchVar { span: pspan, name: pname.clone() },
                        );
                    },
                }
                let ghost errs1 = errors_view(self.errors);
                match self.validate_expr(right, TypeOfMode::RValue) {
                    Ok(_) => {},
                    Err(e) => {
                        self.errors.push(e);
                    },
                }
                let ghost errs2 = errors_view(self.errors);
                match self.validate_expr(right, TypeOfMode::RValue) {
                    Err(_) => {},
                    Ok(rty) => {
                        match self.resolve_var(pname) {
                            None => {},
                            Some(lty) => {
                                let lt = dup(&lty);
                                if !is_assignable(&Type::Array(Box::new(lt)), &rty) {
                                    self.errors.push(Error::NotAssignable { span: pspan });
                                }
                            },
                        }
                    },
                }
                self.pop_scope();
                proof {
                    assert(scopes_view(self.scopes) =~= ss0);
                    assert(errors_view(self.errors) =~= errs0 + for_errors(
                        ss0,
                        envv,
                        *left,
                        *right,
                        span,
                    ));
                }
            },
        }
    }
}

impl Analyzer {
    /// The general entry point: dispatches on the node's kind.  Handlers
    /// record user-facing defects in the accumulator and continue with a
    /// placeholder, so statement-level validation always produces a type.
    pub fn validate(&mut self, s: &Stmt) -> (r: Result<Rc<Type>, Error>)
        requires
            analyzer_wf(*old(self)),
            old(self).scopes@.len() < usize::MAX - 1,
            old(self).errors@.len() < usize::MAX - 3,
        ensures
            analyzer_wf(*final(self)),
            final(self).env == old(self).env,
            final(self).libs == old(self).libs,
            r matches Ok(t) && t@ == TypeV::Keyword(Kw::Void),
            match *s {
                Stmt::Decl(Decl::Var(vd)) => final(self).errors == old(self).errors
                    && scopes_view(final(self).scopes) == scopes_view(old(self).scopes).update(
                    old(self).scopes@.len() - 1,
                    (ScopeV {
                        kind: scopes_view(old(self).scopes).last().kind,
                        bindings: var_binds_to(
                            scopes_view(old(self).scopes).last().bindings,
                            vd.decls@,
                            vd.decls@.len() as int,
                        ),
                    }),
                ),
                Stmt::Decl(_) => final(self).errors == old(self).errors && scopes_view(
                    final(self).scopes,
                ) == scopes_view(old(self).scopes),
                Stmt::Empty(_) => final(self).errors == old(self).errors && scopes_view(
                    final(self).scopes,
                ) == scopes_view(old(self).scopes),
                Stmt::ForIn { span, left, right } => scopes_view(final(self).scopes)
                    == scopes_view(old(self).scopes) && errors_view(final(self).errors)
                    == errors_view(old(self).errors) + for_errors(
                    scopes_view(old(self).scopes),
                    old(self).env@,
                    left,
                    right,
                    span,
                ),
                Stmt::ForOf { span, left, right } => scopes_view(final(self).scopes)
                    == scopes_view(old(self).scopes) && errors_view(final(self).errors)
                    == errors_view(old(self).errors) + for_errors(
                    scopes_view(old(self).scopes),
                    old(self).env@,
                    left,
                    right,
                    span,
                ),
            },
    {
        match s {
            Stmt::Decl(d) => {
                match d {
                    Decl::Var(vd) => {
                        let ghost ss0 = scopes_view(old(self).scopes);
                        let ghost k = old(self).scopes@.len() - 1;
                        let ghost kind0 = ss0.last().kind;
                        let ghost base = ss0.last().bindings;
                        proof {
                            assert(ss0.update(
                                k,
                                (ScopeV { kind: kind0, bindings: var_binds_to(base, vd.decls@, 0) }),
                            ) =~= ss0);
                        }
                        let nd = vd.decls.len();
                        let mut i: usize = 0;
                        while i < nd
                            invariant
                                nd == vd.decls@.len(),
                                0 <= i <= nd,
                                analyzer_wf(*self),
                                k == ss0.len() - 1,
                                0 <= k < ss0.len(),
                                scopes_view(self.scopes) == ss0.update(
                                    k,
                                    (ScopeV {
                                        kind: kind0,
                                        bindings: var_binds_to(base, vd.decls@, i as int),
                                    }),
                                ),
                                self.errors == old(self).errors,
                                self.env == old(self).env,
                                self.libs == old(self).libs,
                            decreases nd - i,
                        {
                            let dcl = &vd.decls[i];
                            let ty = validate_ann_opt(&dcl.ann);
                            self.bind(&dcl.name, Rc::new(ty));
                            proof {
                                assert(scopes_view(self.scopes) =~= ss0.update(
                                    k,
                                    (ScopeV {
                                        kind: kind0,
                                        bindings: var_binds_to(base, vd.decls@, i as int + 1),
                                    }),
                                ));
                            }
                            i += 1;
                        }
                        Ok(Rc::new(Type::Keyword(Kw::Void)))
                    },
                    _ => Ok(Rc::new(Type::Keyword(Kw::Void))),
                }
            },
            Stmt::ForIn { span, left, right } => {
                self.check_for_loop(*span, left, right);
                Ok(Rc::new(Type::Keyword(Kw::Void)))
            },
            Stmt::ForOf { span, left, right } => {
                self.check_for_loop(*span, left, right);
                Ok(Rc::new(Type::Keyword(Kw::Void)))
            },
            Stmt::Empty(_) => Ok(Rc::new(Type::Keyword(Kw::Void))),
        }
    }
}

} // verus!
