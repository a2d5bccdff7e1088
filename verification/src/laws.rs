//! The library's laws: properties that relate several operations, proved
//! once and for all over the same spec functions the operations' own
//! contracts use.

use crate::analyzer::{lemma_lookup_scopes_take, resolve_spec, ScopeV};
use crate::ast::{Decl, ExportDecl, Lib, LibFile, MemberDecl, Stmt, TypeAnn, VarDecl,
    VarDeclarator};
use crate::builtin::{
    ann_ty, assoc_find, assoc_upsert, cache_find, empty_merged, env_for_post, export_decl_v,
    member_decls_v, merge_decl_spec, merge_files_spec, merge_spec, merge_stmts_spec, BuiltinCache,
    BuiltinEnv, Fatal, FatalV, MergedV,
};
use crate::ty::{MemberV, TypeV};
use crate::Span;
use std::rc::Rc;
use vstd::prelude::*;
use vstd::seq_lib::lemma_seq_union_to_multiset_commutative;

verus! {

/// A key misses the cache exactly when no entry carries it.
proof fn lemma_cache_find_none(entries: Seq<crate::builtin::CacheEntry>, key: Seq<Lib>)
    ensures
        (cache_find(entries, key) is None) <==> (forall|j: int|
            0 <= j < entries.len() ==> entries[j].key@ != key),
    decreases entries.len(),
{
    if entries.len() > 0 {
        lemma_cache_find_none(entries.drop_first(), key);
        if cache_find(entries, key) is None {
            assert forall|j: int| 0 <= j < entries.len() implies entries[j].key@ != key by {
                if j > 0 {
                    assert(entries.drop_first()[j - 1] == entries[j]);
                }
            }
        } else {
            if entries[0].key@ != key {
                let j0 = choose|j: int|
                    0 <= j < entries.drop_first().len() && entries.drop_first()[j].key@ == key;
                assert(entries[j0 + 1].key@ == key);
            }
        }
    }
}

/// Cache identity: once a key's environment has been computed, every
/// later request with an equal key returns that same shared environment
/// and leaves the cache untouched — at most one merge per key, ever.
pub proof fn lemma_cache_identity(
    c0: BuiltinCache,
    c1: BuiltinCache,
    c2: BuiltinCache,
    libs: Seq<Lib>,
    files1: Seq<LibFile>,
    files2: Seq<LibFile>,
    r1: Result<Rc<BuiltinEnv>, Fatal>,
    r2: Result<Rc<BuiltinEnv>, Fatal>,
)
    requires
        env_for_post(c0, c1, libs, files1, r1),
        env_for_post(c1, c2, libs, files2, r2),
        r1 is Ok,
    ensures
        r2 == r1,
        c2 == c1,
{
    match cache_find(c0.entries@, libs) {
        Some(env) => {
        },
        None => {
            lemma_cache_find_none(c0.entries@, libs);
            let n = c0.entries@.len() as int;
            crate::builtin::lemma_cache_find_skip(c1.entries@, libs, n);
            assert(c1.entries@.skip(n) =~= seq![c1.entries@.last()]);
            assert(cache_find(c1.entries@, libs) == Some(c1.entries@.last().env));
        },
    }
}

/// Interface merge is associative and order-independent in content:
/// merging two library files that declare the same interface name with
/// member lists `ms1` and `ms2` yields, in either file order, one
/// interface whose member sequence is the concatenation in file order —
/// the same members as a multiset either way.
pub proof fn lemma_interface_merge_content(
    f1: LibFile,
    f2: LibFile,
    name: String,
    sp1: Span,
    sp2: Span,
    ms1: Vec<MemberDecl>,
    ms2: Vec<MemberDecl>,
)
    requires
        f1.body@ == seq![Stmt::Decl(Decl::Interface { span: sp1, name: name, members: ms1 })],
        f2.body@ == seq![Stmt::Decl(Decl::Interface { span: sp2, name: name, members: ms2 })],
    ensures
        merge_spec(seq![f1, f2]) matches Ok(m) && assoc_find(m.types, name@) == Some(
            TypeV::Interface { name: name@, members: member_decls_v(ms1) + member_decls_v(ms2) },
        ),
        merge_spec(seq![f2, f1]) matches Ok(m) && assoc_find(m.types, name@) == Some(
            TypeV::Interface { name: name@, members: member_decls_v(ms2) + member_decls_v(ms1) },
        ),
        (member_decls_v(ms1) + member_decls_v(ms2)).to_multiset() == (member_decls_v(ms2)
            + member_decls_v(ms1)).to_multiset(),
{
    lemma_one_interface_then_other(f1, f2, name, sp1, sp2, ms1, ms2);
    lemma_one_interface_then_other(f2, f1, name, sp2, sp1, ms2, ms1);
    lemma_seq_union_to_multiset_commutative(member_decls_v(ms1), member_decls_v(ms2));
}

/// Merging one single-interface file and then another with the same name
/// appends the second file's members to the first's.
proof fn lemma_one_interface_then_other(
    f1: LibFile,
    f2: LibFile,
    name: String,
    sp1: Span,
    sp2: Span,
    ms1: Vec<MemberDecl>,
    ms2: Vec<MemberDecl>,
)
    requires
        f1.body@ == seq![Stmt::Decl(Decl::Interface { span: sp1, name: name, members: ms1 })],
        f2.body@ == seq![Stmt::Decl(Decl::Interface { span: sp2, name: name, members: ms2 })],
    ensures
        merge_spec(seq![f1, f2]) matches Ok(m) && assoc_find(m.types, name@) == Some(
            TypeV::Interface { name: name@, members: member_decls_v(ms1) + member_decls_v(ms2) },
        ),
{
    let files = seq![f1, f2];
    let e = empty_merged();
    let d1 = Decl::Interface { span: sp1, name: name, members: ms1 };
    let d2 = Decl::Interface { span: sp2, name: name, members: ms2 };
    let t1 = TypeV::Interface { name: name@, members: member_decls_v(ms1) };
    let m1 = MergedV { types: e.types.push(MemberV { name: name@, ty: t1 }), ..e };
    assert(f1.body@.drop_first() =~= Seq::<Stmt>::empty());
    assert(merge_decl_spec(e, d1) == Ok::<MergedV, FatalV>(m1));
    assert(merge_stmts_spec(m1, Seq::<Stmt>::empty()) == Ok::<MergedV, FatalV>(m1));
    assert(merge_stmts_spec(e, f1.body@) == Ok::<MergedV, FatalV>(m1));
    assert(files[0] == f1);
    assert(files.drop_first() =~= seq![f2]);
    assert(f2.body@.drop_first() =~= Seq::<Stmt>::empty());
    assert(m1.types[0].name == name@);
    assert(assoc_find(m1.types, name@) == Some(t1));
    let t12 = TypeV::Interface { name: name@, members: member_decls_v(ms1) + member_decls_v(ms2) };
    let m12 = MergedV { types: crate::builtin::assoc_set(m1.types, name@, t12), ..m1 };
    assert(merge_decl_spec(m1, d2) == Ok::<MergedV, FatalV>(m12));
    assert(merge_stmts_spec(m12, Seq::<Stmt>::empty()) == Ok::<MergedV, FatalV>(m12));
    assert(merge_stmts_spec(m1, f2.body@) == Ok::<MergedV, FatalV>(m12));
    assert(seq![f2].drop_first() =~= Seq::<LibFile>::empty());
    assert(seq![f2][0] == f2);
    assert(merge_files_spec(m12, Seq::<LibFile>::empty()) == Ok::<MergedV, FatalV>(m12));
    assert(merge_files_spec(m1, seq![f2]) == Ok::<MergedV, FatalV>(m12));
    assert(merge_spec(files) == Ok::<MergedV, FatalV>(m12));
    assert(m12.types[0] == MemberV { name: name@, ty: t12 });
    assert(assoc_find(m12.types, name@) == Some(t12));
}

/// Module export merge accumulates: two namespace declarations with the
/// same name, exporting one declaration each under distinct names, yield
/// one module type that exports both.
pub proof fn lemma_module_merge_accumulates(
    f1: LibFile,
    f2: LibFile,
    name: String,
    sp1: Span,
    sp2: Span,
    d1: ExportDecl,
    d2: ExportDecl,
    b1: Vec<ExportDecl>,
    b2: Vec<ExportDecl>,
)
    requires
        b1@ == seq![d1],
        b2@ == seq![d2],
        f1.body@ == seq![Stmt::Decl(Decl::Namespace { span: sp1, name: name, body: b1 })],
        f2.body@ == seq![Stmt::Decl(Decl::Namespace { span: sp2, name: name, body: b2 })],
        export_decl_v(d1).name != export_decl_v(d2).name,
    ensures
        merge_spec(seq![f1, f2]) matches Ok(m) && assoc_find(m.types, name@) matches Some(
            TypeV::Module { exports },
        ) && assoc_find(exports, export_decl_v(d1).name) == Some(export_decl_v(d1).ty)
            && assoc_find(exports, export_decl_v(d2).name) == Some(export_decl_v(d2).ty),
{
    let files = seq![f1, f2];
    let e = empty_merged();
    let e1 = export_decl_v(d1);
    let e2 = export_decl_v(d2);
    let dd1 = Decl::Namespace { span: sp1, name: name, body: b1 };
    let dd2 = Decl::Namespace { span: sp2, name: name, body: b2 };
    let body1 = b1@;
    let body2 = b2@;
    assert(body1 =~= seq![d1]);
    assert(body2 =~= seq![d2]);
    let ex1 = Seq::<MemberV>::empty().push(e1);
    assert(assoc_find(Seq::<MemberV>::empty(), e1.name) is None);
    assert(assoc_upsert(Seq::<MemberV>::empty(), e1) == ex1);
    assert(seq![d1].drop_first() =~= Seq::<ExportDecl>::empty());
    assert(body1[0] == d1);
    assert(crate::builtin::exports_merge(ex1, Seq::<ExportDecl>::empty()) == ex1);
    assert(crate::builtin::exports_merge(Seq::<MemberV>::empty(), body1) == ex1);
    let t1 = TypeV::Module { exports: ex1 };
    let m1 = MergedV { types: e.types.push(MemberV { name: name@, ty: t1 }), ..e };
    assert(merge_decl_spec(e, dd1) == Ok::<MergedV, FatalV>(m1));
    assert(f1.body@.drop_first() =~= Seq::<Stmt>::empty());
    assert(merge_stmts_spec(m1, Seq::<Stmt>::empty()) == Ok::<MergedV, FatalV>(m1));
    assert(merge_stmts_spec(e, f1.body@) == Ok::<MergedV, FatalV>(m1));
    assert(files[0] == f1);
    assert(files.drop_first() =~= seq![f2]);
    assert(m1.types[0].name == name@);
    assert(assoc_find(m1.types, name@) == Some(t1));
    assert(ex1[0] == e1);
    assert(ex1.drop_first() =~= Seq::<MemberV>::empty());
    assert(assoc_find(ex1.drop_first(), e2.name) is None);
    assert(assoc_find(ex1, e2.name) is None);
    let ex12 = ex1.push(e2);
    assert(assoc_upsert(ex1, e2) == ex12);
    assert(seq![d2].drop_first() =~= Seq::<ExportDecl>::empty());
    assert(body2[0] == d2);
    assert(crate::builtin::exports_merge(ex12, Seq::<ExportDecl>::empty()) == ex12);
    assert(crate::builtin::exports_merge(ex1, body2) == ex12);
    let t12 = TypeV::Module { exports: ex12 };
    let m12 = MergedV { types: crate::builtin::assoc_set(m1.types, name@, t12), ..m1 };
    assert(merge_decl_spec(m1, dd2) == Ok::<MergedV, FatalV>(m12));
    assert(f2.body@.drop_first() =~= Seq::<Stmt>::empty());
    assert(merge_stmts_spec(m12, Seq::<Stmt>::empty()) == Ok::<MergedV, FatalV>(m12));
    assert(merge_stmts_spec(m1, f2.body@) == Ok::<MergedV, FatalV>(m12));
    assert(seq![f2].drop_first() =~= Seq::<LibFile>::empty());
    assert(seq![f2][0] == f2);
    assert(merge_files_spec(m12, Seq::<LibFile>::empty()) == Ok::<MergedV, FatalV>(m12));
    assert(merge_files_spec(m1, seq![f2]) == Ok::<MergedV, FatalV>(m12));
    assert(merge_spec(files) == Ok::<MergedV, FatalV>(m12));
    assert(m12.types[0] == MemberV { name: name@, ty: t12 });
    assert(assoc_find(m12.types, name@) == Some(t12));
    assert(assoc_find(ex12, e1.name) == Some(e1.ty));
    assert(ex12[1] == e2);
    assert(assoc_find(ex12.drop_first(), e2.name) == Some(e2.ty));
    assert(ex12.drop_first() =~= seq![e2]);
    assert(assoc_find(ex12, e2.name) == Some(e2.ty));
}

/// Declaring the same variable in two builtin files is fatal: the merge
/// aborts with the duplicate name instead of silently picking one.
pub proof fn lemma_duplicate_var_fatal(
    f1: LibFile,
    f2: LibFile,
    name: String,
    sp1: Span,
    sp2: Span,
    dsp1: Span,
    dsp2: Span,
    a1: TypeAnn,
    a2: TypeAnn,
    ds1: Vec<VarDeclarator>,
    ds2: Vec<VarDeclarator>,
)
    requires
        ds1@ == seq![VarDeclarator { span: dsp1, name: name, ann: Some(a1) }],
        ds2@ == seq![VarDeclarator { span: dsp2, name: name, ann: Some(a2) }],
        f1.body@ == seq![Stmt::Decl(Decl::Var(VarDecl { span: sp1, decls: ds1 }))],
        f2.body@ == seq![Stmt::Decl(Decl::Var(VarDecl { span: sp2, decls: ds2 }))],
    ensures
        merge_spec(seq![f1, f2]) == Err::<MergedV, FatalV>(FatalV::DuplicateName { name: name@ }),
{
    let files = seq![f1, f2];
    let e = empty_merged();
    let vd1 = VarDecl { span: sp1, decls: ds1 };
    let vd2 = VarDecl { span: sp2, decls: ds2 };
    let m1 = MergedV { vars: e.vars.push(MemberV { name: name@, ty: ann_ty(a1) }), ..e };
    assert(merge_decl_spec(e, Decl::Var(vd1)) == Ok::<MergedV, FatalV>(m1));
    assert(f1.body@.drop_first() =~= Seq::<Stmt>::empty());
    assert(merge_stmts_spec(m1, Seq::<Stmt>::empty()) == Ok::<MergedV, FatalV>(m1));
    assert(merge_stmts_spec(e, f1.body@) == Ok::<MergedV, FatalV>(m1));
    assert(files[0] == f1);
    assert(files.drop_first() =~= seq![f2]);
    assert(m1.vars[0].name == name@);
    assert(assoc_find(m1.vars, name@) == Some(ann_ty(a1)));
    assert(merge_decl_spec(m1, Decl::Var(vd2)) == Err::<MergedV, FatalV>(
        FatalV::DuplicateName { name: name@ },
    ));
    assert(f2.body@[0] == Stmt::Decl(Decl::Var(vd2)));
    assert(merge_stmts_spec(m1, f2.body@) == Err::<MergedV, FatalV>(
        FatalV::DuplicateName { name: name@ },
    ));
    assert(seq![f2][0] == f2);
    assert(merge_files_spec(m1, seq![f2]) == Err::<MergedV, FatalV>(
        FatalV::DuplicateName { name: name@ },
    ));
    assert(merge_spec(files) == Err::<MergedV, FatalV>(FatalV::DuplicateName { name: name@ }));
}

/// Scope restoration: a pushed child scope, however its bindings grew
/// while it was current, leaves exactly the previous chain behind when it
/// is popped.
pub proof fn lemma_scope_restoration(ss: Seq<ScopeV>, child: ScopeV)
    ensures
        ss.push(child).drop_last() == ss,
{
    assert(ss.push(child).drop_last() =~= ss);
}

/// Lookup fallback ordering: a binding shadowing a builtin name in an
/// inner scope is preferred over the builtin, and removing the shadow by
/// popping that scope restores visibility of the builtin.
pub proof fn lemma_lookup_shadowing(
    ss: Seq<ScopeV>,
    child: ScopeV,
    env: MergedV,
    name: Seq<char>,
    shadow: TypeV,
    builtin: TypeV,
)
    requires
        assoc_find(child.bindings, name) == Some(shadow),
        forall|j: int| 0 <= j < ss.len() ==> assoc_find(#[trigger] ss[j].bindings, name) is None,
        assoc_find(env.vars, name) == Some(builtin),
    ensures
        resolve_spec(ss.push(child), env, name) == Some(shadow),
        resolve_spec(ss.push(child).drop_last(), env, name) == Some(
            TypeV::Static(Box::new(builtin)),
        ),
{
    assert(ss.push(child).last() == child);
    assert(ss.push(child).drop_last() =~= ss);
    lemma_lookup_scopes_take(ss, name, 0);
    assert(ss.take(0) =~= Seq::<ScopeV>::empty());
}

} // verus!
