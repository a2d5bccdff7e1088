//! The builtin library merger and its process-wide cache.
//!
//! Given the requested set of standard-library variants and their loaded
//! declaration files, the merger folds every top-level declaration into
//! one flat `(variables, types)` environment.  Interfaces and namespaces
//! with the same name merge; any other duplicate, and any structural
//! defect of the builtin corpus, is a fatal data error, never a user
//! diagnostic.  The cache computes the environment once per distinct
//! ordered key and shares it afterwards.

use crate::ast::{Decl, ExportDecl, Lib, LibFile, MemberDecl, Stmt, TypeAnn};
use crate::diag::Error;
use crate::ty::{
    lemma_members_view, member_view, members_view, rc_dup, Kw, Member, MemberV, Type, TypeV,
};
use crate::Span;
use std::rc::Rc;
use vstd::prelude::*;

verus! {

broadcast use vstd::std_specs::vec::axiom_vec_index_decreases;

// ---------------------------------------------------------------------
// The meaning of annotations and declarations.
// ---------------------------------------------------------------------

/// The type an annotation denotes, in an environment seeded with nothing:
/// builtin declarations are self-contained.
pub open spec fn ann_ty(a: TypeAnn) -> TypeV
    decreases a,
{
    match a {
        TypeAnn::Keyword(k) => TypeV::Keyword(k),
        TypeAnn::Named(n) => TypeV::Ref(n@),
        TypeAnn::Array(e) => TypeV::Array(Box::new(ann_ty(*e))),
    }
}

/// A missing annotation denotes `any`.
pub open spec fn ann_ty_opt(o: Option<TypeAnn>) -> TypeV {
    match o {
        Some(a) => ann_ty(a),
        None => TypeV::Keyword(Kw::Any),
    }
}

/// The member signature a member declaration denotes.
pub open spec fn member_decl_v(md: MemberDecl) -> MemberV {
    MemberV { name: md.name@, ty: ann_ty_opt(md.ann) }
}

/// The member signatures of a whole declaration list, in order.
pub open spec fn member_decls_v(mds: Vec<MemberDecl>) -> Seq<MemberV> {
    Seq::new(mds@.len(), |i: int| member_decl_v(mds@[i]))
}

/// The callable type a function declaration denotes.
pub open spec fn fn_type_v(params: Vec<MemberDecl>, ret: Option<TypeAnn>) -> TypeV {
    TypeV::Function { params: member_decls_v(params), ret: Box::new(ann_ty_opt(ret)) }
}

/// The type a namespace export denotes, together with its name.
pub open spec fn export_decl_v(d: ExportDecl) -> MemberV {
    match d {
        ExportDecl::Var { span, name, ann } => MemberV { name: name@, ty: ann_ty(ann) },
        ExportDecl::Fn { span, name, params, ret } => MemberV {
            name: name@,
            ty: fn_type_v(params, ret),
        },
        ExportDecl::TypeAlias { span, name, ann } => MemberV { name: name@, ty: ann_ty(ann) },
        ExportDecl::Interface { span, name, members } => MemberV {
            name: name@,
            ty: TypeV::Interface { name: name@, members: member_decls_v(members) },
        },
    }
}

// ---------------------------------------------------------------------
// Association-list model of the two environment maps.
// ---------------------------------------------------------------------

/// First binding of `name` in an association list, if any.
pub open spec fn assoc_find(s: Seq<MemberV>, name: Seq<char>) -> Option<TypeV>
    decreases s.len(),
{
    if s.len() == 0 {
        None
    } else if s[0].name == name {
        Some(s[0].ty)
    } else {
        assoc_find(s.drop_first(), name)
    }
}

/// Replace the binding of `name` (present exactly once under the map
/// invariant) while keeping every other entry and the order.
pub open spec fn assoc_set(s: Seq<MemberV>, name: Seq<char>, ty: TypeV) -> Seq<MemberV> {
    Seq::new(
        s.len(),
        |i: int|
            if s[i].name == name {
                MemberV { name, ty }
            } else {
                s[i]
            },
    )
}

/// Insert a fresh binding or replace an existing one.
pub open spec fn assoc_upsert(s: Seq<MemberV>, m: MemberV) -> Seq<MemberV> {
    if assoc_find(s, m.name) is Some {
        assoc_set(s, m.name, m.ty)
    } else {
        s.push(m)
    }
}

/// A linear scan that skips a prefix without a match finds whatever the
/// suffix finds.
pub proof fn lemma_assoc_find_skip(s: Seq<MemberV>, name: Seq<char>, i: int)
    requires
        0 <= i <= s.len(),
        forall|j: int| 0 <= j < i ==> s[j].name != name,
    ensures
        assoc_find(s, name) == assoc_find(s.skip(i), name),
    decreases i,
{
    if i > 0 {
        lemma_assoc_find_skip(s, name, i - 1);
        assert(s.skip(i - 1).drop_first() =~= s.skip(i));
        assert(s.skip(i - 1)[0] == s[i - 1]);
    } else {
        assert(s.skip(0) =~= s);
    }
}

// ---------------------------------------------------------------------
// The merge itself, as a mathematical fold.
// ---------------------------------------------------------------------

/// Mathematical content of a merged environment: the `variables` map and
/// the `types` map, each an association list with unique keys.
#[verifier::ext_equal]
pub struct MergedV {
    pub vars: Seq<MemberV>,
    pub types: Seq<MemberV>,
}

/// The empty environment the fold starts from.
pub open spec fn empty_merged() -> MergedV {
    MergedV { vars: Seq::empty(), types: Seq::empty() }
}

/// Mathematical mirror of [`Fatal`].
#[verifier::ext_equal]
pub enum FatalV {
    DuplicateName { name: Seq<char> },
    VarDeclNotSingle { span: Span },
    VarWithoutAnn { span: Span },
    ClassWithSuper { span: Span },
    ClassWithImplements { span: Span },
    MergeIntoNonInterface { name: Seq<char> },
    MergeIntoNonModule { name: Seq<char> },
    UnexpectedTopLevel { span: Span },
}

/// An internal data-integrity failure: the trusted builtin corpus is
/// malformed or self-contradictory.  Construction of the environment
/// aborts; this is never reported as a user diagnostic.
#[derive(Debug)]
pub enum Fatal {
    /// A `var`, function, class or type alias was declared twice.
    DuplicateName { name: String },
    /// A builtin `var` statement must hold exactly one declarator.
    VarDeclNotSingle { span: Span },
    /// Every builtin variable must carry a type annotation.
    VarWithoutAnn { span: Span },
    /// Builtin classes never extend another class.
    ClassWithSuper { span: Span },
    /// Builtin classes never implement an interface.
    ClassWithImplements { span: Span },
    /// An interface declaration collided with a non-interface type.
    MergeIntoNonInterface { name: String },
    /// A namespace declaration collided with a non-module type.
    MergeIntoNonModule { name: String },
    /// The builtin corpus is closed: only declarations appear at the top
    /// level of a library file.
    UnexpectedTopLevel { span: Span },
}

impl View for Fatal {
    type V = FatalV;

    open spec fn view(&self) -> FatalV {
        match *self {
            Fatal::DuplicateName { name } => FatalV::DuplicateName { name: name@ },
            Fatal::VarDeclNotSingle { span } => FatalV::VarDeclNotSingle { span },
            Fatal::VarWithoutAnn { span } => FatalV::VarWithoutAnn { span },
            Fatal::ClassWithSuper { span } => FatalV::ClassWithSuper { span },
            Fatal::ClassWithImplements { span } => FatalV::ClassWithImplements { span },
            Fatal::MergeIntoNonInterface { name } => FatalV::MergeIntoNonInterface {
                name: name@,
            },
            Fatal::MergeIntoNonModule { name } => FatalV::MergeIntoNonModule { name: name@ },
            Fatal::UnexpectedTopLevel { span } => FatalV::UnexpectedTopLevel { span },
        }
    }
}

/// Fold one namespace body into an export map, first to last.
pub open spec fn exports_merge(base: Seq<MemberV>, body: Seq<ExportDecl>) -> Seq<MemberV>
    decreases body.len(),
{
    if body.len() == 0 {
        base
    } else {
        exports_merge(assoc_upsert(base, export_decl_v(body[0])), body.drop_first())
    }
}

/// Merge one top-level declaration into the environment, or report why
/// the corpus is corrupt.
pub open spec fn merge_decl_spec(m: MergedV, d: Decl) -> Result<MergedV, FatalV> {
    match d {
        Decl::Var(vd) => if vd.decls@.len() != 1 {
            Err(FatalV::VarDeclNotSingle { span: vd.span })
        } else {
            let d0 = vd.decls@[0];
            match d0.ann {
                None => Err(FatalV::VarWithoutAnn { span: d0.span }),
                Some(a) => if assoc_find(m.vars, d0.name@) is Some {
                    Err(FatalV::DuplicateName { name: d0.name@ })
                } else {
                    Ok(
                        MergedV {
                            vars: m.vars.push(MemberV { name: d0.name@, ty: ann_ty(a) }),
                            ..m
                        },
                    )
                },
            }
        },
        Decl::Fn { span, name, params, ret } => if assoc_find(m.types, name@) is Some {
            Err(FatalV::DuplicateName { name: name@ })
        } else {
            Ok(
                MergedV {
                    types: m.types.push(MemberV { name: name@, ty: fn_type_v(params, ret) }),
                    ..m
                },
            )
        },
        Decl::Class { span, name, is_abstract, members, super_class, implements, type_params } => {
            if super_class is Some {
                Err(FatalV::ClassWithSuper { span })
            } else if implements@.len() != 0 {
                Err(FatalV::ClassWithImplements { span })
            } else if assoc_find(m.types, name@) is Some {
                Err(FatalV::DuplicateName { name: name@ })
            } else {
                Ok(
                    MergedV {
                        types: m.types.push(
                            MemberV {
                                name: name@,
                                ty: TypeV::Class {
                                    name: Some(name@),
                                    is_abstract,
                                    members: member_decls_v(members),
                                    super_class: None,
                                    type_params: crate::ty::opt_strs_view(type_params),
                                },
                            },
                        ),
                        ..m
                    },
                )
            }
        },
        Decl::TypeAlias { span, name, ann } => if assoc_find(m.types, name@) is Some {
            Err(FatalV::DuplicateName { name: name@ })
        } else {
            Ok(
                MergedV {
                    types: m.types.push(MemberV { name: name@, ty: ann_ty(ann) }),
                    ..m
                },
            )
        },
        Decl::Interface { span, name, members } => match assoc_find(m.types, name@) {
            None => Ok(
                MergedV {
                    types: m.types.push(
                        MemberV {
                            name: name@,
                            ty: TypeV::Interface { name: name@, members: member_decls_v(members) },
                        },
                    ),
                    ..m
                },
            ),
            Some(TypeV::Interface { name: old_name, members: old_members }) => Ok(
                MergedV {
                    types: assoc_set(
                        m.types,
                        name@,
                        TypeV::Interface {
                            name: old_name,
                            members: old_members + member_decls_v(members),
                        },
                    ),
                    ..m
                },
            ),
            Some(_) => Err(FatalV::MergeIntoNonInterface { name: name@ }),
        },
        Decl::Namespace { span, name, body } => match assoc_find(m.types, name@) {
            None => Ok(
                MergedV {
                    types: m.types.push(
                        MemberV {
                            name: name@,
                            ty: TypeV::Module {
                                exports: exports_merge(Seq::empty(), body@),
                            },
                        },
                    ),
                    ..m
                },
            ),
            Some(TypeV::Module { exports }) => Ok(
                MergedV {
                    types: assoc_set(
                        m.types,
                        name@,
                        TypeV::Module { exports: exports_merge(exports, body@) },
                    ),
                    ..m
                },
            ),
            Some(_) => Err(FatalV::MergeIntoNonModule { name: name@ }),
        },
    }
}

/// Merge one top-level statement: only declarations may appear.
pub open spec fn merge_stmt_spec(m: MergedV, s: Stmt) -> Result<MergedV, FatalV> {
    match s {
        Stmt::Decl(d) => merge_decl_spec(m, d),
        Stmt::ForIn { span, left, right } => Err(FatalV::UnexpectedTopLevel { span }),
        Stmt::ForOf { span, left, right } => Err(FatalV::UnexpectedTopLevel { span }),
        Stmt::Empty(span) => Err(FatalV::UnexpectedTopLevel { span }),
    }
}

/// Fold a file body, first statement to last, stopping at the first
/// fatal defect.
pub open spec fn merge_stmts_spec(m: MergedV, body: Seq<Stmt>) -> Result<MergedV, FatalV>
    decreases body.len(),
{
    if body.len() == 0 {
        Ok(m)
    } else {
        match merge_stmt_spec(m, body[0]) {
            Err(e) => Err(e),
            Ok(m2) => merge_stmts_spec(m2, body.drop_first()),
        }
    }
}

/// Fold the requested files in file order.
pub open spec fn merge_files_spec(m: MergedV, files: Seq<LibFile>) -> Result<MergedV, FatalV>
    decreases files.len(),
{
    if files.len() == 0 {
        Ok(m)
    } else {
        match merge_stmts_spec(m, files[0].body@) {
            Err(e) => Err(e),
            Ok(m2) => merge_files_spec(m2, files.drop_first()),
        }
    }
}

/// The meaning of the whole merge of a requested file list.
pub open spec fn merge_spec(files: Seq<LibFile>) -> Result<MergedV, FatalV> {
    merge_files_spec(empty_merged(), files)
}

// ---------------------------------------------------------------------
// Environment maps with unique keys.
// ---------------------------------------------------------------------

/// Key uniqueness: the invariant of both environment maps.
pub open spec fn unique_names(s: Seq<MemberV>) -> bool {
    forall|i: int, j: int| 0 <= i < j < s.len() ==> s[i].name != s[j].name
}

/// A lookup misses exactly when no entry carries the name.
pub proof fn lemma_assoc_find_none(s: Seq<MemberV>, name: Seq<char>)
    ensures
        (assoc_find(s, name) is None) <==> (forall|j: int|
            0 <= j < s.len() ==> s[j].name != name),
    decreases s.len(),
{
    if s.len() > 0 {
        lemma_assoc_find_none(s.drop_first(), name);
        if assoc_find(s, name) is None {
            assert(s[0].name != name);
            assert forall|j: int| 0 <= j < s.len() implies s[j].name != name by {
                if j > 0 {
                    assert(s.drop_first()[j - 1] == s[j]);
                }
            }
        } else {
            if s[0].name != name {
                let j0 = choose|j: int|
                    0 <= j < s.drop_first().len() && s.drop_first()[j].name == name;
                assert(s[j0 + 1].name == name);
            }
        }
    }
}

// ---------------------------------------------------------------------
// Executable merge.
// ---------------------------------------------------------------------

/// The merged builtin environment while it is still under construction,
/// owned and mutable; [`BuiltinEnv`] is its frozen, shared form.
pub struct Merged {
    pub vars: Vec<Member>,
    pub types: Vec<Member>,
}

impl View for Merged {
    type V = MergedV;

    open spec fn view(&self) -> MergedV {
        MergedV { vars: members_view(self.vars), types: members_view(self.types) }
    }
}

/// Every module type in an environment map has unique export names.
pub open spec fn modules_wf(s: Seq<MemberV>) -> bool {
    forall|k: int|
        0 <= k < s.len() ==> (#[trigger] s[k].ty matches TypeV::Module { exports } ==>
        unique_names(exports))
}

/// Both maps of a well-formed environment have unique keys, and so does
/// the export map of every module type held in them.
pub open spec fn merged_wf(m: MergedV) -> bool {
    unique_names(m.vars) && unique_names(m.types) && modules_wf(m.types)
}

/// Appending an entry whose module exports (if any) are unique keeps
/// every module in the map well-formed.
pub proof fn lemma_modules_wf_push(s: Seq<MemberV>, nm: MemberV)
    requires
        modules_wf(s),
        nm.ty matches TypeV::Module { exports } ==> unique_names(exports),
    ensures
        modules_wf(s.push(nm)),
{
    assert forall|k: int| #![trigger s.push(nm)[k]] 0 <= k < s.push(nm).len() implies (s.push(
        nm,
    )[k].ty matches TypeV::Module { exports } ==> unique_names(exports)) by {
        if k < s.len() {
            assert(s.push(nm)[k] == s[k]);
        } else {
            assert(s.push(nm)[k] == nm);
        }
    }
}

/// Replacing a binding with a type whose module exports (if any) are
/// unique keeps every module in the map well-formed.
pub proof fn lemma_modules_wf_set(s: Seq<MemberV>, name: Seq<char>, ty: TypeV)
    requires
        modules_wf(s),
        ty matches TypeV::Module { exports } ==> unique_names(exports),
    ensures
        modules_wf(assoc_set(s, name, ty)),
{
    let s2 = assoc_set(s, name, ty);
    assert forall|k: int| #![trigger s2[k]] 0 <= k < s2.len() implies (s2[k].ty matches TypeV::Module {
        exports,
    } ==> unique_names(exports)) by {
        if s[k].name == name {
            assert(s2[k] == MemberV { name, ty });
        } else {
            assert(s2[k] == s[k]);
        }
    }
}

/// Validates a type annotation against an environment seeded with
/// nothing, as builtin declarations are self-contained.
pub fn validate_ann(a: &TypeAnn) -> (t: Type)
    ensures
        t@ == ann_ty(*a),
    decreases *a,
{
    match a {
        TypeAnn::Keyword(k) => Type::Keyword(*k),
        TypeAnn::Named(n) => Type::Ref(n.clone()),
        TypeAnn::Array(e) => Type::Array(Box::new(validate_ann(e))),
    }
}

/// A missing annotation yields `any`.
pub fn validate_ann_opt(o: &Option<TypeAnn>) -> (t: Type)
    ensures
        t@ == ann_ty_opt(*o),
{
    match o {
        Some(a) => validate_ann(a),
        None => Type::Keyword(Kw::Any),
    }
}

/// Validates a member declaration list into member signatures.
pub fn lower_member_decls(mds: &Vec<MemberDecl>) -> (ms: Vec<Member>)
    ensures
        members_view(ms) == member_decls_v(*mds),
{
    let mut ms: Vec<Member> = Vec::new();
    let n = mds.len();
    let mut i: usize = 0;
    while i < n
        invariant
            n == mds@.len(),
            0 <= i <= n,
            ms@.len() == i,
            forall|j: int| 0 <= j < i ==> ms@[j]@ == member_decl_v(mds@[j]),
        decreases n - i,
    {
        let md = &mds[i];
        let ty = validate_ann_opt(&md.ann);
        ms.push(Member { name: md.name.clone(), ty });
        i += 1;
    }
    proof {
        lemma_members_view(ms);
        assert(members_view(ms) =~= member_decls_v(*mds));
    }
    ms
}

/// Linear scan of an environment map for a name; reports the first hit.
pub fn find_name(ms: &Vec<Member>, name: &String) -> (r: Option<usize>)
    ensures
        match r {
            Some(i) => {
                &&& 0 <= i < ms@.len()
                &&& ms@[i as int].name@ == name@
                &&& forall|j: int| 0 <= j < i ==> ms@[j].name@ != name@
                &&& assoc_find(members_view(*ms), name@) == Some(ms@[i as int].ty@)
            },
            None => assoc_find(members_view(*ms), name@) is None,
        },
{
    proof {
        lemma_members_view(*ms);
    }
    let n = ms.len();
    let mut i: usize = 0;
    while i < n
        invariant
            n == ms@.len(),
            0 <= i <= n,
            forall|j: int| 0 <= j < i ==> ms@[j].name@ != name@,
            members_view(*ms).len() == n,
            forall|j: int| 0 <= j < n ==> members_view(*ms)[j] == ms@[j]@,
        decreases n - i,
    {
        if ms[i].name == *name {
            proof {
                let sv = members_view(*ms);
                lemma_assoc_find_skip(sv, name@, i as int);
                assert(sv.skip(i as int)[0] == sv[i as int]);
                assert(sv.skip(i as int).drop_first() =~= sv.skip(i as int + 1));
            }
            return Some(i);
        }
        i += 1;
    }
    proof {
        let sv = members_view(*ms);
        lemma_assoc_find_skip(sv, name@, n as int);
        assert(sv.skip(n as int) =~= Seq::<MemberV>::empty());
    }
    None
}

/// Inserts or replaces one namespace export, preserving key uniqueness.
fn merge_export(exports: &mut Vec<Member>, d: &ExportDecl) 
    requires
        unique_names(members_view(*old(exports))),
    ensures
        members_view(*final(exports)) == assoc_upsert(members_view(*old(exports)), export_decl_v(*d)),
        unique_names(members_view(*final(exports))),
{
    let m: Member = match d {
        ExportDecl::Var { span, name, ann } => Member { name: name.clone(), ty: validate_ann(ann) },
        ExportDecl::Fn { span, name, params, ret } => Member {
            name: name.clone(),
            ty: Type::Function {
                params: lower_member_decls(params),
                ret: Box::new(validate_ann_opt(ret)),
            },
        },
        ExportDecl::TypeAlias { span, name, ann } => Member {
            name: name.clone(),
            ty: validate_ann(ann),
        },
        ExportDecl::Interface { span, name, members } => Member {
            name: name.clone(),
            ty: Type::Interface { name: name.clone(), members: lower_member_decls(members) },
        },
    };
    proof {
        assert(m@ == export_decl_v(*d));
    }
    let ghost before = *exports;
    match find_name(exports, &m.name) {
        Some(i) => {
            exports[i] = m;
            proof {
                lemma_members_view(before);
                lemma_members_view(*exports);
                let mv = members_view(before);
                let tgt = export_decl_v(*d);
                assert(mv[i as int].name == tgt.name);
                assert forall|j: int| 0 <= j < mv.len() && j != i implies mv[j].name
                    != tgt.name by {
                    if j < i {
                        assert(before@[j].name@ != tgt.name);
                        assert(mv[j].name == before@[j].name@);
                    } else {
                        assert(mv[i as int].name != mv[j].name);
                    }
                }
                assert(members_view(*exports) =~= assoc_set(mv, tgt.name, tgt.ty));
            }
        },
        None => {
            proof {
                lemma_assoc_find_none(members_view(before), m@.name);
            }
            exports.push(m);
            proof {
                lemma_members_view(before);
                lemma_members_view(*exports);
                assert(members_view(*exports) =~= members_view(before).push(export_decl_v(*d)));
            }
        },
    }
}

/// An annotation never denotes a module type.
pub proof fn lemma_ann_ty_not_module(a: TypeAnn)
    ensures
        !(ann_ty(a) is Module),
    decreases a,
{
}

/// Appending a fresh key keeps the map's meaning and its uniqueness.
proof fn lemma_push_entry(before: Vec<Member>, after: Vec<Member>, nm: MemberV)
    requires
        after@.len() == before@.len() + 1,
        forall|j: int| 0 <= j < before@.len() ==> after@[j] == before@[j],
        after@[before@.len() as int]@ == nm,
        assoc_find(members_view(before), nm.name) is None,
        unique_names(members_view(before)),
    ensures
        members_view(after) == members_view(before).push(nm),
        unique_names(members_view(after)),
{
    lemma_members_view(before);
    lemma_members_view(after);
    lemma_assoc_find_none(members_view(before), nm.name);
    assert(members_view(after) =~= members_view(before).push(nm));
}

/// Replacing the unique entry of a key keeps every other entry: the
/// result is exactly [`assoc_set`], and uniqueness is preserved.
proof fn lemma_set_entry(before: Vec<Member>, after: Vec<Member>, i: int, nm: MemberV)
    requires
        0 <= i < before@.len(),
        after@.len() == before@.len(),
        forall|j: int| 0 <= j < before@.len() && j != i ==> after@[j] == before@[j],
        after@[i]@ == nm,
        members_view(before)[i].name == nm.name,
        unique_names(members_view(before)),
    ensures
        members_view(after) == assoc_set(members_view(before), nm.name, nm.ty),
        unique_names(members_view(after)),
{
    lemma_members_view(before);
    lemma_members_view(after);
    let mv = members_view(before);
    assert forall|j: int| 0 <= j < mv.len() && j != i implies mv[j].name != nm.name by {
        if j < i {
            assert(mv[j].name != mv[i].name);
        } else {
            assert(mv[i].name != mv[j].name);
        }
    }
    assert(members_view(after) =~= assoc_set(mv, nm.name, nm.ty));
}

/// Folds a namespace body into an export map, first export to last.
fn build_exports(base: Vec<Member>, body: &Vec<ExportDecl>) -> (r: Vec<Member>)
    requires
        unique_names(members_view(base)),
    ensures
        members_view(r) == exports_merge(members_view(base), body@),
        unique_names(members_view(r)),
{
    let ghost target = exports_merge(members_view(base), body@);
    let mut ex = base;
    let n = body.len();
    let mut j: usize = 0;
    proof {
        assert(body@.skip(0) =~= body@);
    }
    while j < n
        invariant
            n == body@.len(),
            0 <= j <= n,
            unique_names(members_view(ex)),
            exports_merge(members_view(ex), body@.skip(j as int)) == target,
        decreases n - j,
    {
        let ghost prev = members_view(ex);
        merge_export(&mut ex, &body[j]);
        proof {
            assert(body@.skip(j as int)[0] == body@[j as int]);
            assert(body@.skip(j as int).drop_first() =~= body@.skip(j as int + 1));
        }
        j += 1;
    }
    proof {
        assert(body@.skip(n as int) =~= Seq::<ExportDecl>::empty());
    }
    ex
}

/// Merges one top-level declaration into the environment under
/// construction; a fatal result reports the first corpus defect found.
#[verifier::rlimit(100)]
fn merge_decl(m: &mut Merged, d: &Decl) -> (r: Result<(), Fatal>)
    requires
        merged_wf(old(m)@),
    ensures
        r is Ok ==> merge_decl_spec(old(m)@, *d) == Ok::<MergedV, FatalV>(final(m)@)
            && merged_wf(final(m)@),
        r matches Err(f) ==> merge_decl_spec(old(m)@, *d) == Err::<MergedV, FatalV>(f@),
{
    match d {
        Decl::Var(vd) => {
            if vd.decls.len() != 1 {
                return Err(Fatal::VarDeclNotSingle { span: vd.span });
            }
            let d0 = &vd.decls[0];
            match &d0.ann {
                None => Err(Fatal::VarWithoutAnn { span: d0.span }),
                Some(a) => {
                    match find_name(&m.vars, &d0.name) {
                        Some(_) => Err(Fatal::DuplicateName { name: d0.name.clone() }),
                        None => {
                            let ghost before = m.vars;
                            let ty = validate_ann(a);
                            m.vars.push(Member { name: d0.name.clone(), ty });
                            proof {
                                lemma_push_entry(
                                    before,
                                    m.vars,
                                    MemberV { name: d0.name@, ty: ann_ty(*a) },
                                );
                                assert(m@ =~= MergedV {
                                    vars: members_view(before).push(
                                        MemberV { name: d0.name@, ty: ann_ty(*a) },
                                    ),
                                    ..old(m)@
                                });
                            }
                            Ok(())
                        },
                    }
                },
            }
        },
        Decl::Fn { span, name, params, ret } => {
            match find_name(&m.types, name) {
                Some(_) => Err(Fatal::DuplicateName { name: name.clone() }),
                None => {
                    let ghost before = m.types;
                    let ps = lower_member_decls(params);
                    let rt = validate_ann_opt(ret);
                    m.types.push(
                        Member { name: name.clone(), ty: Type::Function { params: ps, ret: Box::new(rt) } },
                    );
                    proof {
                        lemma_push_entry(
                            before,
                            m.types,
                            MemberV { name: name@, ty: fn_type_v(*params, *ret) },
                        );
                        lemma_modules_wf_push(
                            members_view(before),
                            MemberV { name: name@, ty: fn_type_v(*params, *ret) },
                        );
                        assert(m@ =~= MergedV {
                            types: members_view(before).push(
                                MemberV { name: name@, ty: fn_type_v(*params, *ret) },
                            ),
                            ..old(m)@
                        });
                    }
                    Ok(())
                },
            }
        },
        Decl::Class { span, name, is_abstract, members, super_class, implements, type_params } => {
            if super_class.is_some() {
                return Err(Fatal::ClassWithSuper { span: *span });
            }
            if implements.len() != 0 {
                return Err(Fatal::ClassWithImplements { span: *span });
            }
            match find_name(&m.types, name) {
                Some(_) => Err(Fatal::DuplicateName { name: name.clone() }),
                None => {
                    let ghost before = m.types;
                    let ms = lower_member_decls(members);
                    let tps = crate::ty::dup_opt_strs(type_params);
                    let ty = Type::Class {
                        name: Some(name.clone()),
                        is_abstract: *is_abstract,
                        members: ms,
                        super_class: None,
                        type_params: tps,
                    };
                    let ghost tyv = ty@;
                    m.types.push(Member { name: name.clone(), ty });
                    proof {
                        lemma_push_entry(before, m.types, MemberV { name: name@, ty: tyv });
                        lemma_modules_wf_push(
                            members_view(before),
                            MemberV { name: name@, ty: tyv },
                        );
                        assert(m@ =~= MergedV {
                            types: members_view(before).push(MemberV { name: name@, ty: tyv }),
                            ..old(m)@
                        });
                    }
                    Ok(())
                },
            }
        },
        Decl::TypeAlias { span, name, ann } => {
            match find_name(&m.types, name) {
                Some(_) => Err(Fatal::DuplicateName { name: name.clone() }),
                None => {
                    let ghost before = m.types;
                    let ty = validate_ann(ann);
                    m.types.push(Member { name: name.clone(), ty });
                    proof {
                        lemma_push_entry(
                            before,
                            m.types,
                            MemberV { name: name@, ty: ann_ty(*ann) },
                        );
                        lemma_modules_wf_push(
                            members_view(before),
                            MemberV { name: name@, ty: ann_ty(*ann) },
                        );
                        lemma_ann_ty_not_module(*ann);
                        assert(m@ =~= MergedV {
                            types: members_view(before).push(
                                MemberV { name: name@, ty: ann_ty(*ann) },
                            ),
                            ..old(m)@
                        });
                    }
                    Ok(())
                },
            }
        },
        Decl::Interface { span, name, members } => {
            match find_name(&m.types, name) {
                None => {
                    let ghost before = m.types;
                    let ms = lower_member_decls(members);
                    let ty = Type::Interface { name: name.clone(), members: ms };
                    let ghost tyv = ty@;
                    m.types.push(Member { name: name.clone(), ty });
                    proof {
                        lemma_push_entry(before, m.types, MemberV { name: name@, ty: tyv });
                        lemma_modules_wf_push(
                            members_view(before),
                            MemberV { name: name@, ty: tyv },
                        );
                        assert(m@ =~= MergedV {
                            types: members_view(before).push(MemberV { name: name@, ty: tyv }),
                            ..old(m)@
                        });
                    }
                    Ok(())
                },
                Some(i) => {
                    let ghost before = m.types;
                    let entry = m.types.remove(i);
                    let Member { name: ename, ty: ety } = entry;
                    match ety {
                        Type::Interface { name: iname, members: imembers } => {
                            let mut imembers = imembers;
                            let mut new_ms = lower_member_decls(members);
                            let ghost old_im = imembers;
                            let ghost new_msv = new_ms;
                            imembers.append(&mut new_ms);
                            proof {
                                lemma_members_view(old_im);
                                lemma_members_view(new_msv);
                                lemma_members_view(imembers);
                                assert(members_view(imembers) =~= members_view(old_im)
                                    + member_decls_v(*members));
                            }
                            let ghost tgt = TypeV::Interface {
                                name: iname@,
                                members: members_view(old_im) + member_decls_v(*members),
                            };
                            let rebuilt = Member {
                                name: ename,
                                ty: Type::Interface { name: iname, members: imembers },
                            };
                            proof {
                                assert(rebuilt@ == MemberV { name: name@, ty: tgt });
                            }
                            m.types.insert(i, rebuilt);
                            proof {
                                lemma_members_view(before);
                                assert(members_view(before)[i as int].name == name@);
                                assert(m.types@ =~= before@.update(
                                    i as int,
                                    m.types@[i as int],
                                ));
                                lemma_set_entry(
                                    before,
                                    m.types,
                                    i as int,
                                    MemberV { name: name@, ty: tgt },
                                );
                                lemma_modules_wf_set(members_view(before), name@, tgt);
                                assert(m@ =~= MergedV {
                                    types: assoc_set(members_view(before), name@, tgt),
                                    ..old(m)@
                                });
                            }
                            Ok(())
                        },
                        other => {
                            m.types.insert(i, Member { name: ename, ty: other });
                            Err(Fatal::MergeIntoNonInterface { name: name.clone() })
                        },
                    }
                },
            }
        },
        Decl::Namespace { span, name, body } => {
            match find_name(&m.types, name) {
                None => {
                    let ghost before = m.types;
                    let empty_exports: Vec<Member> = Vec::new();
                    proof {
                        assert(members_view(empty_exports) =~= Seq::<MemberV>::empty());
                    }
                    let ex = build_exports(empty_exports, body);
                    let ty = Type::Module { exports: ex };
                    let ghost tyv = ty@;
                    m.types.push(Member { name: name.clone(), ty });
                    proof {
                        lemma_push_entry(before, m.types, MemberV { name: name@, ty: tyv });
                        lemma_modules_wf_push(
                            members_view(before),
                            MemberV { name: name@, ty: tyv },
                        );
                        assert(m@ =~= MergedV {
                            types: members_view(before).push(MemberV { name: name@, ty: tyv }),
                            ..old(m)@
                        });
                    }
                    Ok(())
                },
                Some(i) => {
                    let ghost before = m.types;
                    let entry = m.types.remove(i);
                    let Member { name: ename, ty: ety } = entry;
                    match ety {
                        Type::Module { exports } => {
                            let ghost old_ex = exports;
                            proof {
                                lemma_members_view(before);
                                assert(members_view(before)[i as int].ty == TypeV::Module {
                                    exports: members_view(old_ex),
                                });
                                assert(unique_names(members_view(old_ex)));
                            }
                            let ex = build_exports(exports, body);
                            let ghost tgt = TypeV::Module {
                                exports: exports_merge(members_view(old_ex), body@),
                            };
                            let rebuilt = Member { name: ename, ty: Type::Module { exports: ex } };
                            proof {
                                assert(rebuilt@ == MemberV { name: name@, ty: tgt });
                            }
                            m.types.insert(i, rebuilt);
                            proof {
                                lemma_members_view(before);
                                assert(members_view(before)[i as int].name == name@);
                                assert(m.types@ =~= before@.update(
                                    i as int,
                                    m.types@[i as int],
                                ));
                                lemma_set_entry(
                                    before,
                                    m.types,
                                    i as int,
                                    MemberV { name: name@, ty: tgt },
                                );
                                lemma_modules_wf_set(members_view(before), name@, tgt);
                                assert(m@ =~= MergedV {
                                    types: assoc_set(members_view(before), name@, tgt),
                                    ..old(m)@
                                });
                            }
                            Ok(())
                        },
                        other => {
                            m.types.insert(i, Member { name: ename, ty: other });
                            Err(Fatal::MergeIntoNonModule { name: name.clone() })
                        },
                    }
                },
            }
        },
    }
}

/// Merges one top-level statement: only declarations may appear in a
/// builtin library file.
fn merge_stmt(m: &mut Merged, s: &Stmt) -> (r: Result<(), Fatal>)
    requires
        merged_wf(old(m)@),
    ensures
        r is Ok ==> merge_stmt_spec(old(m)@, *s) == Ok::<MergedV, FatalV>(final(m)@)
            && merged_wf(final(m)@),
        r matches Err(f) ==> merge_stmt_spec(old(m)@, *s) == Err::<MergedV, FatalV>(f@),
{
    match s {
        Stmt::Decl(d) => merge_decl(m, d),
        Stmt::ForIn { span, left, right } => Err(Fatal::UnexpectedTopLevel { span: *span }),
        Stmt::ForOf { span, left, right } => Err(Fatal::UnexpectedTopLevel { span: *span }),
        Stmt::Empty(span) => Err(Fatal::UnexpectedTopLevel { span: *span }),
    }
}

/// Carries a possibly failed partial merge through the remaining files.
pub open spec fn merge_cont(
    acc: Result<MergedV, FatalV>,
    files: Seq<LibFile>,
) -> Result<MergedV, FatalV> {
    match acc {
        Err(e) => Err(e),
        Ok(mm) => merge_files_spec(mm, files),
    }
}

/// Merges the top-level declarations of the requested library files, in
/// file order, into one flat environment; the first defect of the corpus
/// aborts the merge.
pub fn merge(files: &Vec<LibFile>) -> (r: Result<Merged, Fatal>)
    ensures
        r matches Ok(m) ==> merge_spec(files@) == Ok::<MergedV, FatalV>(m@) && merged_wf(m@),
        r matches Err(f) ==> merge_spec(files@) == Err::<MergedV, FatalV>(f@),
{
    let mut m = Merged { vars: Vec::new(), types: Vec::new() };
    proof {
        assert(members_view(m.vars) =~= Seq::<MemberV>::empty());
        assert(members_view(m.types) =~= Seq::<MemberV>::empty());
        assert(m@ =~= empty_merged());
        assert(files@.skip(0) =~= files@);
    }
    let nf = files.len();
    let mut i: usize = 0;
    while i < nf
        invariant
            nf == files@.len(),
            0 <= i <= nf,
            merged_wf(m@),
            merge_files_spec(m@, files@.skip(i as int)) == merge_spec(files@),
        decreases nf - i,
    {
        proof {
            assert(files@.skip(i as int)[0] == files@[i as int]);
            assert(files@.skip(i as int).drop_first() =~= files@.skip(i as int + 1));
            assert(files@[i as int].body@.skip(0) =~= files@[i as int].body@);
        }
        let nb = files[i].body.len();
        let mut j: usize = 0;
        while j < nb
            invariant
                nf == files@.len(),
                0 <= i < nf,
                nb == files@[i as int].body@.len(),
                0 <= j <= nb,
                merged_wf(m@),
                merge_cont(
                    merge_stmts_spec(m@, files@[i as int].body@.skip(j as int)),
                    files@.skip(i as int + 1),
                ) == merge_spec(files@),
            decreases nb - j,
        {
            let ghost mv0 = m@;
            let st = &files[i].body[j];
            let res = merge_stmt(&mut m, st);
            proof {
                let body = files@[i as int].body@;
                assert(body.skip(j as int)[0] == body[j as int]);
                assert(body.skip(j as int).drop_first() =~= body.skip(j as int + 1));
            }
            match res {
                Ok(()) => {
                    j += 1;
                },
                Err(f) => {
                    return Err(f);
                },
            }
        }
        proof {
            assert(files@[i as int].body@.skip(nb as int) =~= Seq::<Stmt>::empty());
        }
        i += 1;
    }
    proof {
        assert(files@.skip(nf as int) =~= Seq::<LibFile>::empty());
    }
    Ok(m)
}

// ---------------------------------------------------------------------
// The frozen environment and the process-wide cache.
// ---------------------------------------------------------------------

/// One name bound to a shared, never-mutated type.
pub struct Binding {
    pub name: String,
    pub ty: Rc<Type>,
}

/// Element-wise view of a frozen environment map.
pub open spec fn bindings_view(bs: Vec<Binding>) -> Seq<MemberV> {
    Seq::new(bs@.len(), |i: int| MemberV { name: bs@[i].name@, ty: bs@[i].ty@ })
}

/// A merged builtin environment after the merge completed: write-once,
/// shared by every analyzer run that requested the same library set, and
/// read-only from then on.
pub struct BuiltinEnv {
    pub vars: Vec<Binding>,
    pub types: Vec<Binding>,
}

impl View for BuiltinEnv {
    type V = MergedV;

    open spec fn view(&self) -> MergedV {
        MergedV { vars: bindings_view(self.vars), types: bindings_view(self.types) }
    }
}

/// Freezes one owned map into shared bindings, keeping content and order.
fn freeze_members(ms: Vec<Member>) -> (bs: Vec<Binding>)
    ensures
        bindings_view(bs) == members_view(ms),
{
    let ghost orig = ms;
    proof {
        lemma_members_view(orig);
        assert(orig@.take(orig@.len() as int) =~= orig@);
    }
    let olen = ms.len();
    let mut rest = ms;
    let mut rev: Vec<Binding> = Vec::new();
    while rest.len() > 0
        invariant
            olen == orig@.len(),
            rest@ == orig@.take(rest@.len() as int),
            rev@.len() + rest@.len() == olen,
            forall|j: int|
                0 <= j < rev@.len() ==> (MemberV {
                    name: #[trigger] rev@[j].name@,
                    ty: rev@[j].ty@,
                }) == member_view(orig@[olen - 1 - j]),
        decreases rest@.len(),
    {
        let ghost k = rest@.len() as int;
        let mb = rest.pop().unwrap();
        proof {
            assert(mb == orig@.take(k)[k - 1]);
            assert(rest@ =~= orig@.take(k - 1));
        }
        rev.push(Binding { name: mb.name, ty: Rc::new(mb.ty) });
    }
    let mut out: Vec<Binding> = Vec::new();
    while rev.len() > 0
        invariant
            olen == orig@.len(),
            out@.len() + rev@.len() == olen,
            forall|j: int|
                0 <= j < rev@.len() ==> (MemberV {
                    name: #[trigger] rev@[j].name@,
                    ty: rev@[j].ty@,
                }) == member_view(orig@[olen - 1 - j]),
            forall|j: int|
                0 <= j < out@.len() ==> (MemberV {
                    name: #[trigger] out@[j].name@,
                    ty: out@[j].ty@,
                }) == member_view(orig@[j]),
        decreases rev@.len(),
    {
        let b = rev.pop().unwrap();
        out.push(b);
    }
    proof {
        lemma_members_view(orig);
        assert(bindings_view(out) =~= members_view(orig));
    }
    out
}

/// Freezes a finished merge into the shared, read-only environment form.
pub fn freeze(m: Merged) -> (env: BuiltinEnv)
    ensures
        env@ == m@,
{
    let ghost mv = m@;
    let env = BuiltinEnv { vars: freeze_members(m.vars), types: freeze_members(m.types) };
    proof {
        assert(env@ =~= mv);
    }
    env
}

/// One computed environment, stored under the exact ordered key that
/// requested it.
pub struct CacheEntry {
    pub key: Vec<Lib>,
    pub env: Rc<BuiltinEnv>,
}

/// The process-wide cache of merged builtin environments: at most one
/// merge per distinct ordered key, shared forever after.
pub struct BuiltinCache {
    pub entries: Vec<CacheEntry>,
}

/// First environment stored under `key`, if any.
pub open spec fn cache_find(entries: Seq<CacheEntry>, key: Seq<Lib>) -> Option<Rc<BuiltinEnv>>
    decreases entries.len(),
{
    if entries.len() == 0 {
        None
    } else if entries[0].key@ == key {
        Some(entries[0].env)
    } else {
        cache_find(entries.drop_first(), key)
    }
}

/// A scan that skips keys that do not match finds whatever the suffix
/// finds.
pub proof fn lemma_cache_find_skip(entries: Seq<CacheEntry>, key: Seq<Lib>, i: int)
    requires
        0 <= i <= entries.len(),
        forall|j: int| 0 <= j < i ==> entries[j].key@ != key,
    ensures
        cache_find(entries, key) == cache_find(entries.skip(i), key),
    decreases i,
{
    if i > 0 {
        lemma_cache_find_skip(entries, key, i - 1);
        assert(entries.skip(i - 1).drop_first() =~= entries.skip(i));
        assert(entries.skip(i - 1)[0] == entries[i - 1]);
    } else {
        assert(entries.skip(0) =~= entries);
    }
}

/// Decides equality of two ordered library-set keys.
pub fn lib_key_eq(a: &Vec<Lib>, b: &Vec<Lib>) -> (r: bool)
    ensures
        r == (a@ == b@),
{
    if a.len() != b.len() {
        return false;
    }
    let n = a.len();
    let mut i: usize = 0;
    while i < n
        invariant
            n == a@.len(),
            n == b@.len(),
            0 <= i <= n,
            forall|j: int| 0 <= j < i ==> a@[j] == b@[j],
        decreases n - i,
    {
        if !(a[i] == b[i]) {
            return false;
        }
        i += 1;
    }
    proof {
        assert(a@ =~= b@);
    }
    true
}

/// Copies an ordered library-set key.
fn dup_libs(libs: &Vec<Lib>) -> (r: Vec<Lib>)
    ensures
        r@ == libs@,
{
    let mut out: Vec<Lib> = Vec::new();
    let n = libs.len();
    let mut i: usize = 0;
    while i < n
        invariant
            n == libs@.len(),
            0 <= i <= n,
            out@.len() == i,
            forall|j: int| 0 <= j < i ==> out@[j] == libs@[j],
        decreases n - i,
    {
        out.push(libs[i]);
        i += 1;
    }
    proof {
        assert(out@ =~= libs@);
    }
    out
}

/// What one `environment_for` call does to the cache: a hit returns the
/// stored environment unchanged; the first request for a key merges the
/// supplied files, stores the result under that key, and returns it; a
/// corrupt corpus leaves the cache unchanged and reports the defect.
pub open spec fn env_for_post(
    pre: BuiltinCache,
    post: BuiltinCache,
    libs: Seq<Lib>,
    files: Seq<LibFile>,
    r: Result<Rc<BuiltinEnv>, Fatal>,
) -> bool {
    match cache_find(pre.entries@, libs) {
        Some(env) => r == Ok::<Rc<BuiltinEnv>, Fatal>(env) && post == pre,
        None => match merge_spec(files) {
            Ok(mv) => {
                &&& r matches Ok(env) && env@ == mv && merged_wf(env@)
                &&& post.entries@.len() == pre.entries@.len() + 1
                &&& forall|j: int|
                    0 <= j < pre.entries@.len() ==> post.entries@[j] == pre.entries@[j]
                &&& post.entries@.last().key@ == libs
                &&& (r matches Ok(env) && post.entries@.last().env == env)
            },
            Err(fv) => (r matches Err(f) && f@ == fv) && post == pre,
        },
    }
}

impl BuiltinCache {
    /// An empty cache: no key has been requested yet.
    pub fn new() -> (c: BuiltinCache)
        ensures
            c.entries@.len() == 0,
    {
        BuiltinCache { entries: Vec::new() }
    }

    /// Returns the environment for the exact ordered library set `libs`,
    /// computing and caching it from the loaded `files` on the first
    /// request for that key and retrieving the stored result afterwards.
    pub fn environment_for(&mut self, libs: &Vec<Lib>, files: &Vec<LibFile>) -> (r: Result<
        Rc<BuiltinEnv>,
        Fatal,
    >)
        requires
            old(self).entries@.len() < usize::MAX,
            libs@.len() > 0,
        ensures
            env_for_post(*old(self), *final(self), libs@, files@, r),
    {
        let n = self.entries.len();
        let mut i: usize = 0;
        while i < n
            invariant
                n == self.entries@.len(),
                0 <= i <= n,
                *self == *old(self),
                forall|j: int| 0 <= j < i ==> self.entries@[j].key@ != libs@,
            decreases n - i,
        {
            if lib_key_eq(&self.entries[i].key, libs) {
                proof {
                    lemma_cache_find_skip(self.entries@, libs@, i as int);
                    assert(self.entries@.skip(i as int)[0] == self.entries@[i as int]);
                }
                return Ok(rc_dup(&self.entries[i].env));
            }
            i += 1;
        }
        proof {
            lemma_cache_find_skip(self.entries@, libs@, n as int);
            assert(self.entries@.skip(n as int) =~= Seq::<CacheEntry>::empty());
        }
        match merge(files) {
            Err(f) => Err(f),
            Ok(m) => {
                let env = Rc::new(freeze(m));
                let key = dup_libs(libs);
                self.entries.push(CacheEntry { key, env: rc_dup(&env) });
                Ok(env)
            },
        }
    }
}

// ---------------------------------------------------------------------
// Builtin lookups.
// ---------------------------------------------------------------------

/// Linear scan of a frozen environment map.
pub fn find_binding(bs: &Vec<Binding>, name: &String) -> (r: Option<usize>)
    ensures
        match r {
            Some(i) => {
                &&& 0 <= i < bs@.len()
                &&& bs@[i as int].name@ == name@
                &&& assoc_find(bindings_view(*bs), name@) == Some(bs@[i as int].ty@)
            },
            None => assoc_find(bindings_view(*bs), name@) is None,
        },
{
    let n = bs.len();
    let mut i: usize = 0;
    while i < n
        invariant
            n == bs@.len(),
            0 <= i <= n,
            forall|j: int| 0 <= j < i ==> bs@[j].name@ != name@,
        decreases n - i,
    {
        if bs[i].name == *name {
            proof {
                let sv = bindings_view(*bs);
                lemma_assoc_find_skip(sv, name@, i as int);
                assert(sv.skip(i as int)[0] == sv[i as int]);
            }
            return Some(i);
        }
        i += 1;
    }
    proof {
        let sv = bindings_view(*bs);
        lemma_assoc_find_skip(sv, name@, n as int);
        assert(sv.skip(n as int) =~= Seq::<MemberV>::empty());
    }
    None
}


/// Resolves a builtin global variable's type: a shared handle into the
/// environment, or a typed "not found" the caller can recover from.
pub fn get_var(env: &BuiltinEnv, span: Span, name: &String) -> (r: Result<Type, Error>)
    ensures
        match r {
            Ok(t) => assoc_find(env@.vars, name@) matches Some(tv) && t@ == TypeV::Static(
                Box::new(tv),
            ),
            Err(e) => assoc_find(env@.vars, name@) is None && e@
                == crate::diag::ErrorV::NoSuchVar { span, name: name@ },
        },
{
    match find_binding(&env.vars, name) {
        Some(i) => Ok(Type::Static(rc_dup(&env.vars[i].ty))),
        None => Err(Error::NoSuchVar { span, name: name.clone() }),
    }
}

/// Resolves a builtin global type, in the same way as [`get_var`].
pub fn get_type(env: &BuiltinEnv, span: Span, name: &String) -> (r: Result<Type, Error>)
    ensures
        match r {
            Ok(t) => assoc_find(env@.types, name@) matches Some(tv) && t@ == TypeV::Static(
                Box::new(tv),
            ),
            Err(e) => assoc_find(env@.types, name@) is None && e@
                == crate::diag::ErrorV::NoSuchType { span, name: name@ },
        },
{
    match find_binding(&env.types, name) {
        Some(i) => Ok(Type::Static(rc_dup(&env.types[i].ty))),
        None => Err(Error::NoSuchType { span, name: name.clone() }),
    }
}

} // verus!
