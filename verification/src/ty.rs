//! The structural type model: an immutable tagged representation of types.
//!
//! Values of [`Type`] are built once and shared afterwards.  Most of the tree
//! is owned (`Box`, `Vec`); the one deliberate exception is [`Type::Static`],
//! an identity-preserving handle to a type that lives in the builtin
//! environment and outlives every analysis run.
//!
//! Contracts over types are stated against the mathematical mirror
//! [`TypeV`], reached through `@`.

use std::rc::Rc;
use vstd::prelude::*;

verus! {

broadcast use vstd::std_specs::vec::axiom_vec_index_decreases;

/// Primitive keyword types.  `Unknown` doubles as the best-effort
/// placeholder substituted when a handler recovers from a diagnostic.
#[derive(Clone, Copy, PartialEq, Eq, Structural, Debug)]
pub enum Kw {
    Any,
    Unknown,
    Never,
    Void,
    Str,
    Number,
    Boolean,
}

/// A named member signature of a class or interface, and also a named
/// export of a module and a named parameter of a callable type.
pub struct Member {
    pub name: String,
    pub ty: Type,
}

/// A structural type.  Compared structurally, never by identity, except
/// `Static`, which is a shared handle into the builtin cache.
pub enum Type {
    /// A primitive keyword type.
    Keyword(Kw),
    /// A reference to a named type, left unresolved.
    Ref(String),
    /// An array type with an owned element type.
    Array(Box<Type>),
    /// A callable type.
    Function { params: Vec<Member>, ret: Box<Type> },
    /// A class type.
    Class {
        name: Option<String>,
        is_abstract: bool,
        members: Vec<Member>,
        super_class: Option<Box<Type>>,
        type_params: Option<Vec<String>>,
    },
    /// An interface type; duplicate declarations merge their members.
    Interface { name: String, members: Vec<Member> },
    /// A namespace/module type: a map from exported name to type.
    Module { exports: Vec<Member> },
    /// A long-lived reference into the builtin environment.
    Static(Rc<Type>),
}

/// Mathematical mirror of [`Member`].
#[verifier::ext_equal]
pub struct MemberV {
    pub name: Seq<char>,
    pub ty: TypeV,
}

/// Mathematical mirror of [`Type`].
#[verifier::ext_equal]
pub enum TypeV {
    Keyword(Kw),
    Ref(Seq<char>),
    Array(Box<TypeV>),
    Function { params: Seq<MemberV>, ret: Box<TypeV> },
    Class {
        name: Option<Seq<char>>,
        is_abstract: bool,
        members: Seq<MemberV>,
        super_class: Option<Box<TypeV>>,
        type_params: Option<Seq<Seq<char>>>,
    },
    Interface { name: Seq<char>, members: Seq<MemberV> },
    Module { exports: Seq<MemberV> },
    Static(Box<TypeV>),
}

/// View of an optional identifier.
pub open spec fn opt_str_view(o: Option<String>) -> Option<Seq<char>> {
    match o {
        Some(n) => Some(n@),
        None => None,
    }
}

/// Element-wise view of an identifier list.
pub open spec fn strs_view(ss: Vec<String>) -> Seq<Seq<char>> {
    Seq::new(ss@.len(), |i: int| ss@[i]@)
}

/// View of an optional identifier list.
pub open spec fn opt_strs_view(o: Option<Vec<String>>) -> Option<Seq<Seq<char>>> {
    match o {
        Some(ss) => Some(strs_view(ss)),
        None => None,
    }
}

pub open spec fn type_view(t: Type) -> TypeV
    decreases t, 0int,
{
    match t {
        Type::Keyword(k) => TypeV::Keyword(k),
        Type::Ref(n) => TypeV::Ref(n@),
        Type::Array(e) => TypeV::Array(Box::new(type_view(*e))),
        Type::Function { params, ret } => TypeV::Function {
            params: members_view_to(params, params@.len() as int),
            ret: Box::new(type_view(*ret)),
        },
        Type::Class { name, is_abstract, members, super_class, type_params } => TypeV::Class {
            name: opt_str_view(name),
            is_abstract,
            members: members_view_to(members, members@.len() as int),
            super_class: match super_class {
                Some(s) => Some(Box::new(type_view(*s))),
                None => None,
            },
            type_params: opt_strs_view(type_params),
        },
        Type::Interface { name, members } => TypeV::Interface {
            name: name@,
            members: members_view_to(members, members@.len() as int),
        },
        Type::Module { exports } => TypeV::Module {
            exports: members_view_to(exports, exports@.len() as int),
        },
        Type::Static(s) => TypeV::Static(Box::new(type_view(*s))),
    }
}

pub open spec fn member_view(m: Member) -> MemberV
    decreases m, 0int,
{
    MemberV { name: m.name@, ty: type_view(m.ty) }
}

/// The views of the first `n` entries of `ms`, in order.
pub open spec fn members_view_to(ms: Vec<Member>, n: int) -> Seq<MemberV>
    decreases ms, n,
    when 0 <= n <= ms@.len()
    via members_view_to_dec
{
    if n <= 0 {
        Seq::empty()
    } else {
        members_view_to(ms, n - 1).push(member_view(ms@[n - 1]))
    }
}

#[via_fn]
proof fn members_view_to_dec(ms: Vec<Member>, n: int) {
    if 0 < n <= ms@.len() {
        assert(decreases_to!(ms => ms@[n - 1]));
    }
}

impl View for Member {
    type V = MemberV;

    open spec fn view(&self) -> MemberV {
        member_view(*self)
    }
}

impl View for Type {
    type V = TypeV;

    open spec fn view(&self) -> TypeV {
        type_view(*self)
    }
}

/// The view of a whole member list.
pub open spec fn members_view(ms: Vec<Member>) -> Seq<MemberV> {
    members_view_to(ms, ms@.len() as int)
}

pub proof fn lemma_members_view_to(ms: Vec<Member>, n: int)
    requires
        0 <= n <= ms@.len(),
    ensures
        members_view_to(ms, n).len() == n,
        forall|i: int| 0 <= i < n ==> members_view_to(ms, n)[i] == member_view(ms@[i]),
    decreases n,
{
    if n > 0 {
        lemma_members_view_to(ms, n - 1);
    }
}

/// Hands out one more handle to a shared type.
///
/// Relies on std's `Rc::clone`: the returned handle points to the very
/// same allocation, so it carries the same value.
#[verifier::external_body]
pub fn rc_dup<T>(rc: &Rc<T>) -> (r: Rc<T>)
    ensures
        r == *rc,
{
    Rc::clone(rc)
}

/// The member-list view is the element-wise view.
pub proof fn lemma_members_view(ms: Vec<Member>)
    ensures
        members_view(ms).len() == ms@.len(),
        forall|i: int| 0 <= i < ms@.len() ==> members_view(ms)[i] == member_view(ms@[i]),
{
    lemma_members_view_to(ms, ms@.len() as int);
}

/// Copies an optional type-parameter list, preserving its view.
pub fn dup_opt_strs(o: &Option<Vec<String>>) -> (r: Option<Vec<String>>)
    ensures
        opt_strs_view(r) == opt_strs_view(*o),
{
    match o {
        None => None,
        Some(ss) => {
            let mut out: Vec<String> = Vec::new();
            let n = ss.len();
            let mut i: usize = 0;
            while i < n
                invariant
                    n == ss@.len(),
                    0 <= i <= n,
                    out@.len() == i,
                    forall|j: int| 0 <= j < i ==> out@[j]@ == ss@[j]@,
                decreases n - i,
            {
                out.push(ss[i].clone());
                i += 1;
            }
            proof {
                assert(strs_view(out) =~= strs_view(*ss));
            }
            Some(out)
        },
    }
}

/// Deep copy of a type: the copy has the same mathematical view.  This
/// stands in for `Clone`, whose derived implementation Verus would know
/// nothing about.
pub fn dup(t: &Type) -> (r: Type)
    ensures
        r@ == t@,
    decreases *t, 1int,
{
    match t {
        Type::Keyword(k) => Type::Keyword(*k),
        Type::Ref(n) => Type::Ref(n.clone()),
        Type::Array(e) => Type::Array(Box::new(dup(e))),
        Type::Function { params, ret } => Type::Function {
            params: dup_members(params),
            ret: Box::new(dup(ret)),
        },
        Type::Class { name, is_abstract, members, super_class, type_params } => {
            let new_name = match name {
                Some(n) => Some(n.clone()),
                None => None,
            };
            let new_super = match super_class {
                Some(sc) => Some(Box::new(dup(sc))),
                None => None,
            };
            Type::Class {
                name: new_name,
                is_abstract: *is_abstract,
                members: dup_members(members),
                super_class: new_super,
                type_params: dup_opt_strs(type_params),
            }
        },
        Type::Interface { name, members } => Type::Interface {
            name: name.clone(),
            members: dup_members(members),
        },
        Type::Module { exports } => Type::Module { exports: dup_members(exports) },
        Type::Static(inner) => Type::Static(rc_dup(inner)),
    }
}

/// Deep copy of a member list, preserving its view.
pub fn dup_members(ms: &Vec<Member>) -> (r: Vec<Member>)
    ensures
        members_view(r) == members_view(*ms),
    decreases *ms, 0int,
{
    proof {
        lemma_members_view(*ms);
    }
    let mut out: Vec<Member> = Vec::new();
    let n = ms.len();
    let mut i: usize = 0;
    while i < n
        invariant
            n == ms@.len(),
            0 <= i <= n,
            out@.len() == i,
            forall|j: int| 0 <= j < i ==> out@[j]@ == ms@[j]@,
        decreases n - i,
    {
        let x = &ms[i];
        proof {
            assert(decreases_to!(*ms => ms@[i as int]));
        }
        let ty = dup(&x.ty);
        out.push(Member { name: x.name.clone(), ty });
        i += 1;
    }
    proof {
        lemma_members_view(out);
        assert(members_view(out) =~= members_view(*ms));
    }
    out
}

} // verus!
