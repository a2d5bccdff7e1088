//! The structural assignability engine.
//!
//! [`is_assignable`] is the single chokepoint through which every
//! compatibility question in the analyzer flows: "can a value of the source
//! type be used where the target type is expected."  An `Array` target is
//! satisfied by an array source whose element type is assignable,
//! recursively; a `Static` handle is transparently unwrapped one level
//! before comparison; everything else is compared by structural value
//! equality.

use crate::ty::{
    lemma_members_view, members_view, opt_str_view, opt_strs_view, strs_view, Member, MemberV,
    Type, TypeV,
};
use vstd::prelude::*;

verus! {

broadcast use vstd::std_specs::vec::axiom_vec_index_decreases;

/// Strip one level of `Static` indirection.
pub open spec fn unwrap_static(t: TypeV) -> TypeV {
    match t {
        TypeV::Static(inner) => *inner,
        _ => t,
    }
}

/// Structural assignability: may a value of type `source` stand in for
/// the type `target`?
pub open spec fn assignable(target: TypeV, source: TypeV) -> bool
    decreases target,
    when true
    via assignable_dec
{
    match (unwrap_static(target), unwrap_static(source)) {
        (TypeV::Array(te), TypeV::Array(se)) => assignable(*te, *se),
        (t, s) => t == s,
    }
}

#[via_fn]
proof fn assignable_dec(target: TypeV, source: TypeV) {
    match target {
        TypeV::Static(b) => {
            assert(decreases_to!(target => *b));
            match *b {
                TypeV::Array(e) => {
                    assert(decreases_to!(*b => *e));
                },
                _ => {},
            }
        },
        TypeV::Array(e) => {
            assert(decreases_to!(target => *e));
        },
        _ => {},
    }
}

/// Decides structural value equality of two types, at the level of their
/// mathematical views.
pub fn type_eq(a: &Type, b: &Type) -> (r: bool)
    ensures
        r == (a@ == b@),
    decreases *a, 1int,
{
    match (a, b) {
        (Type::Keyword(x), Type::Keyword(y)) => *x == *y,
        (Type::Ref(x), Type::Ref(y)) => *x == *y,
        (Type::Array(x), Type::Array(y)) => type_eq(x, y),
        (
            Type::Function { params: p1, ret: r1 },
            Type::Function { params: p2, ret: r2 },
        ) => {
            if member_list_eq(p1, p2) {
                type_eq(r1, r2)
            } else {
                false
            }
        },
        (
            Type::Class {
                name: n1,
                is_abstract: a1,
                members: m1,
                super_class: s1,
                type_params: t1,
            },
            Type::Class {
                name: n2,
                is_abstract: a2,
                members: m2,
                super_class: s2,
                type_params: t2,
            },
        ) => {
            if !opt_str_eq(n1, n2) {
                return false;
            }
            if *a1 != *a2 {
                return false;
            }
            if !member_list_eq(m1, m2) {
                return false;
            }
            let supers_eq = match (s1, s2) {
                (Some(x), Some(y)) => type_eq(x, y),
                (None, None) => true,
                _ => false,
            };
            if !supers_eq {
                return false;
            }
            opt_str_list_eq(t1, t2)
        },
        (
            Type::Interface { name: n1, members: m1 },
            Type::Interface { name: n2, members: m2 },
        ) => {
            if *n1 == *n2 {
                member_list_eq(m1, m2)
            } else {
                false
            }
        },
        (Type::Module { exports: e1 }, Type::Module { exports: e2 }) => member_list_eq(e1, e2),
        (Type::Static(x), Type::Static(y)) => type_eq(x, y),
        _ => false,
    }
}

/// Decides equality of two member lists, element by element.
pub fn member_list_eq(xs: &Vec<Member>, ys: &Vec<Member>) -> (r: bool)
    ensures
        r == (members_view(*xs) == members_view(*ys)),
    decreases *xs, 0int,
{
    proof {
        lemma_members_view(*xs);
        lemma_members_view(*ys);
    }
    if xs.len() != ys.len() {
        return false;
    }
    let n = xs.len();
    let mut i: usize = 0;
    while i < n
        invariant
            n == xs@.len(),
            n == ys@.len(),
            0 <= i <= n,
            forall|j: int| 0 <= j < i ==> xs@[j]@ == ys@[j]@,
            members_view(*xs).len() == n,
            members_view(*ys).len() == n,
            forall|j: int| 0 <= j < n ==> members_view(*xs)[j] == xs@[j]@,
            forall|j: int| 0 <= j < n ==> members_view(*ys)[j] == ys@[j]@,
        decreases n - i,
    {
        let x = &xs[i];
        let y = &ys[i];
        proof {
            assert(xs@[i as int]@ == MemberV { name: xs@[i as int].name@, ty: xs@[i as int].ty@ });
            assert(ys@[i as int]@ == MemberV { name: ys@[i as int].name@, ty: ys@[i as int].ty@ });
        }
        if !(x.name == y.name) {
            proof {
                assert(members_view(*xs)[i as int] != members_view(*ys)[i as int]);
            }
            return false;
        }
        proof {
            assert(decreases_to!(*xs => xs@[i as int]));
        }
        if !type_eq(&x.ty, &y.ty) {
            proof {
                assert(members_view(*xs)[i as int] != members_view(*ys)[i as int]);
            }
            return false;
        }
        proof {
            assert(xs@[i as int]@ =~= ys@[i as int]@);
        }
        i += 1;
    }
    proof {
        assert(members_view(*xs) =~= members_view(*ys));
    }
    true
}

/// Decides equality of two optional identifiers.
pub fn opt_str_eq(a: &Option<String>, b: &Option<String>) -> (r: bool)
    ensures
        r == (opt_str_view(*a) == opt_str_view(*b)),
{
    match (a, b) {
        (Some(x), Some(y)) => *x == *y,
        (None, None) => true,
        _ => false,
    }
}

/// Decides equality of two identifier lists.
pub fn str_list_eq(a: &Vec<String>, b: &Vec<String>) -> (r: bool)
    ensures
        r == (strs_view(*a) == strs_view(*b)),
{
    proof {
        assert(strs_view(*a).len() == a@.len());
        assert(strs_view(*b).len() == b@.len());
    }
    if a.len() != b.len() {
        return false;
    }
    let n = a.len();
    let mut i: usize = 0;
    while i < n
        invariant
            n == a@.len(),
            n == b@.len(),
            0 <= i <= n,
            forall|j: int| 0 <= j < i ==> a@[j]@ == b@[j]@,
        decreases n - i,
    {
        if !(a[i] == b[i]) {
            proof {
                assert(strs_view(*a)[i as int] == a@[i as int]@);
                assert(strs_view(*b)[i as int] == b@[i as int]@);
            }
            return false;
        }
        i += 1;
    }
    proof {
        assert(strs_view(*a) =~= strs_view(*b));
    }
    true
}

/// Decides equality of two optional identifier lists.
pub fn opt_str_list_eq(a: &Option<Vec<String>>, b: &Option<Vec<String>>) -> (r: bool)
    ensures
        r == (opt_strs_view(*a) == opt_strs_view(*b)),
{
    match (a, b) {
        (Some(x), Some(y)) => str_list_eq(x, y),
        (None, None) => true,
        _ => false,
    }
}

/// Decides [`assignable`] on executable types.
pub fn is_assignable(target: &Type, source: &Type) -> (r: bool)
    ensures
        r == assignable(target@, source@),
    decreases *target,
{
    let tu: &Type = match target {
        Type::Static(inner) => &**inner,
        _ => target,
    };
    let su: &Type = match source {
        Type::Static(inner) => &**inner,
        _ => source,
    };
    proof {
        assert(tu@ == unwrap_static(target@));
        assert(su@ == unwrap_static(source@));
    }
    match (tu, su) {
        (Type::Array(te), Type::Array(se)) => {
            proof {
                match target {
                    Type::Static(b) => {
                        assert(decreases_to!(*target => **b));
                        assert(decreases_to!(**b => **te));
                    },
                    _ => {
                        assert(decreases_to!(*target => **te));
                    },
                }
            }
            is_assignable(te, se)
        },
        _ => type_eq(tu, su),
    }
}

} // verus!
