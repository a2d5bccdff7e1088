use std::rc::Rc;
use ts_checker_core::analyzer::{Analyzer, ScopeKind, TypeOfMode};
use ts_checker_core::assign::is_assignable;
use ts_checker_core::ast::{Expr, ForHead, Lib, LibFile, Pat, Stmt, TypeAnn, VarDecl,
    VarDeclarator};
use ts_checker_core::builtin::{validate_ann, BuiltinCache};
use ts_checker_core::diag::Error;
use ts_checker_core::parser::{Context, Parser};
use ts_checker_core::ty::{Kw, Type};
use ts_checker_core::Span;

fn sp(lo: u32, hi: u32) -> Span {
    Span { lo, hi }
}

fn ident(name: &str) -> Expr {
    Expr::Ident { span: sp(10, 13), name: name.to_string() }
}

fn array_of(elem: Type) -> Type {
    Type::Array(Box::new(elem))
}

fn analyzer_with_arr(elem: Kw) -> Analyzer {
    let mut a = Analyzer::for_builtin();
    a.bind(&"arr".to_string(), Rc::new(array_of(Type::Keyword(elem))));
    a
}

fn for_of(decl_ann: Option<TypeAnn>) -> Stmt {
    Stmt::ForOf {
        span: sp(0, 20),
        left: ForHead::Var(VarDecl {
            span: sp(5, 6),
            decls: vec![VarDeclarator { span: sp(5, 6), name: "x".to_string(), ann: decl_ann }],
        }),
        right: ident("arr"),
    }
}

#[test]
fn for_of_over_matching_array_is_clean() {
    // for (const x of arr) with arr: Array<string> and no declared type on x
    let mut a = analyzer_with_arr(Kw::Str);
    let r = a.validate(&for_of(None));
    assert!(r.is_ok());
    assert_eq!(a.errors.len(), 0);
}

#[test]
fn for_of_with_conflicting_annotation_reports_once_and_continues() {
    // for (const x: number of arr) with arr: Array<string>
    let mut a = analyzer_with_arr(Kw::Str);
    let r = a.validate(&for_of(Some(TypeAnn::Keyword(Kw::Number))));
    assert!(r.is_ok());
    assert_eq!(a.errors.len(), 1);
    assert!(matches!(a.errors[0], Error::NotAssignable { span } if span == sp(5, 6)));
    // analysis of statements after the loop still runs and accumulates
    let r2 = a.validate(&for_of(Some(TypeAnn::Keyword(Kw::Boolean))));
    assert!(r2.is_ok());
    assert_eq!(a.errors.len(), 2);
}

#[test]
fn for_of_with_matching_annotation_is_clean() {
    let mut a = analyzer_with_arr(Kw::Str);
    let r = a.validate(&for_of(Some(TypeAnn::Keyword(Kw::Str))));
    assert!(r.is_ok());
    assert_eq!(a.errors.len(), 0);
}

#[test]
fn for_of_over_non_iterable_reports_not_iterable() {
    let mut a = Analyzer::for_builtin();
    a.bind(&"arr".to_string(), Rc::new(Type::Keyword(Kw::Number)));
    a.validate(&for_of(None)).unwrap();
    assert_eq!(a.errors.len(), 1);
    assert!(matches!(a.errors[0], Error::NotIterable { .. }));
}

#[test]
fn for_in_with_empty_declarator_list_skips_rhs_check() {
    // for (var in obj) with zero declarators: the right-hand side is not
    // validated as an iterable, so an unknown `obj` stays silent here.
    let mut a = Analyzer::for_builtin();
    let s = Stmt::ForIn {
        span: sp(0, 20),
        left: ForHead::Var(VarDecl { span: sp(5, 6), decls: vec![] }),
        right: ident("obj"),
    };
    a.validate(&s).unwrap();
    assert_eq!(a.errors.len(), 0);
    // The same right-hand side with one declarator is validated and misses.
    let s2 = Stmt::ForIn {
        span: sp(0, 20),
        left: ForHead::Var(VarDecl {
            span: sp(5, 6),
            decls: vec![VarDeclarator { span: sp(5, 6), name: "k".to_string(), ann: None }],
        }),
        right: ident("obj"),
    };
    a.validate(&s2).unwrap();
    assert!(a.errors.len() >= 1);
    assert!(matches!(a.errors[0], Error::NoSuchVar { ref name, .. } if name == "obj"));
}

#[test]
fn for_loop_with_unknown_pattern_lhs_reports_no_such_var() {
    let mut a = analyzer_with_arr(Kw::Str);
    let s = Stmt::ForOf {
        span: sp(0, 20),
        left: ForHead::Pat(Pat::Ident { span: sp(5, 6), name: "nope".to_string() }),
        right: ident("arr"),
    };
    a.validate(&s).unwrap();
    assert_eq!(a.errors.len(), 1);
    assert!(matches!(a.errors[0], Error::NoSuchVar { ref name, .. } if name == "nope"));
}

#[test]
fn for_loop_with_expression_lhs_checks_compatibility() {
    let mut a = analyzer_with_arr(Kw::Str);
    a.bind(&"target".to_string(), Rc::new(Type::Keyword(Kw::Str)));
    let s = Stmt::ForOf {
        span: sp(0, 20),
        left: ForHead::Pat(Pat::Expr(Box::new(Expr::Ident {
            span: sp(5, 11),
            name: "target".to_string(),
        }))),
        right: ident("arr"),
    };
    a.validate(&s).unwrap();
    assert_eq!(a.errors.len(), 0);
    a.bind(&"target".to_string(), Rc::new(Type::Keyword(Kw::Number)));
    a.validate(&s).unwrap();
    assert_eq!(a.errors.len(), 1);
    assert!(matches!(a.errors[0], Error::NotAssignable { .. }));
}

#[test]
fn scope_is_restored_on_every_exit_path() {
    // normal completion
    let mut a = analyzer_with_arr(Kw::Str);
    let depth = a.scopes.len();
    a.validate(&for_of(None)).unwrap();
    assert_eq!(a.scopes.len(), depth);
    // completion with a recorded, non-fatal error
    a.validate(&for_of(Some(TypeAnn::Keyword(Kw::Number)))).unwrap();
    assert_eq!(a.scopes.len(), depth);
    assert_eq!(a.errors.len(), 1);
    // the loop variable bound in the popped flow scope is gone
    assert!(a.resolve_var(&"x".to_string()).is_none());
    // and what was bound before is still visible
    assert!(a.resolve_var(&"arr".to_string()).is_some());
}

#[test]
fn shadowing_prefers_inner_binding_and_pop_restores_builtin() {
    let mut cache = BuiltinCache::new();
    let files = vec![LibFile {
        lib: Lib::Es5,
        body: vec![Stmt::Decl(ts_checker_core::ast::Decl::Var(VarDecl {
            span: sp(0, 1),
            decls: vec![VarDeclarator {
                span: sp(0, 1),
                name: "NaN".to_string(),
                ann: Some(TypeAnn::Keyword(Kw::Number)),
            }],
        }))],
    }];
    let env = cache.environment_for(&vec![Lib::Es5], &files).expect("environment");
    let mut a = Analyzer::new(env, vec![Lib::Es5]);
    // the builtin is visible through the fall-through
    match a.resolve_var(&"NaN".to_string()) {
        Some(t) => assert!(matches!(&*t, Type::Static(_))),
        None => panic!("builtin variable must be visible"),
    }
    // an inner binding shadows it
    a.push_child_scope(ScopeKind::Block);
    a.bind(&"NaN".to_string(), Rc::new(Type::Keyword(Kw::Str)));
    match a.resolve_var(&"NaN".to_string()) {
        Some(t) => assert!(matches!(&*t, Type::Keyword(Kw::Str))),
        None => panic!("shadow must be visible"),
    }
    // popping the scope restores the builtin
    a.pop_scope();
    match a.resolve_var(&"NaN".to_string()) {
        Some(t) => assert!(matches!(&*t, Type::Static(_))),
        None => panic!("builtin variable must be visible again"),
    }
}

#[test]
fn validate_expr_resolves_and_misses() {
    let mut a = analyzer_with_arr(Kw::Str);
    assert!(a.validate_expr(&ident("arr"), TypeOfMode::RValue).is_ok());
    match a.validate_expr(&ident("ghostly"), TypeOfMode::LValue) {
        Err(Error::NoSuchVar { name, .. }) => assert_eq!(name, "ghostly"),
        _ => panic!("unresolved identifier must miss"),
    }
}

#[test]
fn assignability_is_structural_and_unwraps_static() {
    let s = Type::Keyword(Kw::Str);
    let arr_s = array_of(Type::Keyword(Kw::Str));
    let arr_n = array_of(Type::Keyword(Kw::Number));
    assert!(is_assignable(&s, &Type::Keyword(Kw::Str)));
    assert!(is_assignable(&arr_s, &array_of(Type::Keyword(Kw::Str))));
    assert!(!is_assignable(&arr_s, &arr_n));
    assert!(!is_assignable(&arr_s, &s));
    let shared = Type::Static(Rc::new(array_of(Type::Keyword(Kw::Str))));
    assert!(is_assignable(&arr_s, &shared));
    assert!(is_assignable(&shared, &arr_s));
    let nested = array_of(array_of(Type::Keyword(Kw::Str)));
    assert!(is_assignable(&nested, &array_of(array_of(Type::Keyword(Kw::Str)))));
    assert!(!is_assignable(&nested, &array_of(arr_n)));
}

#[test]
fn annotations_denote_exact_types() {
    let t = validate_ann(&TypeAnn::Array(Box::new(TypeAnn::Named("Promise".to_string()))));
    match t {
        Type::Array(e) => match *e {
            Type::Ref(n) => assert_eq!(n, "Promise"),
            _ => panic!("expected a named reference"),
        },
        _ => panic!("expected an array type"),
    }
    assert!(matches!(validate_ann(&TypeAnn::Keyword(Kw::Boolean)), Type::Keyword(Kw::Boolean)));
}

#[test]
fn parser_context_guard_restores_original() {
    let mut p = Parser { ctx: Context { include_in_expr: false, in_iteration: false } };
    let g = p.include_in_expr(true);
    assert!(p.ctx.include_in_expr);
    assert!(!p.ctx.in_iteration);
    g.restore(&mut p);
    assert!(!p.ctx.include_in_expr);
    let g2 = p.with_ctx(Context { include_in_expr: true, in_iteration: true });
    assert!(p.ctx.in_iteration);
    g2.restore(&mut p);
    assert!(!p.ctx.in_iteration);
    let seen = p.parse_with(|ctx: Context| ctx.include_in_expr);
    assert!(!seen);
}

#[test]
fn validating_a_var_declaration_binds_in_the_current_scope() {
    let mut a = Analyzer::for_builtin();
    let s = Stmt::Decl(ts_checker_core::ast::Decl::Var(VarDecl {
        span: sp(0, 10),
        decls: vec![VarDeclarator {
            span: sp(4, 5),
            name: "y".to_string(),
            ann: Some(TypeAnn::Keyword(Kw::Boolean)),
        }],
    }));
    let t = a.validate(&s).unwrap();
    assert!(matches!(&*t, Type::Keyword(Kw::Void)));
    match a.resolve_var(&"y".to_string()) {
        Some(t) => assert!(matches!(&*t, Type::Keyword(Kw::Boolean))),
        None => panic!("declared variable must be bound"),
    }
    assert_eq!(a.errors.len(), 0);
}
