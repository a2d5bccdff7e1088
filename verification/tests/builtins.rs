use std::rc::Rc;
use ts_checker_core::ast::{
    Decl, ExportDecl, Lib, LibFile, MemberDecl, Stmt, TypeAnn, VarDecl, VarDeclarator,
};
use ts_checker_core::builtin::{get_type, get_var, merge, BuiltinCache, Fatal, Merged};
use ts_checker_core::diag::Error;
use ts_checker_core::ty::{Kw, Type};
use ts_checker_core::Span;

fn sp(lo: u32, hi: u32) -> Span {
    Span { lo, hi }
}

fn var_file(lib: Lib, name: &str, ann: TypeAnn) -> LibFile {
    LibFile {
        lib,
        body: vec![Stmt::Decl(Decl::Var(VarDecl {
            span: sp(0, 1),
            decls: vec![VarDeclarator {
                span: sp(0, 1),
                name: name.to_string(),
                ann: Some(ann),
            }],
        }))],
    }
}

fn interface_file(lib: Lib, name: &str, member_names: &[&str]) -> LibFile {
    LibFile {
        lib,
        body: vec![Stmt::Decl(Decl::Interface {
            span: sp(0, 1),
            name: name.to_string(),
            members: member_names
                .iter()
                .map(|m| MemberDecl {
                    name: m.to_string(),
                    ann: Some(TypeAnn::Keyword(Kw::Number)),
                })
                .collect(),
        })],
    }
}

fn namespace_file(lib: Lib, name: &str, export: &str) -> LibFile {
    LibFile {
        lib,
        body: vec![Stmt::Decl(Decl::Namespace {
            span: sp(0, 1),
            name: name.to_string(),
            body: vec![ExportDecl::Var {
                span: sp(0, 1),
                name: export.to_string(),
                ann: TypeAnn::Keyword(Kw::Str),
            }],
        })],
    }
}

fn interface_member_names(m: &Merged, name: &str) -> Vec<String> {
    let entry = m
        .types
        .iter()
        .find(|e| e.name == name)
        .expect("interface entry");
    match &entry.ty {
        Type::Interface { members, .. } => members.iter().map(|x| x.name.clone()).collect(),
        other => panic!("expected an interface, got {:?}", std::mem::discriminant(other)),
    }
}

#[test]
fn interface_merge_appends_members_in_file_order() {
    let f_a = interface_file(Lib::Es5, "X", &["a"]);
    let f_b = interface_file(Lib::Es2015, "X", &["b"]);
    let m1 = merge(&vec![
        interface_file(Lib::Es5, "X", &["a"]),
        interface_file(Lib::Es2015, "X", &["b"]),
    ])
    .expect("merge");
    let m2 = merge(&vec![f_b, f_a]).expect("merge");
    assert_eq!(interface_member_names(&m1, "X"), vec!["a".to_string(), "b".to_string()]);
    assert_eq!(interface_member_names(&m2, "X"), vec!["b".to_string(), "a".to_string()]);
    let mut s1 = interface_member_names(&m1, "X");
    let mut s2 = interface_member_names(&m2, "X");
    s1.sort();
    s2.sort();
    assert_eq!(s1, s2);
}

#[test]
fn module_merge_accumulates_exports() {
    let m = merge(&vec![
        namespace_file(Lib::Es5, "NS", "f"),
        namespace_file(Lib::Es2015, "NS", "g"),
    ])
    .expect("merge");
    let entry = m.types.iter().find(|e| e.name == "NS").expect("module entry");
    match &entry.ty {
        Type::Module { exports } => {
            let names: Vec<String> = exports.iter().map(|x| x.name.clone()).collect();
            assert!(names.contains(&"f".to_string()));
            assert!(names.contains(&"g".to_string()));
            assert_eq!(names.len(), 2);
        }
        _ => panic!("expected a module type"),
    }
}

#[test]
fn duplicate_var_across_files_is_fatal() {
    let r = merge(&vec![
        var_file(Lib::Es5, "x", TypeAnn::Keyword(Kw::Str)),
        var_file(Lib::Es2015, "x", TypeAnn::Keyword(Kw::Str)),
    ]);
    match r {
        Err(Fatal::DuplicateName { name }) => assert_eq!(name, "x"),
        _ => panic!("duplicate var must abort the merge"),
    }
}

#[test]
fn var_without_annotation_is_fatal() {
    let f = LibFile {
        lib: Lib::Es5,
        body: vec![Stmt::Decl(Decl::Var(VarDecl {
            span: sp(0, 1),
            decls: vec![VarDeclarator { span: sp(0, 1), name: "x".to_string(), ann: None }],
        }))],
    };
    assert!(matches!(merge(&vec![f]), Err(Fatal::VarWithoutAnn { .. })));
}

#[test]
fn var_with_two_declarators_is_fatal() {
    let f = LibFile {
        lib: Lib::Es5,
        body: vec![Stmt::Decl(Decl::Var(VarDecl {
            span: sp(0, 1),
            decls: vec![
                VarDeclarator {
                    span: sp(0, 1),
                    name: "x".to_string(),
                    ann: Some(TypeAnn::Keyword(Kw::Str)),
                },
                VarDeclarator {
                    span: sp(1, 2),
                    name: "y".to_string(),
                    ann: Some(TypeAnn::Keyword(Kw::Str)),
                },
            ],
        }))],
    };
    assert!(matches!(merge(&vec![f]), Err(Fatal::VarDeclNotSingle { .. })));
}

#[test]
fn builtin_class_with_super_is_fatal() {
    let f = LibFile {
        lib: Lib::Es5,
        body: vec![Stmt::Decl(Decl::Class {
            span: sp(0, 1),
            name: "C".to_string(),
            is_abstract: false,
            members: vec![],
            super_class: Some("B".to_string()),
            implements: vec![],
            type_params: None,
        })],
    };
    assert!(matches!(merge(&vec![f]), Err(Fatal::ClassWithSuper { .. })));
}

#[test]
fn builtin_class_with_implements_is_fatal() {
    let f = LibFile {
        lib: Lib::Es5,
        body: vec![Stmt::Decl(Decl::Class {
            span: sp(0, 1),
            name: "C".to_string(),
            is_abstract: false,
            members: vec![],
            super_class: None,
            implements: vec!["I".to_string()],
            type_params: None,
        })],
    };
    assert!(matches!(merge(&vec![f]), Err(Fatal::ClassWithImplements { .. })));
}

#[test]
fn interface_colliding_with_function_is_fatal() {
    let f1 = LibFile {
        lib: Lib::Es5,
        body: vec![Stmt::Decl(Decl::Fn {
            span: sp(0, 1),
            name: "X".to_string(),
            params: vec![],
            ret: None,
        })],
    };
    let f2 = interface_file(Lib::Es2015, "X", &["a"]);
    assert!(matches!(
        merge(&vec![f1, f2]),
        Err(Fatal::MergeIntoNonInterface { .. })
    ));
}

#[test]
fn namespace_colliding_with_interface_is_fatal() {
    let f1 = interface_file(Lib::Es5, "NS", &["a"]);
    let f2 = namespace_file(Lib::Es2015, "NS", "f");
    assert!(matches!(
        merge(&vec![f1, f2]),
        Err(Fatal::MergeIntoNonModule { .. })
    ));
}

#[test]
fn non_declaration_at_top_level_is_fatal() {
    let f = LibFile { lib: Lib::Es5, body: vec![Stmt::Empty(sp(0, 0))] };
    assert!(matches!(merge(&vec![f]), Err(Fatal::UnexpectedTopLevel { .. })));
}

#[test]
fn same_export_name_in_one_namespace_replaces() {
    let f = LibFile {
        lib: Lib::Es5,
        body: vec![Stmt::Decl(Decl::Namespace {
            span: sp(0, 1),
            name: "NS".to_string(),
            body: vec![
                ExportDecl::Var {
                    span: sp(0, 1),
                    name: "f".to_string(),
                    ann: TypeAnn::Keyword(Kw::Str),
                },
                ExportDecl::Var {
                    span: sp(1, 2),
                    name: "f".to_string(),
                    ann: TypeAnn::Keyword(Kw::Number),
                },
            ],
        })],
    };
    let m = merge(&vec![f]).expect("merge");
    let entry = m.types.iter().find(|e| e.name == "NS").expect("module entry");
    match &entry.ty {
        Type::Module { exports } => {
            assert_eq!(exports.len(), 1);
            assert_eq!(exports[0].name, "f");
            assert!(matches!(exports[0].ty, Type::Keyword(Kw::Number)));
        }
        _ => panic!("expected a module type"),
    }
}

#[test]
fn environment_for_caches_by_exact_key() {
    let mut cache = BuiltinCache::new();
    let libs = vec![Lib::Es5];
    let files1 = vec![var_file(Lib::Es5, "a", TypeAnn::Keyword(Kw::Str))];
    let files2 = vec![var_file(Lib::Es5, "b", TypeAnn::Keyword(Kw::Number))];
    let env1 = cache.environment_for(&libs, &files1).expect("first request");
    // A second request with an equal key ignores the supplied files and
    // returns the stored environment: the merge ran at most once.
    let env2 = cache.environment_for(&libs, &files2).expect("second request");
    assert_eq!(env1.vars.len(), 1);
    assert_eq!(env2.vars.len(), 1);
    assert_eq!(env2.vars[0].name, "a");
    assert!(Rc::ptr_eq(&env1.vars[0].ty, &env2.vars[0].ty));
    // A different key computes its own environment.
    let libs2 = vec![Lib::Es5, Lib::Es2015];
    let env3 = cache
        .environment_for(&libs2, &files2)
        .expect("different key");
    assert_eq!(env3.vars[0].name, "b");
    // The merge is deterministic: a fresh cache given the same key and
    // files computes an environment with the same content.
    let mut other = BuiltinCache::new();
    let env4 = other.environment_for(&libs, &files1).expect("fresh cache");
    assert_eq!(env4.vars.len(), env1.vars.len());
    assert_eq!(env4.vars[0].name, env1.vars[0].name);
}

#[test]
fn get_var_and_get_type_lookups() {
    let mut cache = BuiltinCache::new();
    let libs = vec![Lib::Es5];
    let files = vec![
        var_file(Lib::Es5, "answer", TypeAnn::Keyword(Kw::Number)),
        interface_file(Lib::Es2015, "Shape", &["area"]),
    ];
    let env = cache.environment_for(&libs, &files).expect("environment");
    match get_var(&env, sp(3, 4), &"answer".to_string()) {
        Ok(Type::Static(inner)) => assert!(matches!(*inner, Type::Keyword(Kw::Number))),
        _ => panic!("expected a shared handle to the builtin variable"),
    }
    match get_var(&env, sp(3, 4), &"missing".to_string()) {
        Err(Error::NoSuchVar { span, name }) => {
            assert_eq!(span, sp(3, 4));
            assert_eq!(name, "missing");
        }
        _ => panic!("expected a typed not-found result"),
    }
    match get_type(&env, sp(5, 6), &"Shape".to_string()) {
        Ok(Type::Static(inner)) => {
            assert!(matches!(&*inner, Type::Interface { .. }))
        }
        _ => panic!("expected the builtin type"),
    }
    assert!(matches!(
        get_type(&env, sp(5, 6), &"Nope".to_string()),
        Err(Error::NoSuchType { .. })
    ));
}
