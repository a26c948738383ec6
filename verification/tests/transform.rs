use indexmap::IndexSet;

use basalt::ast::{
    BlockStmtOrExpr, Decl, Expr, ExprOrSuper, Lit, ObjectPatProp, Pat, PatOrExpr, PropName,
    PropOrSpread, Stmt, VarDeclKind,
};
use basalt::source::parse_source;
use basalt::static_module_record::parser::Parser;
use basalt::static_module_record::transform::{transform, FunctorBody, Generator, Script};

fn hidden(w: &str) -> String {
    format!("$h\u{200d}_{}", w)
}

fn constant(w: &str) -> String {
    format!("$c\u{200d}_{}", w)
}

/// The parameters and the body of the functor of a script.
fn functor(script: &Script) -> (&Vec<Pat>, &Vec<Stmt>) {
    assert_eq!(script.body.len(), 1);
    match &script.body[0] {
        Stmt::Expr(e) => match &**e {
            Expr::Paren(p) => match &**p {
                Expr::Arrow(a) => match &a.body {
                    BlockStmtOrExpr::BlockStmt(b) => (&a.params, b),
                    other => panic!("unexpected arrow body {:?}", other),
                },
                other => panic!("unexpected expression {:?}", other),
            },
            other => panic!("unexpected expression {:?}", other),
        },
        other => panic!("unexpected statement {:?}", other),
    }
}

fn ident_name(e: &Expr) -> Option<&str> {
    match e {
        Expr::Ident(x) => Some(x.as_str()),
        _ => None,
    }
}

/// `target.prop(args)` as its names.
fn call_of(s: &Stmt) -> Option<(String, String, Vec<String>)> {
    let Stmt::Expr(e) = s else { return None };
    let Expr::Call(c) = &**e else { return None };
    let ExprOrSuper::Expr(callee) = &c.callee else { return None };
    let Expr::Member(m) = &**callee else { return None };
    let ExprOrSuper::Expr(obj) = &m.obj else { return None };
    if m.computed {
        return None;
    }
    let args = c.args.iter().map(|a| ident_name(a).unwrap_or("?").to_string()).collect();
    Some((ident_name(obj)?.to_string(), ident_name(&m.prop)?.to_string(), args))
}

fn is_imports_call(s: &Stmt) -> bool {
    match s {
        Stmt::Expr(e) => match &**e {
            Expr::Call(c) => match &c.callee {
                ExprOrSuper::Expr(callee) => ident_name(callee) == Some(hidden("imports").as_str()) && c.args.len() == 2,
                _ => false,
            },
            _ => false,
        },
        _ => false,
    }
}

fn str_value(e: &Expr) -> Option<&str> {
    match e {
        Expr::Lit(Lit::Str(v)) => Some(v.as_str()),
        _ => None,
    }
}

#[test]
fn transform_gives_functor_with_hook_parameters() {
    let (_, script) = transform("export const a = 1;").unwrap();
    let (params, _) = functor(&script);
    assert_eq!(params.len(), 1);
    let Pat::Object(props) = &params[0] else { panic!("parameters are not an object pattern") };
    let keys: Vec<(String, String)> = props
        .iter()
        .map(|p| match p {
            ObjectPatProp::KeyValue(PropName::Ident(k), v) => match &**v {
                Pat::Ident(x) => (k.clone(), x.clone()),
                other => panic!("unexpected pattern {:?}", other),
            },
            other => panic!("unexpected property {:?}", other),
        })
        .collect();
    assert_eq!(
        keys,
        vec![
            ("imports".to_string(), hidden("imports")),
            ("liveVar".to_string(), hidden("live")),
            ("onceVar".to_string(), hidden("once")),
        ]
    );
}

#[test]
fn transform_fixed_export_calls_once() {
    let (record, script) = transform("export const a = 1;").unwrap();
    assert_eq!(record.fixed_export_map.len(), 1);
    let (_, body) = functor(&script);
    assert_eq!(body.len(), 3);
    assert!(is_imports_call(&body[0]));
    match &body[1] {
        Stmt::Decl(Decl::Var(v)) => {
            assert_eq!(v.kind, VarDeclKind::Const);
            assert_eq!(v.decls.len(), 1);
            assert!(matches!(&v.decls[0].name, Pat::Ident(x) if x == "a"));
        },
        other => panic!("unexpected statement {:?}", other),
    }
    assert_eq!(call_of(&body[2]), Some((hidden("once"), "a".to_string(), vec!["a".to_string()])));
}

#[test]
fn transform_default_export_declares_hidden_constant() {
    let (_, script) = transform("export default 42;").unwrap();
    let (_, body) = functor(&script);
    assert_eq!(body.len(), 3);
    assert!(is_imports_call(&body[0]));
    match &body[1] {
        Stmt::Decl(Decl::Var(v)) => {
            assert_eq!(v.kind, VarDeclKind::Const);
            assert_eq!(v.decls.len(), 1);
            match &v.decls[0].name {
                Pat::Object(ps) => {
                    assert_eq!(ps.len(), 1);
                    match &ps[0] {
                        ObjectPatProp::KeyValue(PropName::Ident(k), p) => {
                            assert_eq!(k, "default");
                            assert!(matches!(&**p, Pat::Ident(x) if *x == constant("default")));
                        },
                        other => panic!("unexpected property {:?}", other),
                    }
                },
                other => panic!("unexpected pattern {:?}", other),
            }
            match v.decls[0].init.as_deref() {
                Some(Expr::Object(ps)) => {
                    assert_eq!(ps.len(), 1);
                    assert!(matches!(&ps[0], PropOrSpread::KeyValue(PropName::Ident(k), _) if k == "default"));
                },
                other => panic!("unexpected initializer {:?}", other),
            }
        },
        other => panic!("unexpected statement {:?}", other),
    }
    assert_eq!(call_of(&body[2]), Some((hidden("once"), "default".to_string(), vec![constant("default")])));
}

#[test]
fn transform_hoists_exported_function() {
    let (_, script) = transform("export function f() {}").unwrap();
    let (_, body) = functor(&script);
    assert_eq!(body.len(), 4);
    assert!(is_imports_call(&body[0]));
    // Object.defineProperty($c_f, "name", { value: "f" })
    match &body[1] {
        Stmt::Expr(e) => match &**e {
            Expr::Call(c) => {
                assert_eq!(c.args.len(), 3);
                assert_eq!(ident_name(&c.args[0]), Some(constant("f").as_str()));
                assert_eq!(str_value(&c.args[1]), Some("name"));
                match &c.args[2] {
                    Expr::Object(ps) => match &ps[0] {
                        PropOrSpread::KeyValue(PropName::Ident(k), v) => {
                            assert_eq!(k, "value");
                            assert_eq!(str_value(v), Some("f"));
                        },
                        other => panic!("unexpected property {:?}", other),
                    },
                    other => panic!("unexpected argument {:?}", other),
                }
                match &c.callee {
                    ExprOrSuper::Expr(m) => match &**m {
                        Expr::Member(m) => {
                            assert!(matches!(&m.obj, ExprOrSuper::Expr(o) if ident_name(o) == Some("Object")));
                            assert_eq!(ident_name(&m.prop), Some("defineProperty"));
                        },
                        other => panic!("unexpected callee {:?}", other),
                    },
                    other => panic!("unexpected callee {:?}", other),
                }
            },
            other => panic!("unexpected expression {:?}", other),
        },
        other => panic!("unexpected statement {:?}", other),
    }
    assert_eq!(call_of(&body[2]), Some((hidden("live"), "f".to_string(), vec![constant("f")])));
    match &body[3] {
        Stmt::Expr(e) => assert!(matches!(&**e, Expr::Fn(Some(x), _) if *x == constant("f"))),
        other => panic!("unexpected statement {:?}", other),
    }
}

#[test]
fn transform_named_specifiers_call_once_with_exported_name() {
    let (_, script) = transform("const a = 1;\nexport { a as b };").unwrap();
    let (_, body) = functor(&script);
    assert_eq!(body.len(), 3);
    assert!(is_imports_call(&body[0]));
    assert!(matches!(&body[1], Stmt::Decl(Decl::Var(_))));
    assert_eq!(call_of(&body[2]), Some((hidden("once"), "b".to_string(), vec!["a".to_string()])));
}

#[test]
fn transform_imports_declare_locals_and_map_setters() {
    let (_, script) = transform("import { x as y } from './m.js';\nconsole.log(y);").unwrap();
    let (_, body) = functor(&script);
    assert_eq!(body.len(), 3);
    match &body[0] {
        Stmt::Decl(Decl::Var(v)) => {
            assert_eq!(v.kind, VarDeclKind::Let);
            assert_eq!(v.decls.len(), 1);
            // The local variables are named by the imported names.
            assert!(matches!(&v.decls[0].name, Pat::Ident(x) if x == "x"));
            assert!(v.decls[0].init.is_none());
        },
        other => panic!("unexpected statement {:?}", other),
    }
    assert!(is_imports_call(&body[1]));
    let Stmt::Expr(e) = &body[1] else { panic!() };
    let Expr::Call(c) = &**e else { panic!() };
    // new Map([["./m.js", new Map([["x", [($h_a) => (y = $h_a)]]])]])
    let Expr::New(outer) = &c.args[0] else { panic!("imports map is not a constructor call") };
    let items = match outer.args.as_ref().map(|a| &a[0]) {
        Some(Expr::Array(items)) => items,
        other => panic!("unexpected map argument {:?}", other),
    };
    assert_eq!(items.len(), 1);
    let Some(Expr::Array(pair)) = &items[0] else { panic!() };
    assert_eq!(pair[0].as_ref().and_then(str_value), Some("./m.js"));
    let Some(Expr::New(inner)) = &pair[1] else { panic!() };
    let groups = match inner.args.as_ref().map(|a| &a[0]) {
        Some(Expr::Array(g)) => g,
        other => panic!("unexpected map argument {:?}", other),
    };
    assert_eq!(groups.len(), 1);
    let Some(Expr::Array(group)) = &groups[0] else { panic!() };
    assert_eq!(group[0].as_ref().and_then(str_value), Some("x"));
    let Some(Expr::Array(funcs)) = &group[1] else { panic!() };
    assert_eq!(funcs.len(), 1);
    match &funcs[0] {
        Some(Expr::Arrow(a)) => {
            assert!(matches!(&a.params[0], Pat::Ident(x) if *x == hidden("a")));
            match &a.body {
                BlockStmtOrExpr::Expr(b) => match &**b {
                    Expr::Paren(q) => match &**q {
                        Expr::Assign(PatOrExpr::Pat(l), r) => {
                            assert!(matches!(&**l, Pat::Ident(x) if x == "y"));
                            assert_eq!(ident_name(r), Some(hidden("a").as_str()));
                        },
                        other => panic!("unexpected setter {:?}", other),
                    },
                    other => panic!("unexpected setter {:?}", other),
                },
                other => panic!("unexpected setter body {:?}", other),
            }
        },
        other => panic!("unexpected setter {:?}", other),
    }
    assert!(matches!(&c.args[1], Expr::Array(a) if a.is_empty()));
    // The statement of the module is kept as it is.
    assert!(matches!(&body[2], Stmt::Expr(_)));
}

#[test]
fn transform_refuses_text_that_does_not_parse() {
    assert!(transform("export const = ;").is_none());
}

#[test]
fn functor_body_keeps_plain_statements() {
    let module = parse_source("let z = 1;").unwrap();
    let record = Parser::load("let z = 1;").unwrap();
    let refs = IndexSet::<String>::new();
    let mut body = FunctorBody::new();
    for item in module.body {
        body.visit_module_item(item, &record, &refs);
    }
    assert_eq!(body.body.len(), 1);
    assert!(matches!(&body.body[0], Stmt::Decl(Decl::Var(v)) if v.kind == VarDeclKind::Let));
}

#[test]
fn generator_declares_reexported_names_before_imports_call() {
    let module = parse_source("export { q } from './q.js';").unwrap();
    let record = Parser::load("export { q } from './q.js';").unwrap();
    let funcs = IndexSet::<String>::new();
    let refs = IndexSet::<String>::new();
    let script = Generator::new(&record, &funcs, &refs).create(module);
    let (_, body) = functor(&script);
    // The re-exported name is imported, so it is declared first.
    assert_eq!(body.len(), 2);
    match &body[0] {
        Stmt::Decl(Decl::Var(v)) => {
            assert_eq!(v.kind, VarDeclKind::Let);
            assert!(matches!(&v.decls[0].name, Pat::Ident(x) if x == "q"));
        },
        other => panic!("unexpected statement {:?}", other),
    }
    assert!(is_imports_call(&body[1]));
}
