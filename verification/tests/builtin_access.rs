use basalt::access::Access;
use basalt::access::AccessKind;
use basalt::analysis::builtin::{access_visit_expr, Builtin, BuiltinAnalysis, Local};
use basalt::ast::{
    ArrowExpr, BlockStmtOrExpr, CallExpr, Decl, ExportDecl, Expr, ExprOrSuper, Function, ImportDecl, ImportSpecifier, Lit,
    MemberExpr, Module, ModuleItem, ObjectPatProp, Pat, PatOrExpr, Stmt, VarDecl, VarDeclKind, VarDeclarator,
};

fn ident(s: &str) -> Expr {
    Expr::Ident(s.to_string())
}

fn member(obj: Expr, prop: &str) -> Expr {
    Expr::Member(MemberExpr { obj: ExprOrSuper::Expr(Box::new(obj)), prop: Box::new(ident(prop)), computed: false })
}

fn call(callee: Expr, args: Vec<Expr>) -> Expr {
    Expr::Call(CallExpr { callee: ExprOrSuper::Expr(Box::new(callee)), args })
}

fn string(s: &str) -> Expr {
    Expr::Lit(Lit::Str(s.to_string()))
}

fn expr_stmt(e: Expr) -> Stmt {
    Stmt::Expr(Box::new(e))
}

fn import(src: &str, specifiers: Vec<ImportSpecifier>) -> ModuleItem {
    ModuleItem::Import(ImportDecl { src: src.to_string(), specifiers })
}

fn const_decl(name: Pat, init: Expr) -> Stmt {
    Stmt::Decl(Decl::Var(VarDecl {
        kind: VarDeclKind::Const,
        decls: vec![VarDeclarator { name, init: Some(Box::new(init)) }],
    }))
}

fn require(name: &str) -> Expr {
    call(ident("require"), vec![string(name)])
}

fn access(read: bool, write: bool, execute: bool) -> Access {
    Access { read, write, execute }
}

fn analyze(body: Vec<ModuleItem>) -> indexmap::IndexMap<String, Access> {
    BuiltinAnalysis::default().analyze(&Module { body })
}

#[test]
fn builtin_default_import_call() {
    let result = analyze(vec![
        import("fs", vec![ImportSpecifier::Default("fs".to_string())]),
        ModuleItem::Stmt(expr_stmt(call(member(ident("fs"), "readFileSync"), vec![string("x")]))),
    ]);
    assert_eq!(result.len(), 1);
    assert_eq!(result.get("fs.readFileSync"), Some(&access(false, false, true)));
}

#[test]
fn builtin_default_alias_is_replaced_by_module_name() {
    let result = analyze(vec![
        import("fs", vec![ImportSpecifier::Default("f".to_string())]),
        ModuleItem::Stmt(expr_stmt(call(member(ident("f"), "readFile"), vec![]))),
    ]);
    assert_eq!(result.len(), 1);
    assert_eq!(result.get("fs.readFile"), Some(&access(false, false, true)));
}

#[test]
fn builtin_named_import_function_method_is_stripped() {
    let result = analyze(vec![
        import("fs", vec![ImportSpecifier::Named("readFile".to_string(), None)]),
        ModuleItem::Stmt(expr_stmt(call(member(ident("readFile"), "call"), vec![ident("x")]))),
    ]);
    assert_eq!(result.len(), 1);
    assert_eq!(result.get("fs.readFile"), Some(&access(false, false, true)));
}

#[test]
fn builtin_named_import_read_as_argument() {
    let result = analyze(vec![
        import("fs", vec![ImportSpecifier::Named("readFile".to_string(), None)]),
        ModuleItem::Stmt(expr_stmt(call(ident("foo"), vec![ident("readFile")]))),
    ]);
    assert_eq!(result.len(), 1);
    assert_eq!(result.get("fs.readFile"), Some(&access(true, false, false)));
}

#[test]
fn builtin_destructured_require_write() {
    let pattern = Pat::Object(vec![ObjectPatProp::Assign("env".to_string(), None)]);
    let target = PatOrExpr::Pat(Box::new(Pat::Expr(Box::new(member(ident("env"), "FOO")))));
    let result = analyze(vec![
        ModuleItem::Stmt(const_decl(pattern, require("process"))),
        ModuleItem::Stmt(expr_stmt(Expr::Assign(target, Box::new(string("1"))))),
    ]);
    assert_eq!(result.len(), 1);
    assert_eq!(result.get("process.env.FOO"), Some(&access(false, true, false)));
}

#[test]
fn builtin_with_block_yields_whole_module() {
    let body = Stmt::Block(vec![const_decl(Pat::Ident("foo".to_string()), member(ident("env"), "FOO"))]);
    let result = analyze(vec![
        ModuleItem::Stmt(const_decl(Pat::Ident("process".to_string()), require("process"))),
        ModuleItem::Stmt(Stmt::With(Box::new(ident("process")), Box::new(body))),
    ]);
    assert_eq!(result.len(), 1);
    assert_eq!(result.get("process"), Some(&access(true, false, false)));
}

#[test]
fn builtin_accesses_merge_per_path() {
    let target = PatOrExpr::Pat(Box::new(Pat::Expr(Box::new(member(ident("os"), "counter")))));
    let result = analyze(vec![
        ModuleItem::Stmt(const_decl(Pat::Ident("os".to_string()), require("os"))),
        ModuleItem::Stmt(expr_stmt(member(ident("os"), "counter"))),
        ModuleItem::Stmt(expr_stmt(Expr::Assign(target, Box::new(string("1"))))),
        ModuleItem::Stmt(expr_stmt(Expr::Update(Box::new(member(ident("os"), "platform"))))),
    ]);
    assert_eq!(result.len(), 2);
    assert_eq!(result.get_index(0), Some((&"os.counter".to_string(), &access(true, true, false))));
    assert_eq!(result.get_index(1), Some((&"os.platform".to_string(), &access(false, true, false))));
}

#[test]
fn builtin_assign_to_named_import() {
    let target = PatOrExpr::Pat(Box::new(Pat::Ident("readFile".to_string())));
    let result = analyze(vec![
        import("fs", vec![ImportSpecifier::Named("readFile".to_string(), None)]),
        ModuleItem::Stmt(expr_stmt(Expr::Assign(target, Box::new(string("1"))))),
    ]);
    assert_eq!(result.len(), 1);
    assert_eq!(result.get("fs.readFile"), Some(&access(false, true, false)));
}

#[test]
fn builtin_require_inside_function_body() {
    let body = vec![
        const_decl(Pat::Ident("cp".to_string()), require("child_process")),
        expr_stmt(call(member(ident("cp"), "exec"), vec![string("ls")])),
    ];
    let function = Function { params: vec![], body: Some(body) };
    let result = analyze(vec![ModuleItem::Stmt(Stmt::Decl(Decl::Fn("run".to_string(), function)))]);
    assert_eq!(result.len(), 1);
    assert_eq!(result.get("child_process.exec"), Some(&access(false, false, true)));
}

#[test]
fn builtin_arrow_expression_body_keeps_kind() {
    let arrow = Expr::Arrow(ArrowExpr { params: vec![], body: BlockStmtOrExpr::Expr(Box::new(member(ident("path"), "sep"))) });
    let result = analyze(vec![
        import("path", vec![ImportSpecifier::Namespace("path".to_string())]),
        ModuleItem::Stmt(expr_stmt(call(arrow, vec![]))),
    ]);
    assert_eq!(result.len(), 1);
    assert_eq!(result.get("path.sep"), Some(&access(false, false, true)));
}

#[test]
fn builtin_packages_that_are_not_builtin_are_ignored() {
    let result = analyze(vec![
        import("lodash", vec![ImportSpecifier::Default("lodash".to_string())]),
        ModuleItem::Stmt(expr_stmt(call(member(ident("lodash"), "map"), vec![]))),
    ]);
    assert!(result.is_empty());
}

#[test]
fn builtin_side_effect_import_is_ignored() {
    let result = analyze(vec![
        import("fs", vec![]),
        ModuleItem::Stmt(expr_stmt(call(member(ident("fs"), "readFile"), vec![]))),
    ]);
    assert!(result.is_empty());
}

#[test]
fn builtin_used_inside_exported_function() {
    let result = analyze(vec![
        import("fs", vec![ImportSpecifier::Default("fs".to_string())]),
        ModuleItem::Export(ExportDecl::Decl(Decl::Fn(
            "load".to_string(),
            Function { params: vec![], body: Some(vec![expr_stmt(call(member(ident("fs"), "readFileSync"), vec![]))]) },
        ))),
    ]);
    assert_eq!(result.len(), 1);
    assert_eq!(result.get("fs.readFileSync"), Some(&access(false, false, true)));
}

#[test]
fn builtin_required_in_exported_declaration() {
    let exported = match const_decl(Pat::Ident("cp".to_string()), require("child_process")) {
        Stmt::Decl(d) => d,
        _ => unreachable!(),
    };
    let result = analyze(vec![
        ModuleItem::Export(ExportDecl::Decl(exported)),
        ModuleItem::Stmt(expr_stmt(call(member(ident("cp"), "exec"), vec![]))),
    ]);
    assert_eq!(result.len(), 1);
    assert_eq!(result.get("child_process.exec"), Some(&access(false, false, true)));
}

#[test]
fn builtin_flags_recorded_earlier_stay_set() {
    // Called first, then read: the execute flag of the first access stays.
    let result = analyze(vec![
        import("fs", vec![ImportSpecifier::Default("fs".to_string())]),
        ModuleItem::Stmt(expr_stmt(call(member(ident("fs"), "readFileSync"), vec![string("x")]))),
        ModuleItem::Stmt(expr_stmt(member(ident("fs"), "readFileSync"))),
    ]);
    assert_eq!(result.len(), 1);
    assert_eq!(result.get("fs.readFileSync"), Some(&access(true, false, true)));
}

fn analyze_source(source: &str) -> indexmap::IndexMap<String, Access> {
    let module = basalt::source::parse_source(source).unwrap();
    BuiltinAnalysis::default().analyze(&module)
}

#[test]
fn builtin_require_inside_object_method_is_a_candidate() {
    let result = analyze_source("const o = { m() { const fs = require('fs'); } };\nfs.readFileSync('x');");
    assert_eq!(result.get("fs.readFileSync"), Some(&access(false, false, true)));
}

#[test]
fn builtin_require_inside_getter_with_computed_key_is_a_candidate() {
    let result = analyze_source("const o = { get [k]() { const path = require('path'); return 1; } };\npath.join('a');");
    assert_eq!(result.get("path.join"), Some(&access(false, false, true)));
}

#[test]
fn builtin_require_inside_jsx_is_a_candidate() {
    let result =
        analyze_source("const el = <div onClick={() => { const os = require('os'); }}>{x}</div>;\nos.platform();");
    assert_eq!(result.get("os.platform"), Some(&access(false, false, true)));
}

#[test]
fn builtin_require_inside_static_block_is_a_candidate() {
    let result = analyze_source("class A { static { const fs = require('fs'); } }\nfs.stat();");
    assert_eq!(result.get("fs.stat"), Some(&access(false, false, true)));
}

#[test]
fn builtin_require_inside_pattern_default_is_a_candidate() {
    let result = analyze_source("const { a = () => { const fs = require('fs'); } } = o;\nfs.stat();");
    assert_eq!(result.get("fs.stat"), Some(&access(false, false, true)));
}

#[test]
fn builtin_access_inside_exported_object_method_is_recorded() {
    let result = analyze_source("import fs from 'fs';\nexport const o = { m() { fs.readFileSync('x'); } };");
    assert_eq!(result.get("fs.readFileSync"), Some(&access(false, false, true)));
}

#[test]
fn builtin_access_visit_keeps_flags_already_set() {
    let cands = vec![Builtin { source: "fs".to_string(), locals: vec![Local::Default("fs".to_string())] }];
    let mut map: indexmap::IndexMap<Vec<String>, Access> = indexmap::IndexMap::new();
    map.insert(vec!["fs".to_string(), "stat".to_string()], access(true, true, false));
    map.insert(vec!["fs".to_string(), "readFileSync".to_string()], access(true, false, false));
    let e = call(member(ident("fs"), "readFileSync"), vec![string("x")]);
    access_visit_expr(&cands, &mut map, &e, AccessKind::Read);
    assert_eq!(map.len(), 2);
    assert_eq!(map.get_index(0).unwrap().1, &access(true, true, false));
    assert_eq!(
        map.get(&vec!["fs".to_string(), "readFileSync".to_string()]),
        Some(&access(true, false, true))
    );
}
