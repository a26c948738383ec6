use basalt::analysis::block_scope::ScopeAnalysis;
use basalt::ast::{
    CallExpr, Decl, Expr, ExprOrSuper, ImportDecl, ImportSpecifier, Lit, MemberExpr, Module, ModuleItem, Pat, Stmt,
    VarDecl, VarDeclKind, VarDeclarator,
};
use basalt::module::graph::{visit, GraphFile, ModuleGraph, Resolved};
use basalt::policy::analysis::globals_scope::{GlobalAnalysis, GlobalOptions};
use basalt::policy::builder::{analyze_module, ParsedModule, PolicyBuilder, PolicyError};
use basalt::printer::{PrintOptions, Printer};

fn ident(s: &str) -> Expr {
    Expr::Ident(s.to_string())
}

fn member(obj: Expr, prop: &str) -> Expr {
    Expr::Member(MemberExpr { obj: ExprOrSuper::Expr(Box::new(obj)), prop: Box::new(ident(prop)), computed: false })
}

fn call(callee: Expr, args: Vec<Expr>) -> Expr {
    Expr::Call(CallExpr { callee: ExprOrSuper::Expr(Box::new(callee)), args })
}

fn string(s: &str) -> Expr {
    Expr::Lit(Lit::Str(s.to_string()))
}

fn expr_stmt(e: Expr) -> ModuleItem {
    ModuleItem::Stmt(Stmt::Expr(Box::new(e)))
}

fn declare(kind: VarDeclKind, name: &str, init: Expr) -> ModuleItem {
    ModuleItem::Stmt(Stmt::Decl(Decl::Var(VarDecl {
        kind,
        decls: vec![VarDeclarator { name: Pat::Ident(name.to_string()), init: Some(Box::new(init)) }],
    })))
}

fn import_default(local: &str, src: &str) -> ModuleItem {
    ModuleItem::Import(ImportDecl { src: src.to_string(), specifiers: vec![ImportSpecifier::Default(local.to_string())] })
}

fn globals_of(module: &Module) -> Vec<String> {
    let mut analysis = GlobalAnalysis::new(GlobalOptions::default());
    analysis.visit_module(module);
    let set = analysis.compute();
    set.iter().cloned().collect()
}

fn builtins_of(module: &Module) -> Vec<Vec<String>> {
    let mut analysis = GlobalAnalysis::new(GlobalOptions::default());
    analysis.visit_module(module);
    let set = analysis.compute_builtins();
    set.iter().cloned().collect()
}

#[test]
fn globals_leave_out_locals_and_intrinsics() {
    let module = Module {
        body: vec![
            expr_stmt(member(ident("foo"), "bar")),
            declare(VarDeclKind::Const, "x", string("a")),
            expr_stmt(ident("x")),
            expr_stmt(call(member(ident("Math"), "max"), vec![ident("x")])),
            expr_stmt(ident("undefined")),
        ],
    };
    assert_eq!(globals_of(&module), vec!["foo.bar".to_string()]);
}

#[test]
fn globals_of_empty_module() {
    assert!(globals_of(&Module { body: vec![] }).is_empty());
}

#[test]
fn builtin_from_static_import() {
    let module = Module {
        body: vec![import_default("fs", "fs"), expr_stmt(member(ident("fs"), "readFileSync"))],
    };
    assert_eq!(builtins_of(&module), vec![vec!["fs".to_string(), "readFileSync".to_string()]]);
    assert!(globals_of(&module).is_empty());
}

#[test]
fn builtin_from_require() {
    let module = Module {
        body: vec![
            declare(VarDeclKind::Const, "path", call(ident("require"), vec![string("path")])),
            expr_stmt(call(member(ident("path"), "join"), vec![])),
        ],
    };
    assert_eq!(builtins_of(&module), vec![vec!["path".to_string(), "join".to_string()]]);
}

#[test]
fn module_dependent_packages() {
    let module = Module { body: vec![] };
    let deps: Vec<String> = ["lodash/fp", "./x", "fs", "pkg/sub", "@s/p/q", "lodash"].iter().map(|s| s.to_string()).collect();
    let analysis = analyze_module("pkg", &module, &deps);
    let packages: Vec<String> = analysis.packages.iter().cloned().collect();
    assert_eq!(packages, vec!["lodash".to_string(), "@s/p".to_string()]);
}

fn sample_graph() -> ModuleGraph {
    ModuleGraph {
        paths: vec![
            "/app/index.js".to_string(),
            "/app/node_modules/foo/index.js".to_string(),
            "/app/node_modules/foo/lib/util.js".to_string(),
            "/app/node_modules/bar/index.js".to_string(),
        ],
        files: vec![
            GraphFile::Module(vec![
                ("foo".to_string(), Resolved::File(1)),
                ("fs".to_string(), Resolved::Custom("fs".to_string())),
            ]),
            GraphFile::Module(vec![
                ("./lib/util".to_string(), Resolved::File(2)),
                ("bar".to_string(), Resolved::File(3)),
            ]),
            GraphFile::Module(vec![]),
            GraphFile::Module(vec![("../index".to_string(), Resolved::File(1))]),
        ],
    }
}

#[test]
fn walk_visits_depth_first() {
    let g = sample_graph();
    let result = visit(&g, 0);
    assert!(result.error.is_none());
    let specs: Vec<&str> = result.dependencies.iter().map(|d| d.spec.as_str()).collect();
    assert_eq!(specs, vec!["foo", "./lib/util", "bar", "fs"]);
    assert_eq!(result.modules, g.paths);
    let builtin = &result.dependencies[3];
    assert_eq!(builtin.file_name, "fs");
    assert!(builtin.path.is_none());
    assert!(builtin.last);
    assert!(result.dependencies.iter().all(|d| d.cycle.is_none()));
}

#[test]
fn walk_prints_tree() {
    let g = sample_graph();
    let result = visit(&g, 0);
    let printer = Printer::new();
    let options = PrintOptions { include_file: false };
    let lines: Vec<String> = result.dependencies.iter().map(|d| printer.line(d, &options)).collect();
    assert_eq!(
        lines,
        vec![
            "├── foo".to_string(),
            "│   ├── ./lib/util".to_string(),
            "│   └── bar".to_string(),
            "└── fs".to_string(),
        ]
    );
    let with_file = PrintOptions { include_file: true };
    assert_eq!(printer.line(&result.dependencies[0], &with_file), "├── foo /app/node_modules/foo/index.js");
}

#[test]
fn walk_detects_cycle_through_entry() {
    let g = ModuleGraph {
        paths: vec!["/a.js".to_string()],
        files: vec![GraphFile::Module(vec![("./a".to_string(), Resolved::File(0))])],
    };
    let result = visit(&g, 0);
    let specs: Vec<&str> = result.dependencies.iter().map(|d| d.spec.as_str()).collect();
    assert_eq!(specs, vec!["./a", "./a"]);
    assert!(result.dependencies[0].cycle.is_none());
    assert_eq!(result.dependencies[1].cycle.as_deref(), Some("/a.js"));
    let printer = Printer::new();
    let options = PrintOptions { include_file: false };
    assert_eq!(printer.line(&result.dependencies[0], &options), "└── ./a");
    assert_eq!(printer.line(&result.dependencies[1], &options), "    └── ./a (∞ -> /a.js)");
}

#[test]
fn walk_skips_modules_loaded_before() {
    let g = ModuleGraph {
        paths: vec!["/a.js".to_string(), "/b.js".to_string(), "/c.js".to_string()],
        files: vec![
            GraphFile::Module(vec![("./b".to_string(), Resolved::File(1)), ("./c".to_string(), Resolved::File(2))]),
            GraphFile::Module(vec![("./c".to_string(), Resolved::File(2))]),
            GraphFile::Module(vec![("./b".to_string(), Resolved::File(1))]),
        ],
    };
    let result = visit(&g, 0);
    let specs: Vec<&str> = result.dependencies.iter().map(|d| d.spec.as_str()).collect();
    assert_eq!(specs, vec!["./b", "./c", "./c"]);
    assert!(result.dependencies[1].cycle.is_none());
}

#[test]
fn walk_stops_on_unresolved_custom_name() {
    let g = ModuleGraph {
        paths: vec!["/a.js".to_string(), "/b.js".to_string()],
        files: vec![
            GraphFile::Module(vec![
                ("virtual".to_string(), Resolved::Custom("virtual".to_string())),
                ("./b".to_string(), Resolved::File(1)),
            ]),
            GraphFile::Module(vec![]),
        ],
    };
    let result = visit(&g, 0);
    assert!(result.dependencies.is_empty());
    assert_eq!(result.modules, vec!["/a.js".to_string()]);
}

#[test]
fn walk_reports_failed_module() {
    let g = ModuleGraph {
        paths: vec!["/a.js".to_string(), "/b.js".to_string()],
        files: vec![
            GraphFile::Module(vec![("./b".to_string(), Resolved::File(1))]),
            GraphFile::Failed("cannot parse /b.js".to_string()),
        ],
    };
    let result = visit(&g, 0);
    assert_eq!(result.error.as_deref(), Some("cannot parse /b.js"));
    assert!(result.dependencies.is_empty());
}

#[test]
fn walk_of_json_entry() {
    let g = ModuleGraph { paths: vec!["/a.json".to_string()], files: vec![GraphFile::Json] };
    let result = visit(&g, 0);
    assert!(result.error.is_none());
    assert!(result.dependencies.is_empty());
    assert!(result.modules.is_empty());
}

fn parsed(path: &str, body: Vec<ModuleItem>, deps: &[&str]) -> ParsedModule {
    ParsedModule {
        path: path.to_string(),
        module: Some(Module { body }),
        dependencies: deps.iter().map(|s| s.to_string()).collect(),
    }
}

#[test]
fn policy_from_module_graph() {
    let g = sample_graph();
    let walk = visit(&g, 0);
    let builder = PolicyBuilder::new("/app/index.js");
    let builder = match builder.load(&walk.dependencies, &walk.modules) {
        Ok(b) => b,
        Err(_) => panic!("load failed"),
    };
    let cache = vec![
        parsed("/app/index.js", vec![], &["foo", "fs"]),
        parsed("/app/node_modules/foo/index.js", vec![expr_stmt(call(ident("fetch"), vec![string("x")]))], &[
            "./lib/util",
            "bar",
        ]),
        parsed(
            "/app/node_modules/foo/lib/util.js",
            vec![import_default("fs", "fs"), expr_stmt(member(ident("fs"), "readFileSync"))],
            &["fs"],
        ),
        parsed("/app/node_modules/bar/index.js", vec![], &["../index"]),
    ];
    let policy = builder.analyze(&cache).finalize();
    assert_eq!(policy.len(), 1);
    let foo = policy.get("foo").unwrap();
    assert!(foo.globals.get("fetch").unwrap().flag());
    assert_eq!(foo.globals.len(), 1);
    assert!(foo.builtin.get("fs.readFileSync").unwrap().flag());
    assert!(foo.packages.get("bar").unwrap().flag());
    assert_eq!(foo.packages.len(), 1);
    assert!(policy.get("bar").is_none());
}

#[test]
fn load_fails_without_package_base() {
    let g = ModuleGraph {
        paths: vec!["/app/index.js".to_string(), "/vendor/foo.js".to_string()],
        files: vec![GraphFile::Module(vec![("foo".to_string(), Resolved::File(1))]), GraphFile::Module(vec![])],
    };
    let walk = visit(&g, 0);
    match PolicyBuilder::new("/app/index.js").load(&walk.dependencies, &walk.modules) {
        Err(PolicyError::ModuleBase(spec)) => assert_eq!(spec, "foo"),
        Ok(_) => panic!("expected an error"),
    }
}

fn function_decl(name: &str, params: &[&str], body: Vec<Stmt>) -> ModuleItem {
    ModuleItem::Stmt(Stmt::Decl(Decl::Fn(
        name.to_string(),
        basalt::ast::Function { params: params.iter().map(|p| Pat::Ident(p.to_string())).collect(), body: Some(body) },
    )))
}

fn block_globals_of(module: &Module) -> Vec<String> {
    assert!(ScopeAnalysis::supports(module));
    let mut analysis = ScopeAnalysis::new();
    analysis.visit_module(module);
    analysis.globals().iter().cloned().collect()
}

#[test]
fn block_scope_globals_in_traversal_order() {
    let module = Module {
        body: vec![
            declare(VarDeclKind::Let, "a", string("x")),
            function_decl("f", &["x"], vec![Stmt::Return(Some(Box::new(ident("y")))), Stmt::Expr(Box::new(ident("x")))]),
            expr_stmt(ident("z")),
            expr_stmt(ident("a")),
            expr_stmt(call(ident("f"), vec![])),
        ],
    };
    assert_eq!(block_globals_of(&module), vec!["z".to_string(), "y".to_string()]);
}

#[test]
fn block_scope_imports_are_locals() {
    let module = Module { body: vec![import_default("fs", "fs"), expr_stmt(member(ident("fs"), "read"))] };
    assert_eq!(block_globals_of(&module), vec!["read".to_string()]);
}

#[test]
fn block_scope_rejects_optional_chaining() {
    let module = Module { body: vec![expr_stmt(Expr::OptChain(Box::new(ident("a"))))] };
    assert!(!ScopeAnalysis::supports(&module));
}

#[test]
fn globals_hidden_by_function_parameter() {
    let module = Module {
        body: vec![function_decl(
            "f",
            &["a"],
            vec![Stmt::Expr(Box::new(member(ident("a"), "b"))), Stmt::Expr(Box::new(member(ident("c"), "d")))],
        )],
    };
    assert_eq!(globals_of(&module), vec!["c.d".to_string()]);
}

#[test]
fn builtin_nested_member_path() {
    let module = Module {
        body: vec![import_default("fs", "fs"), expr_stmt(member(member(ident("fs"), "promises"), "readFile"))],
    };
    assert_eq!(
        builtins_of(&module),
        vec![vec!["fs".to_string(), "promises".to_string(), "readFile".to_string()]]
    );
    assert!(globals_of(&module).is_empty());
}

#[test]
fn builtin_named_import_call() {
    let module = Module {
        body: vec![
            ModuleItem::Import(ImportDecl {
                src: "fs".to_string(),
                specifiers: vec![ImportSpecifier::Named("readFile".to_string(), None)],
            }),
            expr_stmt(call(ident("readFile"), vec![ident("x")])),
        ],
    };
    assert_eq!(builtins_of(&module), vec![vec!["fs".to_string(), "readFile".to_string()]]);
    assert_eq!(globals_of(&module), vec!["x".to_string()]);
}

#[test]
fn policy_keeps_leaf_package_that_uses_only_globals() {
    let g = sample_graph();
    let walk = visit(&g, 0);
    let builder = match PolicyBuilder::new("/app/index.js").load(&walk.dependencies, &walk.modules) {
        Ok(b) => b,
        Err(_) => panic!("load failed"),
    };
    let cache = vec![
        parsed("/app/index.js", vec![], &["foo", "fs"]),
        parsed("/app/node_modules/foo/index.js", vec![], &["./lib/util", "bar"]),
        parsed("/app/node_modules/foo/lib/util.js", vec![], &[]),
        parsed("/app/node_modules/bar/index.js", vec![expr_stmt(member(ident("process"), "env"))], &["../index"]),
    ];
    let policy = builder.analyze(&cache).finalize();
    let bar = policy.get("bar").unwrap();
    assert!(bar.globals.get("process.env").unwrap().flag());
    assert_eq!(bar.packages.len(), 0);
    assert_eq!(bar.builtin.len(), 0);
}
