use basalt::analysis::exports::{ExportAnalysis, ExportRecord, ReexportRecord};
use basalt::analysis::imports::{ImportAnalysis, ImportRecord};
use basalt::analysis::live_exports::LiveExportAnalysis;
use basalt::ast::{
    Decl, ExportDecl, ExportSpecifier, Expr, Function, ImportDecl, ImportSpecifier, Lit, Module, ModuleItem,
    ObjectPatProp, Pat, PatOrExpr, PropName, Stmt, VarDecl, VarDeclKind, VarDeclarator,
};
use basalt::static_module_record::analyzer::{Analyzer, LiveExportAnalysis as ExprLiveExports};
use basalt::static_module_record::parser::{var_symbol_names, Parser};
use basalt::static_module_record::ImportKind;

fn s(x: &str) -> String {
    x.to_string()
}

fn import(src: &str, specifiers: Vec<ImportSpecifier>) -> ModuleItem {
    ModuleItem::Import(ImportDecl { src: s(src), specifiers })
}

fn assign(name: &str) -> Stmt {
    Stmt::Expr(Box::new(Expr::Assign(
        PatOrExpr::Pat(Box::new(Pat::Ident(s(name)))),
        Box::new(Expr::Lit(Lit::Other)),
    )))
}

fn var_decl(kind: VarDeclKind, names: Vec<Pat>) -> VarDecl {
    VarDecl {
        kind,
        decls: names.into_iter().map(|name| VarDeclarator { name, init: Some(Box::new(Expr::Lit(Lit::Other))) }).collect(),
    }
}

fn sample() -> Module {
    Module {
        body: vec![
            import("x", vec![ImportSpecifier::Default(s("a"))]),
            import("y", vec![ImportSpecifier::Named(s("c"), Some(s("b"))), ImportSpecifier::Named(s("d"), None)]),
            import("z", vec![]),
            import("x", vec![ImportSpecifier::Namespace(s("ns"))]),
            ModuleItem::Export(ExportDecl::Decl(Decl::Var(var_decl(
                VarDeclKind::Const,
                vec![
                    Pat::Ident(s("e")),
                    Pat::Object(vec![
                        ObjectPatProp::Assign(s("f"), None),
                        ObjectPatProp::KeyValue(PropName::Ident(s("g")), Box::new(Pat::Ident(s("h")))),
                    ]),
                ],
            )))),
            ModuleItem::Export(ExportDecl::Decl(Decl::Fn(s("k"), Function { params: vec![], body: Some(vec![]) }))),
            ModuleItem::Export(ExportDecl::DefaultExpr(Box::new(Expr::Lit(Lit::Other)))),
            ModuleItem::Export(ExportDecl::Named(
                None,
                vec![ExportSpecifier::Named(s("m"), Some(s("n"))), ExportSpecifier::Named(s("p"), None)],
            )),
            ModuleItem::Export(ExportDecl::Named(Some(s("w")), vec![ExportSpecifier::Named(s("q"), Some(s("r")))])),
            ModuleItem::Export(ExportDecl::All(s("v"))),
            ModuleItem::Stmt(assign("e")),
            ModuleItem::Stmt(assign("unrelated")),
        ],
    }
}

#[test]
fn imports_grouped_by_specifier() {
    let module = sample();
    let mut importer = ImportAnalysis::new();
    importer.visit_module(&module);
    let keys: Vec<&String> = importer.imports.keys().collect();
    assert_eq!(keys, vec!["x", "y", "z"]);
    let x = &importer.imports["x"];
    assert_eq!(x.len(), 2);
    assert!(matches!(&x[0], ImportRecord::Default { name } if name == "a"));
    assert!(matches!(&x[1], ImportRecord::All { name } if name == "ns"));
    let y = &importer.imports["y"];
    assert!(matches!(&y[0], ImportRecord::Named { name, alias } if name == "b" && alias == "c"));
    assert!(matches!(&y[1], ImportRecord::Named { name, alias } if name == "d" && alias == "d"));
    assert!(matches!(&importer.imports["z"][0], ImportRecord::SideEffect));
}

#[test]
fn exports_and_reexports_in_order() {
    let module = sample();
    let mut exporter = ExportAnalysis::new();
    exporter.visit_module(&module);
    assert_eq!(exporter.exports.len(), 4);
    assert!(matches!(exporter.exports[0], ExportRecord::VarDecl { .. }));
    assert!(matches!(exporter.exports[1], ExportRecord::FnDecl { ident, .. } if ident == "k"));
    assert!(matches!(exporter.exports[2], ExportRecord::DefaultExpr { .. }));
    assert!(matches!(exporter.exports[3], ExportRecord::Named { .. }));
    assert_eq!(exporter.reexports.len(), 2);
    assert!(matches!(&exporter.reexports[0], ReexportRecord::Named { source, .. } if source == "w"));
    assert!(matches!(&exporter.reexports[1], ReexportRecord::All { source } if source == "v"));
    assert_eq!(exporter.var_export_names(), vec![s("e")]);
}

#[test]
fn live_exports_are_assigned_exports() {
    let module = sample();
    let mut live = LiveExportAnalysis::new(vec![s("e"), s("other")]);
    live.visit_module(&module);
    assert_eq!(live.live, vec![s("e")]);
}

#[test]
fn live_export_assigned_inside_exported_function() {
    let module = Module {
        body: vec![ModuleItem::Export(ExportDecl::Decl(Decl::Fn(
            s("set"),
            Function { params: vec![], body: Some(vec![assign("counter"), Stmt::Block(vec![assign("counter")])]) },
        )))],
    };
    let mut live = LiveExportAnalysis::new(vec![s("counter")]);
    live.visit_module(&module);
    assert_eq!(live.live, vec![s("counter")]);
}

#[test]
fn symbol_names_of_declarators() {
    let var = var_decl(
        VarDeclKind::Let,
        vec![
            Pat::Ident(s("a")),
            Pat::Array(vec![Some(Pat::Ident(s("b")))]),
            Pat::Object(vec![
                ObjectPatProp::KeyValue(PropName::Ident(s("k")), Box::new(Pat::Object(vec![ObjectPatProp::Assign(s("x"), None)]))),
                ObjectPatProp::Rest(Box::new(Pat::Ident(s("rest")))),
            ]),
        ],
    );
    let names = var_symbol_names(&var);
    assert_eq!(names, vec![(0, vec![s("a")]), (2, vec![s("x"), s("k")])]);
}

#[test]
fn static_module_record_of_module() {
    let module = sample();
    let mut parser = Parser::new();
    let record = parser.parse(&module);

    assert_eq!(record.export_alls, vec![s("v")]);

    let import_keys: Vec<String> = (0..record.imports.len()).map(|i| record.imports.get_index(i).0.clone()).collect();
    assert_eq!(import_keys, vec![s("x"), s("y"), s("z"), s("w"), s("v")]);
    let x = record.imports.get("x").unwrap();
    assert_eq!(x.iter().map(|n| n.as_str()).collect::<Vec<_>>(), vec!["a", "ns"]);
    assert_eq!(x[1].kind(), ImportKind::All);
    let y = record.imports.get("y").unwrap();
    assert_eq!(y[0].as_str(), "b");
    assert_eq!(y[0].alias(), Some(&s("c")));
    assert!(record.imports.get("z").unwrap().is_empty());
    let w = record.imports.get("w").unwrap();
    assert_eq!(w[0].as_str(), "q");
    assert_eq!(w[0].alias(), Some(&s("r")));
    assert_eq!(w[0].kind(), ImportKind::Named);
    assert!(record.imports.get("v").unwrap().is_empty());
    assert_eq!(record.decls(), vec![s("a"), s("ns"), s("b"), s("d"), s("q")]);

    let fixed_keys: Vec<String> =
        (0..record.fixed_export_map.len()).map(|i| record.fixed_export_map.get_index(i).0.clone()).collect();
    assert_eq!(fixed_keys, vec![s("f"), s("h"), s("g"), s("k"), s("default"), s("n"), s("p")]);
    assert_eq!(record.fixed_export_map.get("n"), Some(&vec![s("m")]));
    assert_eq!(record.fixed_export_map.get("g"), Some(&vec![s("g")]));
    assert!(record.fixed_export_map.get("e").is_none());

    assert_eq!(record.live_export_map.len(), 2);
    let e = record.live_export_map.get("e").unwrap();
    assert_eq!((e.name.as_str(), e.assigned), ("e", true));
    let r = record.live_export_map.get("r").unwrap();
    assert_eq!((r.name.as_str(), r.assigned), ("q", false));
}

#[test]
fn static_module_record_of_empty_module() {
    let module = Module { body: vec![] };
    let mut parser = Parser::new();
    let record = parser.parse(&module);
    assert!(record.export_alls.is_empty());
    assert_eq!(record.imports.len(), 0);
    assert_eq!(record.live_export_map.len(), 0);
    assert_eq!(record.fixed_export_map.len(), 0);
    assert!(record.decls().is_empty());
}

#[test]
fn analyzer_records_imports_exports_and_hoisted_functions() {
    let module = sample();
    let mut analyzer = Analyzer::new();
    analyzer.visit_module(&module);
    let keys: Vec<&String> = analyzer.imports.keys().collect();
    assert_eq!(keys, vec!["x", "y", "z"]);
    assert_eq!(analyzer.exports.len(), 4);
    assert_eq!(analyzer.reexports.len(), 2);
    let hoisted: Vec<&String> = analyzer.hoisted_funcs.iter().collect();
    assert_eq!(hoisted, vec!["k"]);
    assert_eq!(analyzer.var_export_names(), vec![s("e")]);
}

#[test]
fn analyzer_live_exports_of_updates_assignments_and_references() {
    let module = Module {
        body: vec![
            ModuleItem::Export(ExportDecl::Decl(Decl::Var(var_decl(VarDeclKind::Let, vec![Pat::Ident(s("count"))])))),
            ModuleItem::Stmt(Stmt::Expr(Box::new(Expr::Update(Box::new(Expr::Ident(s("count"))))))),
            ModuleItem::Stmt(assign("count")),
            ModuleItem::Stmt(Stmt::Expr(Box::new(Expr::Ident(s("other"))))),
            ModuleItem::Export(ExportDecl::Decl(Decl::Var(VarDecl {
                kind: VarDeclKind::Const,
                decls: vec![VarDeclarator { name: Pat::Ident(s("abc2")), init: Some(Box::new(Expr::Ident(s("count")))) }],
            }))),
        ],
    };
    let mut live = ExprLiveExports::new();
    live.exports = vec![s("count")];
    live.visit_module(&module);
    assert_eq!(live.live, vec![s("count"), s("count"), s("count")]);
    let hoisted: Vec<&String> = live.hoisted_refs.iter().collect();
    assert_eq!(hoisted, vec!["count"]);
}

#[test]
fn load_parses_source_into_record() {
    let record = Parser::load("import a from 'x';\nexport const e = 1, f = 2;\ne = 3;\nexport * from 'v';\n").unwrap();
    assert_eq!(record.export_alls, vec![s("v")]);
    assert_eq!(record.imports.get("x").unwrap()[0].as_str(), "a");
    assert!(record.fixed_export_map.get("e").is_none());
    assert_eq!(record.fixed_export_map.get("f"), Some(&vec![s("f")]));
    assert!(record.live_export_map.get("e").unwrap().assigned);
}

#[test]
fn load_refuses_text_that_does_not_parse() {
    assert!(Parser::load("export const = ;").is_none());
}

#[test]
fn parse_source_gives_module_items() {
    let module = basalt::source::parse_source("import fs from 'fs';\nfs.readFileSync('a');\n").unwrap();
    assert_eq!(module.body.len(), 2);
    assert!(matches!(&module.body[0], ModuleItem::Import(d) if d.src == "fs"));
}
