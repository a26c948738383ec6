//! Parsing source text into the syntax tree the analysis reads.
//!
//! `swc_ecma_parser` parses the text; the functions here convert the tree it
//! gives into the library's `ast`, one node at a time.  Nothing is proved of
//! them: what a text parses to is named by `parsed_module`.
use vstd::prelude::*;

use swc_common::{sync::Lrc, FileName, SourceMap, DUMMY_SP};
use swc_ecma_ast as swc;
use swc_ecma_ast::{Module as SwcModule, ModuleItem as SwcModuleItem, ImportDecl as SwcImportDecl, ImportSpecifier as SwcImportSpecifier, ModuleDecl as SwcModuleDecl, ModuleExportName as SwcModuleExportName, NamedExport as SwcNamedExport, ExportSpecifier as SwcExportSpecifier, DefaultDecl as SwcDefaultDecl, Stmt as SwcStmt, ForStmt as SwcForStmt, TryStmt as SwcTryStmt, CatchClause as SwcCatchClause, SwitchCase as SwcSwitchCase, ForHead as SwcForHead, Decl as SwcDecl, VarDecl as SwcVarDecl, VarDeclarator as SwcVarDeclarator, Function as SwcFunction, Class as SwcClass, ClassMember as SwcClassMember, ExprOrSpread as SwcExprOrSpread, MemberExpr as SwcMemberExpr, Callee as SwcCallee, ExprStmt as SwcExprStmt, PropOrSpread as SwcPropOrSpread, AssignTarget as SwcAssignTarget, PropName as SwcPropName, Pat as SwcPat, ObjectPatProp as SwcObjectPatProp, JSXElement as SwcJSXElement, JSXFragment as SwcJSXFragment, JSXAttrOrSpread as SwcJSXAttrOrSpread, JSXElementChild as SwcJSXElementChild, JSXExpr as SwcJSXExpr};
use swc_ecma_parser::{EsSyntax, Parser, StringInput, Syntax};

use crate::ast;

verus! {

#[verifier::external_type_specification]
#[verifier::external_body]
pub struct ExSwcModule(SwcModule);

#[verifier::external_type_specification]
#[verifier::external_body]
pub struct ExSwcModuleItem(SwcModuleItem);

#[verifier::external_type_specification]
#[verifier::external_body]
pub struct ExSwcImportDecl(SwcImportDecl);

#[verifier::external_type_specification]
#[verifier::external_body]
pub struct ExSwcImportSpecifier(SwcImportSpecifier);

#[verifier::external_type_specification]
#[verifier::external_body]
pub struct ExSwcModuleDecl(SwcModuleDecl);

#[verifier::external_type_specification]
#[verifier::external_body]
pub struct ExSwcModuleExportName(SwcModuleExportName);

#[verifier::external_type_specification]
#[verifier::external_body]
pub struct ExSwcNamedExport(SwcNamedExport);

#[verifier::external_type_specification]
#[verifier::external_body]
pub struct ExSwcExportSpecifier(SwcExportSpecifier);

#[verifier::external_type_specification]
#[verifier::external_body]
pub struct ExSwcDefaultDecl(SwcDefaultDecl);

#[verifier::external_type_specification]
#[verifier::external_body]
pub struct ExSwcStmt(SwcStmt);

#[verifier::external_type_specification]
#[verifier::external_body]
pub struct ExSwcForStmt(SwcForStmt);

#[verifier::external_type_specification]
#[verifier::external_body]
pub struct ExSwcTryStmt(SwcTryStmt);

#[verifier::external_type_specification]
#[verifier::external_body]
pub struct ExSwcCatchClause(SwcCatchClause);

#[verifier::external_type_specification]
#[verifier::external_body]
pub struct ExSwcSwitchCase(SwcSwitchCase);

#[verifier::external_type_specification]
#[verifier::external_body]
pub struct ExSwcForHead(SwcForHead);

#[verifier::external_type_specification]
#[verifier::external_body]
pub struct ExSwcDecl(SwcDecl);

#[verifier::external_type_specification]
#[verifier::external_body]
pub struct ExSwcVarDecl(SwcVarDecl);

#[verifier::external_type_specification]
#[verifier::external_body]
pub struct ExSwcVarDeclarator(SwcVarDeclarator);

#[verifier::external_type_specification]
#[verifier::external_body]
pub struct ExSwcFunction(SwcFunction);

#[verifier::external_type_specification]
#[verifier::external_body]
pub struct ExSwcClass(SwcClass);

#[verifier::external_type_specification]
#[verifier::external_body]
pub struct ExSwcClassMember(SwcClassMember);

#[verifier::external_type_specification]
#[verifier::external_body]
pub struct ExSwcExprOrSpread(SwcExprOrSpread);

#[verifier::external_type_specification]
#[verifier::external_body]
pub struct ExSwcMemberExpr(SwcMemberExpr);

#[verifier::external_type_specification]
#[verifier::external_body]
pub struct ExSwcCallee(SwcCallee);

#[verifier::external_type_specification]
#[verifier::external_body]
pub struct ExSwcExprStmt(SwcExprStmt);

#[verifier::external_type_specification]
#[verifier::external_body]
pub struct ExSwcPropOrSpread(SwcPropOrSpread);

#[verifier::external_type_specification]
#[verifier::external_body]
pub struct ExSwcAssignTarget(SwcAssignTarget);

#[verifier::external_type_specification]
#[verifier::external_body]
pub struct ExSwcPropName(SwcPropName);

#[verifier::external_type_specification]
#[verifier::external_body]
pub struct ExSwcPat(SwcPat);

#[verifier::external_type_specification]
#[verifier::external_body]
pub struct ExSwcObjectPatProp(SwcObjectPatProp);

#[verifier::external_type_specification]
#[verifier::external_body]
pub struct ExSwcJSXElement(SwcJSXElement);

#[verifier::external_type_specification]
#[verifier::external_body]
pub struct ExSwcJSXFragment(SwcJSXFragment);

#[verifier::external_type_specification]
#[verifier::external_body]
pub struct ExSwcJSXAttrOrSpread(SwcJSXAttrOrSpread);

#[verifier::external_type_specification]
#[verifier::external_body]
pub struct ExSwcJSXElementChild(SwcJSXElementChild);

#[verifier::external_type_specification]
#[verifier::external_body]
pub struct ExSwcJSXExpr(SwcJSXExpr);

/// The module a source text parses to, or `None` when it does not parse.
pub uninterp spec fn parsed_module(source: Seq<char>) -> Option<ast::Module>;

/// `swc_ecma_parser::Parser::parse_module` on a source text, with the
/// syntax of ECMAScript and JSX, converted into the library's tree; `None`
/// where the parser reports an error.  The result is named by
/// `parsed_module` of the text.
#[verifier::external_body]
pub fn parse_source(source: &str) -> (r: Option<ast::Module>)
    ensures
        r == parsed_module(source@),
{
    let source_map: Lrc<SourceMap> = Default::default();
    let file = source_map.new_source_file(Lrc::new(FileName::Anon), source.to_string());
    let syntax = Syntax::Es(EsSyntax { jsx: true, ..Default::default() });
    let mut parser = Parser::new(syntax, StringInput::from(&*file), None);
    parser.parse_module().ok().map(|m| convert_module(&m))
}

/// Convert a module.
#[verifier::external_body]
fn convert_module(m: &swc::Module) -> ast::Module {
    ast::Module { body: m.body.iter().map(convert_item).collect() }
}

/// Convert a module item.
#[verifier::external_body]
fn convert_item(item: &swc::ModuleItem) -> ast::ModuleItem {
    match item {
        swc::ModuleItem::ModuleDecl(swc::ModuleDecl::Import(i)) => ast::ModuleItem::Import(convert_import(i)),
        swc::ModuleItem::ModuleDecl(d) => ast::ModuleItem::Export(convert_export(d)),
        swc::ModuleItem::Stmt(s) => ast::ModuleItem::Stmt(convert_stmt(s)),
    }
}

/// Convert an import declaration.
#[verifier::external_body]
fn convert_import(i: &swc::ImportDecl) -> ast::ImportDecl {
    ast::ImportDecl {
        src: i.src.value.to_atom_lossy().to_string(),
        specifiers: i.specifiers.iter().map(convert_import_specifier).collect(),
    }
}

/// Convert an import specifier.
#[verifier::external_body]
fn convert_import_specifier(s: &swc::ImportSpecifier) -> ast::ImportSpecifier {
    match s {
        swc::ImportSpecifier::Named(n) => {
            ast::ImportSpecifier::Named(n.local.sym.to_string(), n.imported.as_ref().map(convert_export_name))
        },
        swc::ImportSpecifier::Default(n) => ast::ImportSpecifier::Default(n.local.sym.to_string()),
        swc::ImportSpecifier::Namespace(n) => ast::ImportSpecifier::Namespace(n.local.sym.to_string()),
    }
}

/// Convert the name of an export.
#[verifier::external_body]
fn convert_export_name(n: &swc::ModuleExportName) -> String {
    match n {
        swc::ModuleExportName::Ident(i) => i.sym.to_string(),
        swc::ModuleExportName::Str(s) => s.value.to_atom_lossy().to_string(),
    }
}

/// Convert an export declaration.
#[verifier::external_body]
fn convert_export(d: &swc::ModuleDecl) -> ast::ExportDecl {
    match d {
        swc::ModuleDecl::ExportAll(e) => ast::ExportDecl::All(e.src.value.to_atom_lossy().to_string()),
        swc::ModuleDecl::ExportNamed(e) => convert_named_export(e),
        swc::ModuleDecl::ExportDecl(e) => ast::ExportDecl::Decl(convert_decl(&e.decl)),
        swc::ModuleDecl::ExportDefaultExpr(e) => ast::ExportDecl::DefaultExpr(convert_boxed(&swc::ExprStmt { span: DUMMY_SP, expr: (&e.expr).clone() })),
        swc::ModuleDecl::ExportDefaultDecl(e) => convert_default_decl(&e.decl),
        _ => ast::ExportDecl::Other,
    }
}

/// Convert a named export.
#[verifier::external_body]
fn convert_named_export(e: &swc::NamedExport) -> ast::ExportDecl {
    ast::ExportDecl::Named(
        e.src.as_ref().map(|s| s.value.to_atom_lossy().to_string()),
        e.specifiers.iter().map(convert_export_specifier).collect(),
    )
}

/// Convert an export specifier.
#[verifier::external_body]
fn convert_export_specifier(s: &swc::ExportSpecifier) -> ast::ExportSpecifier {
    match s {
        swc::ExportSpecifier::Named(n) => {
            ast::ExportSpecifier::Named(convert_export_name(&n.orig), n.exported.as_ref().map(convert_export_name))
        },
        _ => ast::ExportSpecifier::Other,
    }
}

/// Convert a default export of a declaration, as the function or class
/// expression.
#[verifier::external_body]
fn convert_default_decl(d: &swc::DefaultDecl) -> ast::ExportDecl {
    match d {
        swc::DefaultDecl::Fn(f) => ast::ExportDecl::DefaultDecl(
            Box::new(ast::Expr::Fn(f.ident.as_ref().map(|i| i.sym.to_string()), convert_function(&f.function))),
        ),
        swc::DefaultDecl::Class(c) => ast::ExportDecl::DefaultDecl(
            Box::new(ast::Expr::Class(c.ident.as_ref().map(|i| i.sym.to_string()), convert_class(&c.class))),
        ),
        _ => ast::ExportDecl::Other,
    }
}

/// Convert statements.
#[verifier::external_body]
fn convert_stmts(ss: &[swc::Stmt]) -> Vec<ast::Stmt> {
    ss.iter().map(convert_stmt).collect()
}

/// Convert a boxed statement.
#[verifier::external_body]
fn convert_boxed_stmt(s: &swc::Stmt) -> Box<ast::Stmt> {
    Box::new(convert_stmt(s))
}

/// Convert a statement: blocks, `with` and loops.
#[verifier::external_body]
fn convert_stmt(s: &swc::Stmt) -> ast::Stmt {
    match s {
        swc::Stmt::Block(b) => ast::Stmt::Block(convert_stmts(&b.stmts)),
        swc::Stmt::With(w) => ast::Stmt::With(convert_boxed(&swc::ExprStmt { span: DUMMY_SP, expr: (&w.obj).clone() }), convert_boxed_stmt(&w.body)),
        swc::Stmt::While(w) => ast::Stmt::While(convert_boxed(&swc::ExprStmt { span: DUMMY_SP, expr: (&w.test).clone() }), convert_boxed_stmt(&w.body)),
        swc::Stmt::DoWhile(w) => ast::Stmt::DoWhile(convert_boxed(&swc::ExprStmt { span: DUMMY_SP, expr: (&w.test).clone() }), convert_boxed_stmt(&w.body)),
        swc::Stmt::For(f) => convert_for(f),
        _ => convert_stmt_branch(s),
    }
}

/// Convert a statement: `for ... in`, `for ... of`, labels, `if` and `try`.
#[verifier::external_body]
fn convert_stmt_branch(s: &swc::Stmt) -> ast::Stmt {
    match s {
        swc::Stmt::ForIn(f) => {
            ast::Stmt::ForIn(convert_for_head(&f.left), convert_boxed(&swc::ExprStmt { span: DUMMY_SP, expr: (&f.right).clone() }), convert_boxed_stmt(&f.body))
        },
        swc::Stmt::ForOf(f) => {
            ast::Stmt::ForOf(convert_for_head(&f.left), convert_boxed(&swc::ExprStmt { span: DUMMY_SP, expr: (&f.right).clone() }), convert_boxed_stmt(&f.body))
        },
        swc::Stmt::Labeled(l) => ast::Stmt::Labeled(convert_boxed_stmt(&l.body)),
        swc::Stmt::Try(t) => convert_try(t),
        _ => convert_stmt_rest(s),
    }
}

/// Convert a statement: `if`, `switch` and `return`.
#[verifier::external_body]
fn convert_stmt_rest(s: &swc::Stmt) -> ast::Stmt {
    match s {
        swc::Stmt::If(i) => ast::Stmt::If(
            convert_boxed(&swc::ExprStmt { span: DUMMY_SP, expr: (&i.test).clone() }),
            convert_boxed_stmt(&i.cons),
            i.alt.as_ref().map(|a| convert_boxed_stmt(a)),
        ),
        swc::Stmt::Switch(w) => ast::Stmt::Switch(convert_boxed(&swc::ExprStmt { span: DUMMY_SP, expr: (&w.discriminant).clone() }), w.cases.iter().map(convert_case).collect()),
        swc::Stmt::Return(r) => ast::Stmt::Return(r.arg.as_ref().map(|e| convert_boxed(&swc::ExprStmt { span: DUMMY_SP, expr: (e).clone() }))),
        _ => convert_stmt_last(s),
    }
}

/// Convert a statement: `throw`, expressions and declarations.
#[verifier::external_body]
fn convert_stmt_last(s: &swc::Stmt) -> ast::Stmt {
    match s {
        swc::Stmt::Throw(t) => ast::Stmt::Throw(convert_boxed(&swc::ExprStmt { span: DUMMY_SP, expr: (&t.arg).clone() })),
        swc::Stmt::Expr(e) => ast::Stmt::Expr(convert_boxed(&swc::ExprStmt { span: DUMMY_SP, expr: (&e.expr).clone() })),
        swc::Stmt::Decl(d) => ast::Stmt::Decl(convert_decl(d)),
        _ => ast::Stmt::Other,
    }
}

/// Convert a `for` statement.
#[verifier::external_body]
fn convert_for(f: &swc::ForStmt) -> ast::Stmt {
    ast::Stmt::For(
        f.init.as_ref().map(|init| match init {
            swc::VarDeclOrExpr::VarDecl(v) => ast::VarDeclOrExpr::VarDecl(convert_var_decl(v)),
            swc::VarDeclOrExpr::Expr(e) => ast::VarDeclOrExpr::Expr(convert_boxed(&swc::ExprStmt { span: DUMMY_SP, expr: (e).clone() })),
        }),
        f.test.as_ref().map(|e| convert_boxed(&swc::ExprStmt { span: DUMMY_SP, expr: (e).clone() })),
        f.update.as_ref().map(|e| convert_boxed(&swc::ExprStmt { span: DUMMY_SP, expr: (e).clone() })),
        convert_boxed_stmt(&f.body),
    )
}

/// Convert a `try` statement.
#[verifier::external_body]
fn convert_try(t: &swc::TryStmt) -> ast::Stmt {
    ast::Stmt::Try(
        convert_stmts(&t.block.stmts),
        t.handler.as_ref().map(convert_catch),
        t.finalizer.as_ref().map(|b| convert_stmts(&b.stmts)),
    )
}

/// Convert a catch clause.
#[verifier::external_body]
fn convert_catch(h: &swc::CatchClause) -> ast::CatchClause {
    ast::CatchClause { param: h.param.as_ref().map(convert_pat), body: convert_stmts(&h.body.stmts) }
}

/// Convert a case of a switch.
#[verifier::external_body]
fn convert_case(c: &swc::SwitchCase) -> ast::SwitchCase {
    ast::SwitchCase { test: c.test.as_ref().map(|e| convert_boxed(&swc::ExprStmt { span: DUMMY_SP, expr: (e).clone() })), cons: convert_stmts(&c.cons) }
}

/// Convert the left of a `for ... in` or `for ... of` header.
#[verifier::external_body]
fn convert_for_head(h: &swc::ForHead) -> ast::VarDeclOrPat {
    match h {
        swc::ForHead::VarDecl(v) => ast::VarDeclOrPat::VarDecl(convert_var_decl(v)),
        swc::ForHead::Pat(p) => ast::VarDeclOrPat::Pat(convert_pat(p)),
        swc::ForHead::UsingDecl(_) => ast::VarDeclOrPat::Pat(ast::Pat::Other),
    }
}

/// Convert a declaration.
#[verifier::external_body]
fn convert_decl(d: &swc::Decl) -> ast::Decl {
    match d {
        swc::Decl::Fn(f) => ast::Decl::Fn(f.ident.sym.to_string(), convert_function(&f.function)),
        swc::Decl::Class(c) => ast::Decl::Class(c.ident.sym.to_string(), convert_class(&c.class)),
        swc::Decl::Var(v) => ast::Decl::Var(convert_var_decl(v)),
        _ => ast::Decl::Other,
    }
}

/// Convert a variable declaration.
#[verifier::external_body]
fn convert_var_decl(v: &swc::VarDecl) -> ast::VarDecl {
    let kind = match v.kind {
        swc::VarDeclKind::Var => ast::VarDeclKind::Var,
        swc::VarDeclKind::Let => ast::VarDeclKind::Let,
        swc::VarDeclKind::Const => ast::VarDeclKind::Const,
    };
    ast::VarDecl { kind, decls: v.decls.iter().map(convert_declarator).collect() }
}

/// Convert a declarator.
#[verifier::external_body]
fn convert_declarator(d: &swc::VarDeclarator) -> ast::VarDeclarator {
    ast::VarDeclarator { name: convert_pat(&d.name), init: d.init.as_ref().map(|e| convert_boxed(&swc::ExprStmt { span: DUMMY_SP, expr: (e).clone() })) }
}

/// Convert a function.
#[verifier::external_body]
fn convert_function(f: &swc::Function) -> ast::Function {
    ast::Function {
        params: f.params.iter().map(|p| convert_pat(&p.pat)).collect(),
        body: f.body.as_ref().map(|b| convert_stmts(&b.stmts)),
    }
}

/// Convert a class.
#[verifier::external_body]
fn convert_class(c: &swc::Class) -> ast::Class {
    ast::Class {
        super_class: c.super_class.as_ref().map(|e| convert_boxed(&swc::ExprStmt { span: DUMMY_SP, expr: (e).clone() })),
        body: c.body.iter().map(convert_member).collect(),
    }
}

/// Convert a class member: constructors, methods and static blocks.
#[verifier::external_body]
fn convert_member(m: &swc::ClassMember) -> ast::ClassMember {
    match m {
        swc::ClassMember::Constructor(k) => ast::ClassMember::Constructor(
            k.params.iter().filter_map(|p| match p {
                swc::ParamOrTsParamProp::Param(p) => Some(convert_pat(&p.pat)),
                swc::ParamOrTsParamProp::TsParamProp(_) => None,
            }).collect(),
            k.body.as_ref().map(|b| convert_stmts(&b.stmts)),
        ),
        swc::ClassMember::Method(m) => {
            ast::ClassMember::Method(m.is_static, convert_prop_name(&m.key), convert_function(&m.function))
        },
        swc::ClassMember::StaticBlock(b) => ast::ClassMember::StaticBlock(convert_stmts(&b.body.stmts)),
        _ => convert_member_rest(m),
    }
}

/// Convert a class member: private methods and properties.
#[verifier::external_body]
fn convert_member_rest(m: &swc::ClassMember) -> ast::ClassMember {
    match m {
        swc::ClassMember::PrivateMethod(m) => {
            ast::ClassMember::PrivateMethod(m.is_static, m.key.name.to_string(), convert_function(&m.function))
        },
        swc::ClassMember::ClassProp(p) => {
            ast::ClassMember::ClassProp(p.is_static, convert_prop_name(&p.key), p.value.as_ref().map(|e| convert_boxed(&swc::ExprStmt { span: DUMMY_SP, expr: (e).clone() })))
        },
        swc::ClassMember::PrivateProp(p) => {
            ast::ClassMember::PrivateProp(p.is_static, p.key.name.to_string(), p.value.as_ref().map(|e| convert_boxed(&swc::ExprStmt { span: DUMMY_SP, expr: (e).clone() })))
        },
        _ => ast::ClassMember::Other,
    }
}

/// Convert the arguments of a call.
#[verifier::external_body]
fn convert_args(args: &[swc::ExprOrSpread]) -> Vec<ast::Expr> {
    args.iter().map(|a| convert_expr(&swc::ExprStmt { span: DUMMY_SP, expr: (&a.expr).clone() })).collect()
}

/// Convert a member expression.
#[verifier::external_body]
fn convert_member_expr(m: &swc::MemberExpr) -> ast::MemberExpr {
    let (prop, computed) = match &m.prop {
        swc::MemberProp::Ident(i) => (Box::new(ast::Expr::Ident(i.sym.to_string())), false),
        swc::MemberProp::PrivateName(n) => (Box::new(ast::Expr::PrivateName(n.name.to_string())), false),
        swc::MemberProp::Computed(c) => (convert_boxed(&swc::ExprStmt { span: DUMMY_SP, expr: (&c.expr).clone() }), true),
    };
    ast::MemberExpr { obj: ast::ExprOrSuper::Expr(convert_boxed(&swc::ExprStmt { span: DUMMY_SP, expr: (&m.obj).clone() })), prop, computed }
}

/// Convert a callee; a dynamic `import` is the identifier `import`.
#[verifier::external_body]
fn convert_callee(c: &swc::Callee) -> ast::ExprOrSuper {
    match c {
        swc::Callee::Super(_) => ast::ExprOrSuper::Super,
        swc::Callee::Import(_) => ast::ExprOrSuper::Expr(Box::new(ast::Expr::Ident("import".to_string()))),
        swc::Callee::Expr(e) => ast::ExprOrSuper::Expr(convert_boxed(&swc::ExprStmt { span: DUMMY_SP, expr: (e).clone() })),
    }
}

/// Convert a boxed expression.
#[verifier::external_body]
fn convert_boxed(e: &SwcExprStmt) -> Box<ast::Expr> {
    Box::new(convert_expr(e))
}

/// Convert an expression: `this`, names and binary operators.
#[verifier::external_body]
fn convert_expr(e: &SwcExprStmt) -> ast::Expr {
    match &*e.expr {
        swc::Expr::This(_) => ast::Expr::This,
        swc::Expr::Ident(i) => ast::Expr::Ident(i.sym.to_string()),
        swc::Expr::PrivateName(n) => ast::Expr::PrivateName(n.name.to_string()),
        swc::Expr::Bin(b) => ast::Expr::Bin(convert_boxed(&swc::ExprStmt { span: DUMMY_SP, expr: (&b.left).clone() }), convert_boxed(&swc::ExprStmt { span: DUMMY_SP, expr: (&b.right).clone() })),
        _ => convert_expr_template(e),
    }
}

/// Convert an expression: templates.
#[verifier::external_body]
fn convert_expr_template(e: &SwcExprStmt) -> ast::Expr {
    match &*e.expr {
        swc::Expr::Tpl(t) => ast::Expr::Tpl(t.exprs.iter().map(|x| convert_expr(&swc::ExprStmt { span: DUMMY_SP, expr: (x).clone() })).collect()),
        swc::Expr::TaggedTpl(t) => ast::Expr::TaggedTpl(
            convert_boxed(&swc::ExprStmt { span: DUMMY_SP, expr: (&t.tag).clone() }),
            t.tpl.exprs.iter().map(|x| convert_expr(&swc::ExprStmt { span: DUMMY_SP, expr: (x).clone() })).collect(),
        ),
        _ => convert_expr_sequence(e),
    }
}

/// Convert an expression: sequences.
#[verifier::external_body]
fn convert_expr_sequence(e: &SwcExprStmt) -> ast::Expr {
    match &*e.expr {
        swc::Expr::Seq(q) => ast::Expr::Sequence(q.exprs.iter().map(|x| convert_expr(&swc::ExprStmt { span: DUMMY_SP, expr: (x).clone() })).collect()),
        _ => convert_expr_literal(e),
    }
}

/// Convert an expression: arrays and objects.
#[verifier::external_body]
fn convert_expr_literal(e: &SwcExprStmt) -> ast::Expr {
    match &*e.expr {
        swc::Expr::Array(a) => ast::Expr::Array(
            a.elems.iter().map(|el| el.as_ref().map(|el| convert_expr(&swc::ExprStmt { span: DUMMY_SP, expr: (&el.expr).clone() }))).collect(),
        ),
        swc::Expr::Object(o) => ast::Expr::Object(o.props.iter().map(convert_prop).collect()),
        _ => convert_expr_unary(e),
    }
}

/// Convert an expression: parentheses, `yield` and `await`.
#[verifier::external_body]
fn convert_expr_unary(e: &SwcExprStmt) -> ast::Expr {
    match &*e.expr {
        swc::Expr::Paren(p) => ast::Expr::Paren(convert_boxed(&swc::ExprStmt { span: DUMMY_SP, expr: (&p.expr).clone() })),
        swc::Expr::Yield(y) => ast::Expr::Yield(y.arg.as_ref().map(|x| convert_boxed(&swc::ExprStmt { span: DUMMY_SP, expr: (x).clone() }))),
        swc::Expr::Await(a) => ast::Expr::Await(convert_boxed(&swc::ExprStmt { span: DUMMY_SP, expr: (&a.arg).clone() })),
        _ => convert_expr_cond(e),
    }
}

/// Convert an expression: conditionals.
#[verifier::external_body]
fn convert_expr_cond(e: &SwcExprStmt) -> ast::Expr {
    match &*e.expr {
        swc::Expr::Cond(c) => ast::Expr::Cond(
            convert_boxed(&swc::ExprStmt { span: DUMMY_SP, expr: (&c.test).clone() }),
            convert_boxed(&swc::ExprStmt { span: DUMMY_SP, expr: (&c.cons).clone() }),
            convert_boxed(&swc::ExprStmt { span: DUMMY_SP, expr: (&c.alt).clone() }),
        ),
        _ => convert_expr_update(e),
    }
}

/// Convert an expression: updates and unary operators.
#[verifier::external_body]
fn convert_expr_update(e: &SwcExprStmt) -> ast::Expr {
    match &*e.expr {
        swc::Expr::Update(u) => ast::Expr::Update(convert_boxed(&swc::ExprStmt { span: DUMMY_SP, expr: (&u.arg).clone() })),
        swc::Expr::Unary(u) => ast::Expr::Unary(convert_boxed(&swc::ExprStmt { span: DUMMY_SP, expr: (&u.arg).clone() })),
        _ => convert_expr_arrow(e),
    }
}

/// Convert an expression: arrow functions.
#[verifier::external_body]
fn convert_expr_arrow(e: &SwcExprStmt) -> ast::Expr {
    match &*e.expr {
        swc::Expr::Arrow(a) => ast::Expr::Arrow(ast::ArrowExpr {
            params: a.params.iter().map(convert_pat).collect(),
            body: match &*a.body {
                swc::ArrowFunctionBody::FunctionBody(b) => ast::BlockStmtOrExpr::BlockStmt(convert_stmts(&b.stmts)),
                swc::ArrowFunctionBody::Expr(x) => ast::BlockStmtOrExpr::Expr(convert_boxed(&swc::ExprStmt { span: DUMMY_SP, expr: (x).clone() })),
            },
        }),
        _ => convert_expr_call(e),
    }
}

/// Convert an expression: calls and assignments.
#[verifier::external_body]
fn convert_expr_call(e: &SwcExprStmt) -> ast::Expr {
    match &*e.expr {
        swc::Expr::Call(c) => ast::Expr::Call(ast::CallExpr { callee: convert_callee(&c.callee), args: convert_args(&c.args) }),
        swc::Expr::Assign(a) => ast::Expr::Assign(convert_assign_target(&a.left), convert_boxed(&swc::ExprStmt { span: DUMMY_SP, expr: (&a.right).clone() })),
        _ => convert_expr_member(e),
    }
}

/// Convert an expression: optional chains and members.
#[verifier::external_body]
fn convert_expr_member(e: &SwcExprStmt) -> ast::Expr {
    match &*e.expr {
        swc::Expr::OptChain(o) => ast::Expr::OptChain(Box::new(match &*o.base {
            swc::OptChainBase::Member(m) => ast::Expr::Member(convert_member_expr(m)),
            swc::OptChainBase::Call(c) => ast::Expr::Call(ast::CallExpr {
                callee: ast::ExprOrSuper::Expr(convert_boxed(&swc::ExprStmt { span: DUMMY_SP, expr: (&c.callee).clone() })),
                args: convert_args(&c.args),
            }),
        })),
        swc::Expr::Member(m) => ast::Expr::Member(convert_member_expr(m)),
        _ => convert_expr_rest(e),
    }
}

/// Convert an expression: properties of `super`.
#[verifier::external_body]
fn convert_expr_rest(e: &SwcExprStmt) -> ast::Expr {
    match &*e.expr {
        swc::Expr::SuperProp(p) => ast::Expr::Member(ast::MemberExpr {
            obj: ast::ExprOrSuper::Super,
            prop: match &p.prop {
                swc::SuperProp::Ident(i) => Box::new(ast::Expr::Ident(i.sym.to_string())),
                swc::SuperProp::Computed(c) => convert_boxed(&swc::ExprStmt { span: DUMMY_SP, expr: (&c.expr).clone() }),
            },
            computed: matches!(p.prop, swc::SuperProp::Computed(_)),
        }),
        _ => convert_expr_new(e),
    }
}

/// Convert an expression: `new`.
#[verifier::external_body]
fn convert_expr_new(e: &SwcExprStmt) -> ast::Expr {
    match &*e.expr {
        swc::Expr::New(n) => ast::Expr::New(ast::NewExpr {
            callee: convert_boxed(&swc::ExprStmt { span: DUMMY_SP, expr: (&n.callee).clone() }),
            args: n.args.as_ref().map(|a| convert_args(a)),
        }),
        _ => convert_expr_value(e),
    }
}

/// Convert an expression: functions, classes and literals.
#[verifier::external_body]
fn convert_expr_value(e: &SwcExprStmt) -> ast::Expr {
    match &*e.expr {
        swc::Expr::Fn(f) => ast::Expr::Fn(f.ident.as_ref().map(|i| i.sym.to_string()), convert_function(&f.function)),
        swc::Expr::Class(c) => ast::Expr::Class(c.ident.as_ref().map(|i| i.sym.to_string()), convert_class(&c.class)),
        swc::Expr::Lit(swc::Lit::Str(t)) => ast::Expr::Lit(ast::Lit::Str(t.value.to_atom_lossy().to_string())),
        swc::Expr::Lit(_) => ast::Expr::Lit(ast::Lit::Other),
        _ => convert_expr_jsx(e),
    }
}

/// Convert an expression: JSX elements and fragments.
#[verifier::external_body]
fn convert_expr_jsx(e: &SwcExprStmt) -> ast::Expr {
    match &*e.expr {
        swc::Expr::JSXElement(el) => convert_jsx_element(el),
        swc::Expr::JSXFragment(f) => convert_jsx_fragment(f),
        _ => ast::Expr::Other,
    }
}

/// Convert a JSX element: one expression for each attribute, then one for
/// each child.
#[verifier::external_body]
fn convert_jsx_element(el: &SwcJSXElement) -> ast::Expr {
    ast::Expr::Jsx(el.opening.attrs.iter().map(convert_jsx_attr).chain(el.children.iter().map(convert_jsx_child)).collect())
}

/// Convert a JSX fragment: one expression for each child.
#[verifier::external_body]
fn convert_jsx_fragment(f: &SwcJSXFragment) -> ast::Expr {
    ast::Expr::Jsx(f.children.iter().map(convert_jsx_child).collect())
}

/// Convert a JSX attribute: a spread, an expression value, or a nested
/// element or fragment; `Other` for a string value or none.
#[verifier::external_body]
fn convert_jsx_attr(a: &SwcJSXAttrOrSpread) -> ast::Expr {
    match a {
        swc::JSXAttrOrSpread::SpreadElement(sp) => convert_expr(&swc::ExprStmt { span: DUMMY_SP, expr: (&sp.expr).clone() }),
        swc::JSXAttrOrSpread::JSXAttr(at) => match &at.value {
            Some(swc::JSXAttrValue::JSXExprContainer(c)) => convert_jsx_expr(&c.expr),
            Some(swc::JSXAttrValue::JSXElement(el)) => convert_jsx_element(el),
            Some(swc::JSXAttrValue::JSXFragment(f)) => convert_jsx_fragment(f),
            _ => ast::Expr::Other,
        },
    }
}

/// Convert a JSX child: an expression, a spread, or a nested element or
/// fragment; `Other` for text.
#[verifier::external_body]
fn convert_jsx_child(c: &SwcJSXElementChild) -> ast::Expr {
    match c {
        swc::JSXElementChild::JSXExprContainer(x) => convert_jsx_expr(&x.expr),
        swc::JSXElementChild::JSXSpreadChild(sp) => convert_expr(&swc::ExprStmt { span: DUMMY_SP, expr: (&sp.expr).clone() }),
        swc::JSXElementChild::JSXElement(el) => convert_jsx_element(el),
        swc::JSXElementChild::JSXFragment(f) => convert_jsx_fragment(f),
        swc::JSXElementChild::JSXText(_) => ast::Expr::Other,
    }
}

/// Convert the expression of a JSX container; `Other` when it is empty.
#[verifier::external_body]
fn convert_jsx_expr(x: &SwcJSXExpr) -> ast::Expr {
    match x {
        swc::JSXExpr::Expr(e) => convert_expr(&swc::ExprStmt { span: DUMMY_SP, expr: (e).clone() }),
        swc::JSXExpr::JSXEmptyExpr(_) => ast::Expr::Other,
    }
}

/// Convert a property of an object literal.
#[verifier::external_body]
fn convert_prop(p: &swc::PropOrSpread) -> ast::PropOrSpread {
    match p {
        swc::PropOrSpread::Spread(s) => ast::PropOrSpread::Spread(convert_boxed(&swc::ExprStmt { span: DUMMY_SP, expr: (&s.expr).clone() })),
        swc::PropOrSpread::Prop(q) => match &**q {
            swc::Prop::Shorthand(i) => ast::PropOrSpread::Shorthand(i.sym.to_string()),
            swc::Prop::KeyValue(kv) => ast::PropOrSpread::KeyValue(convert_prop_name(&kv.key), convert_boxed(&swc::ExprStmt { span: DUMMY_SP, expr: (&kv.value).clone() })),
            _ => convert_prop_method(p),
        },
    }
}

/// Convert a property of an object literal: methods, getters and setters,
/// each with its key and function.
#[verifier::external_body]
fn convert_prop_method(p: &SwcPropOrSpread) -> ast::PropOrSpread {
    match p {
        swc::PropOrSpread::Prop(q) => match &**q {
            swc::Prop::Method(m) => ast::PropOrSpread::Method(convert_prop_name(&m.key), convert_function(&m.function)),
            swc::Prop::Getter(g) => ast::PropOrSpread::Method(convert_prop_name(&g.key), convert_function(&g.function)),
            swc::Prop::Setter(st) => ast::PropOrSpread::Method(convert_prop_name(&st.key), convert_function(&st.function)),
            _ => ast::PropOrSpread::Other,
        },
        _ => ast::PropOrSpread::Other,
    }
}

/// Convert the target of an assignment: simple targets.
#[verifier::external_body]
fn convert_assign_target(t: &swc::AssignTarget) -> ast::PatOrExpr {
    match t {
        swc::AssignTarget::Simple(swc::SimpleAssignTarget::Ident(i)) => {
            ast::PatOrExpr::Pat(Box::new(ast::Pat::Ident(i.id.sym.to_string())))
        },
        swc::AssignTarget::Simple(swc::SimpleAssignTarget::Member(m)) => {
            ast::PatOrExpr::Expr(Box::new(ast::Expr::Member(convert_member_expr(m))))
        },
        swc::AssignTarget::Simple(swc::SimpleAssignTarget::Paren(p)) => {
            ast::PatOrExpr::Expr(Box::new(ast::Expr::Paren(convert_boxed(&swc::ExprStmt { span: DUMMY_SP, expr: (&p.expr).clone() }))))
        },
        _ => convert_assign_pattern(t),
    }
}

/// Convert the target of an assignment: patterns.
#[verifier::external_body]
fn convert_assign_pattern(t: &swc::AssignTarget) -> ast::PatOrExpr {
    match t {
        swc::AssignTarget::Pat(swc::AssignTargetPat::Array(a)) => {
            ast::PatOrExpr::Pat(Box::new(convert_pat(&swc::Pat::Array(a.clone()))))
        },
        swc::AssignTarget::Pat(swc::AssignTargetPat::Object(o)) => {
            ast::PatOrExpr::Pat(Box::new(convert_pat(&swc::Pat::Object(o.clone()))))
        },
        _ => ast::PatOrExpr::Expr(Box::new(ast::Expr::Other)),
    }
}

/// Convert a property key.
#[verifier::external_body]
fn convert_prop_name(key: &swc::PropName) -> ast::PropName {
    match key {
        swc::PropName::Ident(i) => ast::PropName::Ident(i.sym.to_string()),
        swc::PropName::Computed(c) => ast::PropName::Computed(convert_boxed(&swc::ExprStmt { span: DUMMY_SP, expr: (&c.expr).clone() })),
        _ => ast::PropName::Other,
    }
}

/// Convert a pattern: names, arrays, rest elements and objects.
#[verifier::external_body]
fn convert_pat(p: &swc::Pat) -> ast::Pat {
    match p {
        swc::Pat::Ident(i) => ast::Pat::Ident(i.id.sym.to_string()),
        swc::Pat::Array(a) => ast::Pat::Array(a.elems.iter().map(|e| e.as_ref().map(convert_pat)).collect()),
        swc::Pat::Rest(r) => ast::Pat::Rest(Box::new(convert_pat(&r.arg))),
        swc::Pat::Object(o) => ast::Pat::Object(o.props.iter().map(convert_object_pat_prop).collect()),
        _ => convert_pat_rest(p),
    }
}

/// Convert a pattern: defaults and expressions.
#[verifier::external_body]
fn convert_pat_rest(p: &swc::Pat) -> ast::Pat {
    match p {
        swc::Pat::Assign(a) => ast::Pat::Assign(Box::new(convert_pat(&a.left)), convert_boxed(&swc::ExprStmt { span: DUMMY_SP, expr: (&a.right).clone() })),
        swc::Pat::Expr(e) => ast::Pat::Expr(convert_boxed(&swc::ExprStmt { span: DUMMY_SP, expr: (e).clone() })),
        _ => ast::Pat::Other,
    }
}

/// Convert a property of an object pattern.
#[verifier::external_body]
fn convert_object_pat_prop(p: &swc::ObjectPatProp) -> ast::ObjectPatProp {
    match p {
        swc::ObjectPatProp::KeyValue(kv) => ast::ObjectPatProp::KeyValue(convert_prop_name(&kv.key), Box::new(convert_pat(&kv.value))),
        swc::ObjectPatProp::Assign(a) => ast::ObjectPatProp::Assign(a.key.id.sym.to_string(), a.value.as_ref().map(|e| convert_boxed(&swc::ExprStmt { span: DUMMY_SP, expr: (e).clone() }))),
        swc::ObjectPatProp::Rest(r) => ast::ObjectPatProp::Rest(Box::new(convert_pat(&r.arg))),
    }
}

} // verus!
