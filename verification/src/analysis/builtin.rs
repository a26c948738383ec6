//! Analyze imports from builtin modules.
//!
//! Only finds builtin modules that are assigned;
//! side effect imports or calls to require will be ignored
//! under the assumption that built in modules would never
//! be designed for side effects.
//!
//! The analysis makes two passes; the first gathers the local symbols that
//! imports and `require` calls bind to builtin modules, the second detects
//! their usage and infers the access kind (RWX).
//!
//! Note that in the case of require calls that are shadowed
//! by an inner lexical scope then this analysis will result in false
//! positives.
//!
//! Note that `with` blocks are not evaluated relative to the target expression
//! so:
//!
//! ```javascript
//! with(process) {const foo = env.FOO};
//! ```
//!
//! Will only yield the entire `process` builtin and not the full path (`process.env.FOO`).
use vstd::prelude::*;

use indexmap::IndexMap;

use crate::analysis::dependencies::{is_core_package, latest_core_package};
use crate::ast::{
    BlockStmtOrExpr, CatchClause, Class, ClassMember, Decl, ExportDecl, Expr, ExprOrSuper, Function, ImportDecl, ImportSpecifier,
    Module, ModuleItem, ObjectPatProp, Pat, PatOrExpr, PropName, PropOrSpread, Stmt, SwitchCase, VarDeclOrExpr, VarDeclOrPat,
    VarDeclarator,
};
use crate::access::{Access, AccessKind};
use crate::collections::{
    entry_inserted, entry_value, inserted, lemma_key_position, name_access_entries, name_access_insert, name_access_new,
    path_access_entries, path_access_get, path_access_get_index, path_access_insert, path_access_len, path_access_new,
};
use crate::analysis::reach::{derefs, export_reach, reach_export};
use crate::helpers::{pattern_names, pattern_words};
use crate::policy::analysis::dynamic_import::{call_module, is_require_expr};
use crate::policy::analysis::member_expr::{member_expr_words, member_words};
use crate::policy::analysis::{join_words, joined, lemma_words_view_push, words_view};
use crate::text::str_eq;

verus! {

/// A local symbol bound to a builtin module.
#[derive(Debug)]
pub enum Local {
    /// The symbol stands for the whole module.
    Default(String),
    /// The symbol stands for a named export of the module; it is converted
    /// to a fully qualified path, eg: `readSync` becomes `fs.readSync`.
    Named(String),
}

/// A local symbol by its name.
pub enum LocalView {
    /// The symbol stands for the whole module.
    Default(Seq<char>),
    /// The symbol stands for a named export of the module.
    Named(Seq<char>),
}

impl View for Local {
    type V = LocalView;

    open spec fn view(&self) -> LocalView {
        match self {
            Local::Default(w) => LocalView::Default(w@),
            Local::Named(w) => LocalView::Named(w@),
        }
    }
}

/// A builtin module and the local symbols bound to it.
#[derive(Debug)]
pub struct Builtin {
    /// The module name.
    pub source: String,
    /// The local symbols.
    pub locals: Vec<Local>,
}

/// A builtin module and its local symbols, by their names.
pub struct BuiltinView {
    /// The module name.
    pub source: Seq<char>,
    /// The local symbols.
    pub locals: Seq<LocalView>,
}

/// The views of a list of local symbols.
pub open spec fn locals_view(ls: Seq<Local>) -> Seq<LocalView> {
    ls.map_values(|l: Local| l@)
}

impl View for Builtin {
    type V = BuiltinView;

    open spec fn view(&self) -> BuiltinView {
        BuiltinView { source: self.source@, locals: locals_view(self.locals@) }
    }
}

/// The views of a list of builtin modules.
pub open spec fn builtins_view(bs: Seq<Builtin>) -> Seq<BuiltinView> {
    bs.map_values(|b: Builtin| b@)
}

/// The name of a local symbol.
pub open spec fn local_word(l: LocalView) -> Seq<char> {
    match l {
        LocalView::Default(w) => w,
        LocalView::Named(w) => w,
    }
}

/// The local symbol an import specifier binds: a namespace import stands
/// for the whole module like a default import.
pub open spec fn specifier_local(s: ImportSpecifier) -> LocalView {
    match s {
        ImportSpecifier::Default(w) => LocalView::Default(w@),
        ImportSpecifier::Named(w, _) => LocalView::Named(w@),
        ImportSpecifier::Namespace(w) => LocalView::Default(w@),
    }
}

/// The local symbols of an import declaration, each once, in order.
pub open spec fn import_locals(specs: Seq<ImportSpecifier>) -> Seq<LocalView>
    decreases specs.len(),
{
    if specs.len() == 0 {
        Seq::empty()
    } else {
        inserted(import_locals(specs.drop_last()), specifier_local(specs.last()))
    }
}

/// The builtin module an import declaration binds, if its source is one.
pub open spec fn import_found(d: ImportDecl) -> Seq<BuiltinView> {
    if latest_core_package(d.src@) {
        seq![BuiltinView { source: d.src@, locals: import_locals(d.specifiers@) }]
    } else {
        Seq::empty()
    }
}

/// The local symbols a declarator binds to a required module: a plain name
/// stands for the whole module unless the `require` call is followed by a
/// property name; the names of a destructuring pattern are named exports.
pub open spec fn declarator_locals(name: Pat, is_member: bool) -> Seq<LocalView> {
    match name {
        Pat::Ident(x) => if is_member {
            seq![LocalView::Named(x@)]
        } else {
            seq![LocalView::Default(x@)]
        },
        _ => pattern_names(name).map_values(|w: Seq<char>| LocalView::Named(w)),
    }
}

/// The builtin module a declarator binds by a `require` call in its
/// initializer, if it names one.
pub open spec fn declarator_own(d: VarDeclarator) -> Seq<BuiltinView> {
    match d.init {
        Some(init) => match call_module(*init, "require"@) {
            Some((name, member)) => if latest_core_package(name) {
                seq![BuiltinView { source: name, locals: declarator_locals(d.name, member is Some) }]
            } else {
                Seq::empty()
            },
            None => Seq::empty(),
        },
        None => Seq::empty(),
    }
}

/// The builtin modules bound in a statement and every node inside it, in
/// source order.
pub open spec fn stmt_found(n: Stmt) -> Seq<BuiltinView>
    decreases n,
{
    match n {
        Stmt::Decl(d) => match d {
            Decl::Fn(_, f) => function_found(f),
            Decl::Class(_, c) => class_found(c),
            Decl::Var(v) => decls_found(v.decls@),
            Decl::Other => Seq::empty(),
        },
        Stmt::With(obj, body) => expr_found(*obj) + stmt_found(*body),
        Stmt::While(test, body) => expr_found(*test) + stmt_found(*body),
        Stmt::DoWhile(test, body) => expr_found(*test) + stmt_found(*body),
        Stmt::For(init, test, update, body) => (match init {
            Some(VarDeclOrExpr::VarDecl(v)) => decls_found(v.decls@),
            Some(VarDeclOrExpr::Expr(e)) => expr_found(*e),
            None => Seq::empty(),
        }) + (match test {
            Some(e) => expr_found(*e),
            None => Seq::empty(),
        }) + (match update {
            Some(e) => expr_found(*e),
            None => Seq::empty(),
        }) + stmt_found(*body),
        Stmt::ForIn(left, right, body) => left_found(left) + expr_found(*right) + stmt_found(*body),
        Stmt::ForOf(left, right, body) => left_found(left) + expr_found(*right) + stmt_found(*body),
        Stmt::Labeled(body) => stmt_found(*body),
        Stmt::If(test, cons, alt) => expr_found(*test) + stmt_found(*cons) + (match alt {
            Some(a) => stmt_found(*a),
            None => Seq::empty(),
        }),
        Stmt::Try(block, handler, finalizer) => stmts_found(block@) + (match handler {
            Some(h) => catch_found(h),
            None => Seq::empty(),
        }) + (match finalizer {
            Some(f) => stmts_found(f@),
            None => Seq::empty(),
        }),
        Stmt::Switch(d, cases) => expr_found(*d) + cases_found(cases@),
        Stmt::Block(ss) => stmts_found(ss@),
        Stmt::Return(arg) => match arg {
            Some(e) => expr_found(*e),
            None => Seq::empty(),
        },
        Stmt::Throw(e) => expr_found(*e),
        Stmt::Expr(e) => expr_found(*e),
        Stmt::Other => Seq::empty(),
    }
}

/// The builtin modules bound in the left of a `for ... in` or `for ... of`.
pub open spec fn left_found(left: VarDeclOrPat) -> Seq<BuiltinView>
    decreases left,
{
    match left {
        VarDeclOrPat::VarDecl(v) => decls_found(v.decls@),
        VarDeclOrPat::Pat(p) => pat_found(p),
    }
}

/// The builtin modules bound in a catch clause.
pub open spec fn catch_found(h: CatchClause) -> Seq<BuiltinView>
    decreases h,
{
    (match h.param {
        Some(p) => pat_found(p),
        None => Seq::empty(),
    }) + stmts_found(h.body@)
}

/// The builtin modules bound in statements, in order.
pub open spec fn stmts_found(ss: Seq<Stmt>) -> Seq<BuiltinView>
    decreases ss,
{
    if ss.len() == 0 {
        Seq::empty()
    } else {
        stmts_found(ss.subrange(0, ss.len() - 1)) + stmt_found(ss[ss.len() - 1])
    }
}

/// The builtin modules bound in the cases of a switch, in order.
pub open spec fn cases_found(cases: Seq<SwitchCase>) -> Seq<BuiltinView>
    decreases cases,
{
    if cases.len() == 0 {
        Seq::empty()
    } else {
        let c = cases[cases.len() - 1];
        cases_found(cases.subrange(0, cases.len() - 1)) + (match c.test {
            Some(e) => expr_found(*e),
            None => Seq::empty(),
        }) + stmts_found(c.cons@)
    }
}

/// The builtin modules bound in declarators, in order: each declarator's
/// own, then those inside its pattern and its initializer.
pub open spec fn decls_found(ds: Seq<VarDeclarator>) -> Seq<BuiltinView>
    decreases ds,
{
    if ds.len() == 0 {
        Seq::empty()
    } else {
        let d = ds[ds.len() - 1];
        decls_found(ds.subrange(0, ds.len() - 1)) + declarator_own(d) + pat_found(d.name) + (match d.init {
            Some(e) => expr_found(*e),
            None => Seq::empty(),
        })
    }
}

/// The builtin modules bound inside a pattern.
pub open spec fn pat_found(p: Pat) -> Seq<BuiltinView>
    decreases p,
{
    match p {
        Pat::Object(props) => obj_props_found(props@),
        Pat::Array(elems) => opt_pats_found(elems@),
        Pat::Rest(arg) => pat_found(*arg),
        Pat::Assign(left, right) => pat_found(*left) + expr_found(*right),
        Pat::Expr(e) => expr_found(*e),
        _ => Seq::empty(),
    }
}

/// The builtin modules bound inside patterns, in order.
pub open spec fn pats_found(ps: Seq<Pat>) -> Seq<BuiltinView>
    decreases ps,
{
    if ps.len() == 0 {
        Seq::empty()
    } else {
        pats_found(ps.subrange(0, ps.len() - 1)) + pat_found(ps[ps.len() - 1])
    }
}

/// The builtin modules bound inside the elements of an array pattern.
pub open spec fn opt_pats_found(ps: Seq<Option<Pat>>) -> Seq<BuiltinView>
    decreases ps,
{
    if ps.len() == 0 {
        Seq::empty()
    } else {
        opt_pats_found(ps.subrange(0, ps.len() - 1)) + match ps[ps.len() - 1] {
            Some(p) => pat_found(p),
            None => Seq::empty(),
        }
    }
}

/// The builtin modules bound inside the properties of an object pattern.
pub open spec fn obj_props_found(ps: Seq<ObjectPatProp>) -> Seq<BuiltinView>
    decreases ps,
{
    if ps.len() == 0 {
        Seq::empty()
    } else {
        obj_props_found(ps.subrange(0, ps.len() - 1)) + match ps[ps.len() - 1] {
            ObjectPatProp::KeyValue(k, v) => key_found(k) + pat_found(*v),
            ObjectPatProp::Rest(a) => pat_found(*a),
            ObjectPatProp::Assign(_, v) => match v {
                Some(e) => expr_found(*e),
                None => Seq::empty(),
            },
        }
    }
}

/// The builtin modules bound inside a function: its parameters, then its
/// body.
pub open spec fn function_found(f: Function) -> Seq<BuiltinView>
    decreases f,
{
    pats_found(f.params@) + match f.body {
        Some(ss) => stmts_found(ss@),
        None => Seq::empty(),
    }
}

/// The builtin modules bound inside a class: its members, then its super
/// class (the order of the class node's fields).
pub open spec fn class_found(c: Class) -> Seq<BuiltinView>
    decreases c,
{
    members_found(c.body@) + match c.super_class {
        Some(e) => expr_found(*e),
        None => Seq::empty(),
    }
}

/// The builtin modules bound inside class members, in order.
pub open spec fn members_found(ms: Seq<ClassMember>) -> Seq<BuiltinView>
    decreases ms,
{
    if ms.len() == 0 {
        Seq::empty()
    } else {
        members_found(ms.subrange(0, ms.len() - 1)) + match ms[ms.len() - 1] {
            ClassMember::Constructor(params, body) => pats_found(params@) + match body {
                Some(ss) => stmts_found(ss@),
                None => Seq::empty(),
            },
            ClassMember::Method(_, k, f) => key_found(k) + function_found(f),
            ClassMember::PrivateMethod(_, _, f) => function_found(f),
            ClassMember::ClassProp(_, k, v) => key_found(k) + match v {
                Some(e) => expr_found(*e),
                None => Seq::empty(),
            },
            ClassMember::PrivateProp(_, _, v) => match v {
                Some(e) => expr_found(*e),
                None => Seq::empty(),
            },
            ClassMember::StaticBlock(ss) => stmts_found(ss@),
            ClassMember::Other => Seq::empty(),
        }
    }
}

/// The builtin modules bound inside a property key: those of a computed
/// key's expression.
pub open spec fn key_found(k: PropName) -> Seq<BuiltinView>
    decreases k,
{
    match k {
        PropName::Computed(e) => expr_found(*e),
        _ => Seq::empty(),
    }
}

/// The builtin modules bound inside an expression, in source order.
pub open spec fn expr_found(n: Expr) -> Seq<BuiltinView>
    decreases n,
{
    match n {
        Expr::Bin(l, r) => expr_found(*l) + expr_found(*r),
        Expr::Tpl(es) => exprs_found(es@),
        Expr::TaggedTpl(tag, es) => expr_found(*tag) + exprs_found(es@),
        Expr::Sequence(es) => exprs_found(es@),
        Expr::Array(elems) => opt_exprs_found(elems@),
        Expr::Object(props) => props_found(props@),
        Expr::Paren(e) => expr_found(*e),
        Expr::Yield(arg) => match arg {
            Some(e) => expr_found(*e),
            None => Seq::empty(),
        },
        Expr::Cond(a, b, c) => expr_found(*a) + expr_found(*b) + expr_found(*c),
        Expr::Await(e) => expr_found(*e),
        Expr::Arrow(a) => pats_found(a.params@) + match a.body {
            BlockStmtOrExpr::BlockStmt(ss) => stmts_found(ss@),
            BlockStmtOrExpr::Expr(e) => expr_found(*e),
        },
        Expr::Call(c) => (match c.callee {
            ExprOrSuper::Expr(e) => expr_found(*e),
            ExprOrSuper::Super => Seq::empty(),
        }) + exprs_found(c.args@),
        Expr::Update(e) => expr_found(*e),
        Expr::Unary(e) => expr_found(*e),
        Expr::Assign(left, right) => (match left {
            PatOrExpr::Expr(e) => expr_found(*e),
            PatOrExpr::Pat(p) => pat_found(*p),
        }) + expr_found(*right),
        Expr::OptChain(e) => expr_found(*e),
        Expr::Member(m) => (match m.obj {
            ExprOrSuper::Expr(e) => expr_found(*e),
            ExprOrSuper::Super => Seq::empty(),
        }) + expr_found(*m.prop),
        Expr::New(ne) => expr_found(*ne.callee) + match ne.args {
            Some(args) => exprs_found(args@),
            None => Seq::empty(),
        },
        Expr::Fn(_, f) => function_found(f),
        Expr::Class(_, c) => class_found(c),
        Expr::Jsx(es) => exprs_found(es@),
        _ => Seq::empty(),
    }
}

/// The builtin modules bound inside expressions, in order.
pub open spec fn exprs_found(es: Seq<Expr>) -> Seq<BuiltinView>
    decreases es,
{
    if es.len() == 0 {
        Seq::empty()
    } else {
        exprs_found(es.subrange(0, es.len() - 1)) + expr_found(es[es.len() - 1])
    }
}

/// The builtin modules bound inside the present elements of an array.
pub open spec fn opt_exprs_found(es: Seq<Option<Expr>>) -> Seq<BuiltinView>
    decreases es,
{
    if es.len() == 0 {
        Seq::empty()
    } else {
        opt_exprs_found(es.subrange(0, es.len() - 1)) + match es[es.len() - 1] {
            Some(e) => expr_found(e),
            None => Seq::empty(),
        }
    }
}

/// The builtin modules bound inside the properties of an object literal.
pub open spec fn props_found(ps: Seq<PropOrSpread>) -> Seq<BuiltinView>
    decreases ps,
{
    if ps.len() == 0 {
        Seq::empty()
    } else {
        props_found(ps.subrange(0, ps.len() - 1)) + match ps[ps.len() - 1] {
            PropOrSpread::Spread(e) => expr_found(*e),
            PropOrSpread::KeyValue(k, e) => key_found(k) + expr_found(*e),
            PropOrSpread::Method(k, f) => key_found(k) + function_found(f),
            _ => Seq::empty(),
        }
    }
}

/// The builtin modules a module binds, in source order: those its import
/// declarations import and those its `require` calls assign.
pub open spec fn module_found(items: Seq<ModuleItem>) -> Seq<BuiltinView>
    decreases items.len(),
{
    if items.len() == 0 {
        Seq::empty()
    } else {
        module_found(items.drop_last()) + match items.last() {
            ModuleItem::Import(d) => import_found(d),
            ModuleItem::Stmt(s) => stmt_found(s),
            ModuleItem::Export(d) => export_found(d),
        }
    }
}

/// The builtin modules bound inside an export declaration.
pub open spec fn export_found(d: ExportDecl) -> Seq<BuiltinView> {
    match d {
        ExportDecl::Decl(dc) => match dc {
            Decl::Fn(_, f) => function_found(f),
            Decl::Class(_, c) => class_found(c),
            Decl::Var(v) => decls_found(v.decls@),
            Decl::Other => Seq::empty(),
        },
        ExportDecl::DefaultExpr(e) => expr_found(*e),
        ExportDecl::DefaultDecl(e) => expr_found(*e),
        _ => Seq::empty(),
    }
}

/// Whether a word names a method of function objects (`call`, `apply`,
/// `bind`, `toSource`, `toString`) that a call of a builtin goes through.
pub open spec fn function_method(w: Seq<char>) -> bool {
    w == "call"@ || w == "apply"@ || w == "bind"@ || w == "toSource"@ || w == "toString"@
}

/// The first local symbol with a name.
pub open spec fn find_local(locals: Seq<LocalView>, sym: Seq<char>) -> Option<LocalView>
    decreases locals.len(),
{
    if locals.len() == 0 {
        None
    } else if local_word(locals[0]) == sym {
        Some(locals[0])
    } else {
        find_local(locals.drop_first(), sym)
    }
}

/// The local symbol with a name of the first builtin module that binds
/// one, and that module's name.
pub open spec fn builtin_match(cands: Seq<BuiltinView>, sym: Seq<char>) -> Option<(LocalView, Seq<char>)>
    decreases cands.len(),
{
    if cands.len() == 0 {
        None
    } else {
        match find_local(cands[0].locals, sym) {
            Some(l) => Some((l, cands[0].source)),
            None => builtin_match(cands.drop_first(), sym),
        }
    }
}

/// An access with the flag of an access kind set.
pub open spec fn flagged(a: Access, kind: AccessKind) -> Access {
    match kind {
        AccessKind::Read => Access { read: true, write: a.write, execute: a.execute },
        AccessKind::Write => Access { read: a.read, write: true, execute: a.execute },
        AccessKind::Execute => Access { read: a.read, write: a.write, execute: true },
    }
}

/// The accesses by word path after recording an access of a kind to a
/// path: a path seen before keeps its place and gains the flag, a new path
/// is appended with only that flag.
pub open spec fn recorded(
    m: Seq<(Seq<Seq<char>>, Access)>,
    key: Seq<Seq<char>>,
    kind: AccessKind,
) -> Seq<(Seq<Seq<char>>, Access)> {
    let current = match entry_value(m, key) {
        Some(a) => a,
        None => Access { read: false, write: false, execute: false },
    };
    entry_inserted(m, key, flagged(current, kind))
}

/// The path of an access through an identifier bound to a builtin module:
/// the module alone when the identifier has the module's name, otherwise
/// the module followed by the identifier.
pub open spec fn ident_key(source: Seq<char>, sym: Seq<char>) -> Seq<Seq<char>> {
    if source == sym {
        seq![source]
    } else {
        seq![source, sym]
    }
}

/// The path of an access through a member expression whose first word is
/// bound to a builtin module: the module's name stands first, in place of
/// a symbol that stands for the whole module; a call through a function
/// method is a call of the function itself.
pub open spec fn member_key(
    words: Seq<Seq<char>>,
    local: LocalView,
    source: Seq<char>,
    kind: AccessKind,
) -> Seq<Seq<char>> {
    let qualified = if words[0] != source {
        seq![source] + if local is Default {
            words.drop_first()
        } else {
            words
        }
    } else {
        words
    };
    if kind is Execute && function_method(qualified.last()) {
        qualified.drop_last()
    } else {
        qualified
    }
}

/// The path written by assigning to a symbol bound to a builtin module.
pub open spec fn assign_key(local: LocalView, source: Seq<char>) -> Seq<Seq<char>> {
    match local {
        LocalView::Named(w) => seq![source, w],
        LocalView::Default(_) => seq![source],
    }
}

/// The accesses after visiting an expression evaluated for an access kind.
pub open spec fn expr_access(
    n: Expr,
    kind: AccessKind,
    cands: Seq<BuiltinView>,
    m: Seq<(Seq<Seq<char>>, Access)>,
) -> Seq<(Seq<Seq<char>>, Access)>
    decreases n,
{
    match n {
        Expr::Ident(sym) => match builtin_match(cands, sym@) {
            Some((_, source)) => recorded(m, ident_key(source, sym@), kind),
            None => m,
        },
        Expr::New(ne) => expr_access(*ne.callee, AccessKind::Read, cands, m),
        Expr::Fn(_, f) => function_access(f, cands, m),
        Expr::Arrow(a) => {
            let m1 = pats_access(a.params@, cands, m);
            match a.body {
                BlockStmtOrExpr::Expr(e) => expr_access(*e, kind, cands, m1),
                BlockStmtOrExpr::BlockStmt(ss) => stmts_access(ss@, cands, m1),
            }
        },
        Expr::Member(mem) => if call_module(Expr::Member(mem), "require"@) is None {
            let words = member_words(mem);
            if words.len() > 0 {
                match builtin_match(cands, words[0]) {
                    Some((local, source)) => recorded(m, member_key(words, local, source, kind), kind),
                    None => m,
                }
            } else {
                m
            }
        } else {
            m
        },
        Expr::Update(e) => expr_access(*e, AccessKind::Write, cands, m),
        Expr::Call(c) => if call_module(Expr::Call(c), "require"@) is None {
            let m1 = exprs_access(c.args@, AccessKind::Read, cands, m);
            match c.callee {
                ExprOrSuper::Expr(e) => expr_access(*e, AccessKind::Execute, cands, m1),
                ExprOrSuper::Super => m1,
            }
        } else {
            m
        },
        Expr::Assign(left, right) => {
            let m1 = match left {
                PatOrExpr::Pat(p) => match *p {
                    Pat::Ident(x) => match builtin_match(cands, x@) {
                        Some((local, source)) => recorded(m, assign_key(local, source), AccessKind::Write),
                        None => m,
                    },
                    Pat::Expr(e) => expr_access(*e, AccessKind::Write, cands, m),
                    _ => m,
                },
                PatOrExpr::Expr(_) => m,
            };
            expr_access(*right, kind, cands, m1)
        },
        Expr::Paren(e) => expr_access(*e, kind, cands, m),
        Expr::OptChain(e) => expr_access(*e, kind, cands, m),
        Expr::Unary(e) => expr_access(*e, kind, cands, m),
        Expr::Await(e) => expr_access(*e, kind, cands, m),
        Expr::Yield(arg) => match arg {
            Some(e) => expr_access(*e, kind, cands, m),
            None => m,
        },
        Expr::Bin(l, r) => expr_access(*r, kind, cands, expr_access(*l, kind, cands, m)),
        Expr::Cond(a, b, c) => expr_access(
            *c,
            kind,
            cands,
            expr_access(*b, kind, cands, expr_access(*a, kind, cands, m)),
        ),
        Expr::Tpl(es) => exprs_access(es@, kind, cands, m),
        Expr::TaggedTpl(tag, es) => exprs_access(es@, kind, cands, expr_access(*tag, kind, cands, m)),
        _ => m,
    }
}

/// The accesses after visiting expressions in order.
pub open spec fn exprs_access(
    es: Seq<Expr>,
    kind: AccessKind,
    cands: Seq<BuiltinView>,
    m: Seq<(Seq<Seq<char>>, Access)>,
) -> Seq<(Seq<Seq<char>>, Access)>
    decreases es,
{
    if es.len() == 0 {
        m
    } else {
        expr_access(es[es.len() - 1], kind, cands, exprs_access(es.subrange(0, es.len() - 1), kind, cands, m))
    }
}

/// The accesses after visiting a statement.
pub open spec fn stmt_access(
    n: Stmt,
    cands: Seq<BuiltinView>,
    m: Seq<(Seq<Seq<char>>, Access)>,
) -> Seq<(Seq<Seq<char>>, Access)>
    decreases n,
{
    match n {
        Stmt::Return(arg) => match arg {
            Some(e) => expr_access(*e, AccessKind::Read, cands, m),
            None => m,
        },
        Stmt::Decl(d) => match d {
            Decl::Fn(_, f) => function_access(f, cands, m),
            Decl::Class(_, c) => class_access(c, cands, m),
            Decl::Var(v) => decls_access(v.decls@, cands, m),
            Decl::Other => m,
        },
        Stmt::Block(ss) => stmts_access(ss@, cands, m),
        Stmt::Expr(e) => expr_access(*e, AccessKind::Read, cands, m),
        Stmt::With(obj, body) => stmt_access(*body, cands, expr_access(*obj, AccessKind::Read, cands, m)),
        Stmt::Labeled(body) => stmt_access(*body, cands, m),
        Stmt::If(test, cons, alt) => {
            let m1 = stmt_access(*cons, cands, expr_access(*test, AccessKind::Read, cands, m));
            match alt {
                Some(a) => stmt_access(*a, cands, m1),
                None => m1,
            }
        },
        Stmt::Switch(d, cases) => cases_access(cases@, cands, expr_access(*d, AccessKind::Read, cands, m)),
        Stmt::Throw(e) => expr_access(*e, AccessKind::Read, cands, m),
        Stmt::Try(block, handler, finalizer) => {
            let m1 = stmts_access(block@, cands, m);
            let m2 = match handler {
                Some(h) => stmts_access(h.body@, cands, m1),
                None => m1,
            };
            match finalizer {
                Some(f) => stmts_access(f@, cands, m2),
                None => m2,
            }
        },
        Stmt::While(test, body) => stmt_access(*body, cands, expr_access(*test, AccessKind::Read, cands, m)),
        Stmt::DoWhile(test, body) => stmt_access(*body, cands, expr_access(*test, AccessKind::Read, cands, m)),
        Stmt::For(init, test, update, body) => {
            let m1 = match init {
                Some(VarDeclOrExpr::VarDecl(v)) => decls_access(v.decls@, cands, m),
                Some(VarDeclOrExpr::Expr(e)) => expr_access(*e, AccessKind::Read, cands, m),
                None => m,
            };
            let m2 = match test {
                Some(e) => expr_access(*e, AccessKind::Read, cands, m1),
                None => m1,
            };
            let m3 = match update {
                Some(e) => expr_access(*e, AccessKind::Read, cands, m2),
                None => m2,
            };
            stmt_access(*body, cands, m3)
        },
        Stmt::ForIn(left, right, body) => stmt_access(
            *body,
            cands,
            expr_access(*right, AccessKind::Read, cands, left_access(left, cands, m)),
        ),
        Stmt::ForOf(left, right, body) => stmt_access(
            *body,
            cands,
            expr_access(*right, AccessKind::Read, cands, left_access(left, cands, m)),
        ),
        Stmt::Other => m,
    }
}

/// The accesses after visiting the left of a `for ... in` or `for ... of`.
pub open spec fn left_access(
    left: VarDeclOrPat,
    cands: Seq<BuiltinView>,
    m: Seq<(Seq<Seq<char>>, Access)>,
) -> Seq<(Seq<Seq<char>>, Access)>
    decreases left,
{
    match left {
        VarDeclOrPat::VarDecl(v) => decls_access(v.decls@, cands, m),
        VarDeclOrPat::Pat(p) => pat_access(p, cands, m),
    }
}

/// The accesses after visiting statements in order.
pub open spec fn stmts_access(
    ss: Seq<Stmt>,
    cands: Seq<BuiltinView>,
    m: Seq<(Seq<Seq<char>>, Access)>,
) -> Seq<(Seq<Seq<char>>, Access)>
    decreases ss,
{
    if ss.len() == 0 {
        m
    } else {
        stmt_access(ss[ss.len() - 1], cands, stmts_access(ss.subrange(0, ss.len() - 1), cands, m))
    }
}

/// The accesses after visiting the cases of a switch: each test is read,
/// then the statements of the case are visited.
pub open spec fn cases_access(
    cases: Seq<SwitchCase>,
    cands: Seq<BuiltinView>,
    m: Seq<(Seq<Seq<char>>, Access)>,
) -> Seq<(Seq<Seq<char>>, Access)>
    decreases cases,
{
    if cases.len() == 0 {
        m
    } else {
        let c = cases[cases.len() - 1];
        let m1 = cases_access(cases.subrange(0, cases.len() - 1), cands, m);
        let m2 = match c.test {
            Some(e) => expr_access(*e, AccessKind::Read, cands, m1),
            None => m1,
        };
        stmts_access(c.cons@, cands, m2)
    }
}

/// The accesses after reading the initializers of declarators in order.
pub open spec fn decls_access(
    ds: Seq<VarDeclarator>,
    cands: Seq<BuiltinView>,
    m: Seq<(Seq<Seq<char>>, Access)>,
) -> Seq<(Seq<Seq<char>>, Access)>
    decreases ds,
{
    if ds.len() == 0 {
        m
    } else {
        let m1 = decls_access(ds.subrange(0, ds.len() - 1), cands, m);
        match ds[ds.len() - 1].init {
            Some(e) => expr_access(*e, AccessKind::Read, cands, m1),
            None => m1,
        }
    }
}

/// The accesses after visiting a pattern: the default value of an
/// assignment pattern and an expression in pattern position are read.
pub open spec fn pat_access(
    p: Pat,
    cands: Seq<BuiltinView>,
    m: Seq<(Seq<Seq<char>>, Access)>,
) -> Seq<(Seq<Seq<char>>, Access)>
    decreases p,
{
    match p {
        Pat::Assign(_, right) => expr_access(*right, AccessKind::Read, cands, m),
        Pat::Expr(e) => expr_access(*e, AccessKind::Read, cands, m),
        _ => m,
    }
}

/// The accesses after visiting patterns in order.
pub open spec fn pats_access(
    ps: Seq<Pat>,
    cands: Seq<BuiltinView>,
    m: Seq<(Seq<Seq<char>>, Access)>,
) -> Seq<(Seq<Seq<char>>, Access)>
    decreases ps,
{
    if ps.len() == 0 {
        m
    } else {
        pat_access(ps[ps.len() - 1], cands, pats_access(ps.subrange(0, ps.len() - 1), cands, m))
    }
}

/// The accesses after visiting a function: its parameters, then its body.
pub open spec fn function_access(
    f: Function,
    cands: Seq<BuiltinView>,
    m: Seq<(Seq<Seq<char>>, Access)>,
) -> Seq<(Seq<Seq<char>>, Access)>
    decreases f,
{
    let m1 = pats_access(f.params@, cands, m);
    match f.body {
        Some(ss) => stmts_access(ss@, cands, m1),
        None => m1,
    }
}

/// The accesses after visiting a class declaration: its super class is
/// read, then its members are visited.
pub open spec fn class_access(
    c: Class,
    cands: Seq<BuiltinView>,
    m: Seq<(Seq<Seq<char>>, Access)>,
) -> Seq<(Seq<Seq<char>>, Access)>
    decreases c,
{
    let m1 = match c.super_class {
        Some(e) => expr_access(*e, AccessKind::Read, cands, m),
        None => m,
    };
    members_access(c.body@, cands, m1)
}

/// The accesses after visiting class members in order: the parameters and
/// body of the constructor, methods, and the values of properties, read.
pub open spec fn members_access(
    ms: Seq<ClassMember>,
    cands: Seq<BuiltinView>,
    m: Seq<(Seq<Seq<char>>, Access)>,
) -> Seq<(Seq<Seq<char>>, Access)>
    decreases ms,
{
    if ms.len() == 0 {
        m
    } else {
        let m1 = members_access(ms.subrange(0, ms.len() - 1), cands, m);
        match ms[ms.len() - 1] {
            ClassMember::Constructor(params, body) => {
                let m2 = pats_access(params@, cands, m1);
                match body {
                    Some(ss) => stmts_access(ss@, cands, m2),
                    None => m2,
                }
            },
            ClassMember::Method(_, _, f) => function_access(f, cands, m1),
            ClassMember::PrivateMethod(_, _, f) => function_access(f, cands, m1),
            ClassMember::ClassProp(_, _, v) => match v {
                Some(e) => expr_access(*e, AccessKind::Read, cands, m1),
                None => m1,
            },
            ClassMember::PrivateProp(_, _, v) => match v {
                Some(e) => expr_access(*e, AccessKind::Read, cands, m1),
                None => m1,
            },
            ClassMember::StaticBlock(_) | ClassMember::Other => m1,
        }
    }
}

/// The accesses after visiting the statements of a module in order: its
/// own statements, and those reached inside its export declarations.
pub open spec fn module_access(
    items: Seq<ModuleItem>,
    cands: Seq<BuiltinView>,
    m: Seq<(Seq<Seq<char>>, Access)>,
) -> Seq<(Seq<Seq<char>>, Access)>
    decreases items.len(),
{
    if items.len() == 0 {
        m
    } else {
        let m1 = module_access(items.drop_last(), cands, m);
        match items.last() {
            ModuleItem::Stmt(s) => stmt_access(s, cands, m1),
            ModuleItem::Export(d) => stmts_access(export_reach(d), cands, m1),
            _ => m1,
        }
    }
}

/// The accesses by name: each word path joined with `.` delimiters, in
/// order; a name met again keeps its place and takes the later access.
pub open spec fn computed(entries: Seq<(Seq<Seq<char>>, Access)>) -> Seq<(Seq<char>, Access)>
    decreases entries.len(),
{
    if entries.len() == 0 {
        Seq::empty()
    } else {
        entry_inserted(computed(entries.drop_last()), joined(entries.last().0), entries.last().1)
    }
}

/// Whether a word path that is not empty starts with the name of one of
/// the builtin modules.
pub open spec fn rooted_path(p: Seq<Seq<char>>, cands: Seq<BuiltinView>) -> bool {
    p.len() > 0 ==> exists|j: int| 0 <= j < cands.len() && #[trigger] cands[j].source == p[0]
}

/// Whether every recorded word path is rooted in a builtin module.
pub open spec fn rooted(entries: Seq<(Seq<Seq<char>>, Access)>, cands: Seq<BuiltinView>) -> bool {
    forall|i: int| 0 <= i < entries.len() ==> rooted_path(#[trigger] entries[i].0, cands)
}

/// The views of a list of builtin modules with one appended.
proof fn lemma_builtins_push(bs: Seq<Builtin>, b: Builtin)
    ensures
        builtins_view(bs.push(b)) == builtins_view(bs).push(b@),
{
    assert(builtins_view(bs.push(b)) =~= builtins_view(bs).push(b@));
}

/// The views of a list of local symbols with one appended.
proof fn lemma_locals_push(ls: Seq<Local>, l: Local)
    ensures
        locals_view(ls.push(l)) == locals_view(ls).push(l@),
{
    assert(locals_view(ls.push(l)) =~= locals_view(ls).push(l@));
}

/// Whether two local symbols are the same kind of symbol with the same name.
fn same_local(a: &Local, b: &Local) -> (r: bool)
    ensures
        r <==> a@ == b@,
{
    match (a, b) {
        (Local::Default(x), Local::Default(y)) => str_eq(x.as_str(), y.as_str()),
        (Local::Named(x), Local::Named(y)) => str_eq(x.as_str(), y.as_str()),
        _ => false,
    }
}

/// Whether a list of local symbols holds one like the given one.
fn contains_local(ls: &Vec<Local>, l: &Local) -> (r: bool)
    ensures
        r <==> locals_view(ls@).contains(l@),
{
    let mut i: usize = 0;
    while i < ls.len()
        invariant
            i <= ls@.len(),
            forall|j: int| 0 <= j < i ==> ls@[j]@ != l@,
        decreases ls@.len() - i,
    {
        if same_local(&ls[i], l) {
            assert(locals_view(ls@)[i as int] == l@);
            return true;
        }
        i = i + 1;
    }
    proof {
        if locals_view(ls@).contains(l@) {
            let j = choose|j: int| 0 <= j < locals_view(ls@).len() && locals_view(ls@)[j] == l@;
            assert(ls@[j]@ == l@);
        }
    }
    false
}

/// The builtin module an import declaration imports, with its local
/// symbols, if its source is a builtin module.
fn import_builtin(d: &ImportDecl) -> (r: Option<Builtin>)
    ensures
        import_found(*d) == match r {
            Some(b) => seq![b@],
            None => Seq::<BuiltinView>::empty(),
        },
{
    if !is_core_package(d.src.as_str()) {
        return None;
    }
    let mut locals: Vec<Local> = Vec::new();
    let mut i: usize = 0;
    while i < d.specifiers.len()
        invariant
            i <= d.specifiers@.len(),
            locals_view(locals@) == import_locals(d.specifiers@.take(i as int)),
        decreases d.specifiers@.len() - i,
    {
        let local = match &d.specifiers[i] {
            ImportSpecifier::Default(w) => Local::Default(w.clone()),
            ImportSpecifier::Named(w, _) => Local::Named(w.clone()),
            ImportSpecifier::Namespace(w) => Local::Default(w.clone()),
        };
        proof {
            let t = d.specifiers@.take(i as int + 1);
            assert(t.drop_last() =~= d.specifiers@.take(i as int));
            assert(t.last() == d.specifiers@[i as int]);
            assert(local@ == specifier_local(d.specifiers@[i as int]));
        }
        if !contains_local(&locals, &local) {
            proof {
                lemma_locals_push(locals@, local);
            }
            locals.push(local);
        }
        i = i + 1;
    }
    assert(d.specifiers@.take(d.specifiers@.len() as int) =~= d.specifiers@);
    Some(Builtin { source: d.src.clone(), locals })
}

/// The local symbols a declarator binds to a required module.
fn required_locals(name: &Pat, is_member: bool) -> (r: Vec<Local>)
    ensures
        locals_view(r@) == declarator_locals(*name, is_member),
{
    let mut out: Vec<Local> = Vec::new();
    match name {
        Pat::Ident(x) => {
            let l = if is_member {
                Local::Named(x.clone())
            } else {
                Local::Default(x.clone())
            };
            proof {
                lemma_locals_push(out@, l);
            }
            out.push(l);
            assert(locals_view(out@) =~= declarator_locals(*name, is_member));
        },
        _ => {
            let mut names: Vec<String> = Vec::new();
            pattern_words(name, &mut names);
            assert(words_view(names@) =~= pattern_names(*name));
            let mut i: usize = 0;
            while i < names.len()
                invariant
                    i <= names@.len(),
                    words_view(names@) == pattern_names(*name),
                    locals_view(out@) == words_view(names@).take(i as int).map_values(
                        |w: Seq<char>| LocalView::Named(w),
                    ),
                decreases names@.len() - i,
            {
                let l = Local::Named(names[i].clone());
                proof {
                    lemma_locals_push(out@, l);
                    assert(words_view(names@).take(i as int + 1).map_values(|w: Seq<char>| LocalView::Named(w))
                        =~= words_view(names@).take(i as int).map_values(|w: Seq<char>| LocalView::Named(w)).push(
                        l@,
                    ));
                }
                out.push(l);
                i = i + 1;
            }
            assert(words_view(names@).take(names@.len() as int) =~= words_view(names@));
        },
    }
    out
}

/// The builtin module a declarator binds by a `require` call in its
/// initializer, if it names one.
fn declarator_builtin(d: &VarDeclarator) -> (r: Option<Builtin>)
    ensures
        declarator_own(*d) == match r {
            Some(b) => seq![b@],
            None => Seq::<BuiltinView>::empty(),
        },
{
    match &d.init {
        Some(init) => match is_require_expr(init) {
            Some(call) => {
                if is_core_package(call.arg.as_str()) {
                    let locals = required_locals(&d.name, call.member.is_some());
                    Some(Builtin { source: call.arg, locals })
                } else {
                    None
                }
            },
            None => None,
        },
        None => None,
    }
}

/// Append a builtin module, if there is one, to those found.
fn push_found(found: &mut Vec<Builtin>, b: Option<Builtin>)
    ensures
        builtins_view(final(found)@) == builtins_view(old(found)@) + match b {
            Some(b) => seq![b@],
            None => Seq::<BuiltinView>::empty(),
        },
{
    match b {
        Some(b) => {
            proof {
                lemma_builtins_push(found@, b);
            }
            found.push(b);
            assert(builtins_view(old(found)@).push(b@) =~= builtins_view(old(found)@) + seq![b@]);
        },
        None => {
            assert(builtins_view(found@) =~= builtins_view(found@) + Seq::<BuiltinView>::empty());
        },
    }
}

/// Find the builtin modules bound in a statement and inside it.
fn find_stmt(n: &Stmt, found: &mut Vec<Builtin>)
    ensures
        builtins_view(final(found)@) == builtins_view(old(found)@) + stmt_found(*n),
    decreases n, 2nat,
{
    let ghost start = builtins_view(found@);
    match n {
        Stmt::Decl(d) => match d {
            Decl::Fn(_, f) => find_function(f, found),
            Decl::Class(_, c) => find_class(c, found),
            Decl::Var(v) => find_decls(&v.decls, found),
            Decl::Other => {
                assert(start + stmt_found(*n) =~= start);
            },
        },
        Stmt::With(obj, body) => {
            find_expr(obj, found);
            find_stmt(body, found);
            assert(start + stmt_found(*n) =~= start + expr_found(**obj) + stmt_found(**body));
        },
        Stmt::While(test, body) => {
            find_expr(test, found);
            find_stmt(body, found);
            assert(start + stmt_found(*n) =~= start + expr_found(**test) + stmt_found(**body));
        },
        Stmt::DoWhile(test, body) => {
            find_expr(test, found);
            find_stmt(body, found);
            assert(start + stmt_found(*n) =~= start + expr_found(**test) + stmt_found(**body));
        },
        Stmt::For(init, test, update, body) => {
            let ghost a = found@;
            match init {
                Some(VarDeclOrExpr::VarDecl(v)) => find_decls(&v.decls, found),
                Some(VarDeclOrExpr::Expr(e)) => find_expr(e, found),
                None => {},
            }
            let ghost b = builtins_view(found@);
            if let Some(e) = test {
                find_expr(e, found);
            }
            let ghost c = builtins_view(found@);
            if let Some(e) = update {
                find_expr(e, found);
            }
            let ghost d = builtins_view(found@);
            find_stmt(body, found);
            proof {
                let fi = match &init {
                    Some(VarDeclOrExpr::VarDecl(v)) => decls_found(v.decls@),
                    Some(VarDeclOrExpr::Expr(e)) => expr_found(**e),
                    None => Seq::empty(),
                };
                let ft = match &test {
                    Some(e) => expr_found(**e),
                    None => Seq::<BuiltinView>::empty(),
                };
                let fu = match &update {
                    Some(e) => expr_found(**e),
                    None => Seq::<BuiltinView>::empty(),
                };
                assert(b =~= start + fi);
                assert(c =~= b + ft);
                assert(d =~= c + fu);
                assert(start + stmt_found(*n) =~= start + fi + ft + fu + stmt_found(**body));
            }
        },
        Stmt::ForIn(left, right, body) => {
            find_left(left, found);
            find_expr(right, found);
            find_stmt(body, found);
            assert(start + stmt_found(*n) =~= start + left_found(*left) + expr_found(**right) + stmt_found(**body));
        },
        Stmt::ForOf(left, right, body) => {
            find_left(left, found);
            find_expr(right, found);
            find_stmt(body, found);
            assert(start + stmt_found(*n) =~= start + left_found(*left) + expr_found(**right) + stmt_found(**body));
        },
        Stmt::Labeled(body) => find_stmt(body, found),
        Stmt::If(test, cons, alt) => {
            find_expr(test, found);
            find_stmt(cons, found);
            let ghost b = builtins_view(found@);
            if let Some(a) = alt {
                find_stmt(a, found);
            }
            proof {
                let fa = match &alt {
                    Some(a) => stmt_found(**a),
                    None => Seq::<BuiltinView>::empty(),
                };
                assert(builtins_view(found@) =~= b + fa);
                assert(start + stmt_found(*n) =~= start + expr_found(**test) + stmt_found(**cons) + fa);
            }
        },
        Stmt::Try(block, handler, finalizer) => {
            find_stmts(block, found);
            let ghost b = builtins_view(found@);
            if let Some(h) = handler {
                find_catch(h, found);
            }
            let ghost c = builtins_view(found@);
            if let Some(f) = finalizer {
                find_stmts(f, found);
            }
            proof {
                let fh = match &handler {
                    Some(h) => catch_found(*h),
                    None => Seq::<BuiltinView>::empty(),
                };
                let ff = match &finalizer {
                    Some(f) => stmts_found(f@),
                    None => Seq::<BuiltinView>::empty(),
                };
                assert(c =~= b + fh);
                assert(builtins_view(found@) =~= c + ff);
                assert(start + stmt_found(*n) =~= start + stmts_found(block@) + fh + ff);
            }
        },
        Stmt::Switch(d, cases) => {
            find_expr(d, found);
            find_cases(cases, found);
            assert(start + stmt_found(*n) =~= start + expr_found(**d) + cases_found(cases@));
        },
        Stmt::Block(ss) => find_stmts(ss, found),
        Stmt::Return(arg) => match arg {
            Some(e) => find_expr(e, found),
            None => {
                assert(start + stmt_found(*n) =~= start);
            },
        },
        Stmt::Throw(e) => find_expr(e, found),
        Stmt::Expr(e) => find_expr(e, found),
        Stmt::Other => {
            assert(start + stmt_found(*n) =~= start);
        },
    }
}

/// Find the builtin modules bound in the left of a `for ... in` or
/// `for ... of`.
fn find_left(left: &VarDeclOrPat, found: &mut Vec<Builtin>)
    ensures
        builtins_view(final(found)@) == builtins_view(old(found)@) + left_found(*left),
    decreases left, 0nat,
{
    match left {
        VarDeclOrPat::VarDecl(v) => find_decls(&v.decls, found),
        VarDeclOrPat::Pat(p) => find_pat(p, found),
    }
}

/// Find the builtin modules bound in a catch clause.
fn find_catch(h: &CatchClause, found: &mut Vec<Builtin>)
    ensures
        builtins_view(final(found)@) == builtins_view(old(found)@) + catch_found(*h),
    decreases h, 0nat,
{
    let ghost start = builtins_view(found@);
    if let Some(p) = &h.param {
        find_pat(p, found);
    }
    let ghost b = builtins_view(found@);
    find_stmts(&h.body, found);
    proof {
        let fp = match &h.param {
            Some(p) => pat_found(*p),
            None => Seq::<BuiltinView>::empty(),
        };
        assert(b =~= start + fp);
        assert(start + catch_found(*h) =~= start + fp + stmts_found(h.body@));
    }
}

/// Find the builtin modules bound in statements, in order.
fn find_stmts(ss: &Vec<Stmt>, found: &mut Vec<Builtin>)
    ensures
        builtins_view(final(found)@) == builtins_view(old(found)@) + stmts_found(ss@),
    decreases ss, 0nat,
{
    let ghost start = builtins_view(found@);
    let mut i: usize = 0;
    while i < ss.len()
        invariant
            i <= ss@.len(),
            builtins_view(found@) == start + stmts_found(ss@.take(i as int)),
        decreases ss@.len() - i,
    {
        proof {
            assert(decreases_to!(*ss => ss[i as int]));
        }
        let ghost before = builtins_view(found@);
        find_stmt(&ss[i], found);
        proof {
            let t = ss@.take(i as int + 1);
            assert(t.subrange(0, t.len() - 1) =~= ss@.take(i as int));
            assert(t[t.len() - 1] == ss@[i as int]);
            assert(builtins_view(found@) =~= start + stmts_found(t));
        }
        i = i + 1;
    }
    assert(ss@.take(ss@.len() as int) =~= ss@);
}

/// Find the builtin modules bound in the cases of a switch, in order.
fn find_cases(cases: &Vec<SwitchCase>, found: &mut Vec<Builtin>)
    ensures
        builtins_view(final(found)@) == builtins_view(old(found)@) + cases_found(cases@),
    decreases cases, 0nat,
{
    let ghost start = builtins_view(found@);
    let mut i: usize = 0;
    while i < cases.len()
        invariant
            i <= cases@.len(),
            builtins_view(found@) == start + cases_found(cases@.take(i as int)),
        decreases cases@.len() - i,
    {
        let case = &cases[i];
        proof {
            assert(decreases_to!(*cases => cases[i as int]));
            assert(decreases_to!(cases[i as int] => cases[i as int].cons));
        }
        let ghost before = builtins_view(found@);
        if let Some(e) = &case.test {
            find_expr(e, found);
        }
        let ghost mid = builtins_view(found@);
        find_stmts(&case.cons, found);
        proof {
            let ft = match &case.test {
                Some(e) => expr_found(**e),
                None => Seq::<BuiltinView>::empty(),
            };
            assert(mid =~= before + ft);
            let t = cases@.take(i as int + 1);
            assert(t.subrange(0, t.len() - 1) =~= cases@.take(i as int));
            assert(t[t.len() - 1] == cases@[i as int]);
            assert(builtins_view(found@) =~= start + cases_found(t));
        }
        i = i + 1;
    }
    assert(cases@.take(cases@.len() as int) =~= cases@);
}

/// Find the builtin modules bound in declarators, in order.
fn find_decls(ds: &Vec<VarDeclarator>, found: &mut Vec<Builtin>)
    ensures
        builtins_view(final(found)@) == builtins_view(old(found)@) + decls_found(ds@),
    decreases ds, 0nat,
{
    let ghost start = builtins_view(found@);
    let mut i: usize = 0;
    while i < ds.len()
        invariant
            i <= ds@.len(),
            builtins_view(found@) == start + decls_found(ds@.take(i as int)),
        decreases ds@.len() - i,
    {
        let d = &ds[i];
        proof {
            assert(decreases_to!(*ds => ds[i as int]));
            assert(decreases_to!(ds[i as int] => ds[i as int].name));
        }
        let ghost before = builtins_view(found@);
        push_found(found, declarator_builtin(d));
        let ghost own = builtins_view(found@);
        find_pat(&d.name, found);
        let ghost named = builtins_view(found@);
        if let Some(e) = &d.init {
            proof {
                assert(decreases_to!(ds[i as int] => ds[i as int].init));
            }
            find_expr(e, found);
        }
        proof {
            let fe = match &d.init {
                Some(e) => expr_found(**e),
                None => Seq::<BuiltinView>::empty(),
            };
            assert(builtins_view(found@) =~= named + fe);
            let t = ds@.take(i as int + 1);
            assert(t.subrange(0, t.len() - 1) =~= ds@.take(i as int));
            assert(t[t.len() - 1] == ds@[i as int]);
            assert(builtins_view(found@) =~= start + decls_found(t));
        }
        i = i + 1;
    }
    assert(ds@.take(ds@.len() as int) =~= ds@);
}

/// Find the builtin modules bound inside a pattern.
fn find_pat(p: &Pat, found: &mut Vec<Builtin>)
    ensures
        builtins_view(final(found)@) == builtins_view(old(found)@) + pat_found(*p),
    decreases p, 1nat,
{
    let ghost start = builtins_view(found@);
    match p {
        Pat::Object(props) => find_obj_props(props, found),
        Pat::Array(elems) => find_opt_pats(elems, found),
        Pat::Rest(arg) => find_pat(arg, found),
        Pat::Assign(left, right) => {
            find_pat(left, found);
            find_expr(right, found);
            assert(start + pat_found(*p) =~= start + pat_found(**left) + expr_found(**right));
        },
        Pat::Expr(e) => find_expr(e, found),
        _ => {
            assert(start + pat_found(*p) =~= start);
        },
    }
}

/// Find the builtin modules bound inside patterns, in order.
fn find_pats(ps: &Vec<Pat>, found: &mut Vec<Builtin>)
    ensures
        builtins_view(final(found)@) == builtins_view(old(found)@) + pats_found(ps@),
    decreases ps, 0nat,
{
    let ghost start = builtins_view(found@);
    let mut i: usize = 0;
    while i < ps.len()
        invariant
            i <= ps@.len(),
            builtins_view(found@) == start + pats_found(ps@.take(i as int)),
        decreases ps@.len() - i,
    {
        proof {
            assert(decreases_to!(*ps => ps[i as int]));
        }
        find_pat(&ps[i], found);
        proof {
            let t = ps@.take(i as int + 1);
            assert(t.subrange(0, t.len() - 1) =~= ps@.take(i as int));
            assert(t[t.len() - 1] == ps@[i as int]);
            assert(builtins_view(found@) =~= start + pats_found(t));
        }
        i = i + 1;
    }
    assert(ps@.take(ps@.len() as int) =~= ps@);
}

/// Find the builtin modules bound inside the elements of an array pattern.
fn find_opt_pats(ps: &Vec<Option<Pat>>, found: &mut Vec<Builtin>)
    ensures
        builtins_view(final(found)@) == builtins_view(old(found)@) + opt_pats_found(ps@),
    decreases ps, 0nat,
{
    let ghost start = builtins_view(found@);
    let mut i: usize = 0;
    while i < ps.len()
        invariant
            i <= ps@.len(),
            builtins_view(found@) == start + opt_pats_found(ps@.take(i as int)),
        decreases ps@.len() - i,
    {
        let ghost before = builtins_view(found@);
        if let Some(p) = &ps[i] {
            proof {
                assert(decreases_to!(*ps => ps[i as int]));
            }
            find_pat(p, found);
        }
        proof {
            let t = ps@.take(i as int + 1);
            assert(t.subrange(0, t.len() - 1) =~= ps@.take(i as int));
            assert(t[t.len() - 1] == ps@[i as int]);
            assert(builtins_view(found@) =~= start + opt_pats_found(t));
        }
        i = i + 1;
    }
    assert(ps@.take(ps@.len() as int) =~= ps@);
}

/// Find the builtin modules bound inside the properties of an object
/// pattern.
fn find_obj_props(ps: &Vec<ObjectPatProp>, found: &mut Vec<Builtin>)
    ensures
        builtins_view(final(found)@) == builtins_view(old(found)@) + obj_props_found(ps@),
    decreases ps, 0nat,
{
    let ghost start = builtins_view(found@);
    let mut i: usize = 0;
    while i < ps.len()
        invariant
            i <= ps@.len(),
            builtins_view(found@) == start + obj_props_found(ps@.take(i as int)),
        decreases ps@.len() - i,
    {
        let ghost before = builtins_view(found@);
        proof {
            assert(decreases_to!(*ps => ps[i as int]));
        }
        match &ps[i] {
            ObjectPatProp::KeyValue(k, v) => {
                find_key(k, found);
                find_pat(v, found);
            },
            ObjectPatProp::Rest(a) => find_pat(a, found),
            ObjectPatProp::Assign(_, v) => {
                if let Some(e) = v {
                    find_expr(e, found);
                }
            },
        }
        proof {
            let t = ps@.take(i as int + 1);
            assert(t.subrange(0, t.len() - 1) =~= ps@.take(i as int));
            assert(t[t.len() - 1] == ps@[i as int]);
            assert(builtins_view(found@) =~= start + obj_props_found(t));
        }
        i = i + 1;
    }
    assert(ps@.take(ps@.len() as int) =~= ps@);
}

/// Find the builtin modules bound inside a function.
fn find_function(f: &Function, found: &mut Vec<Builtin>)
    ensures
        builtins_view(final(found)@) == builtins_view(old(found)@) + function_found(*f),
    decreases f, 0nat,
{
    let ghost start = builtins_view(found@);
    find_pats(&f.params, found);
    let ghost b = builtins_view(found@);
    if let Some(body) = &f.body {
        find_stmts(body, found);
    }
    proof {
        let fb = match &f.body {
            Some(ss) => stmts_found(ss@),
            None => Seq::<BuiltinView>::empty(),
        };
        assert(builtins_view(found@) =~= b + fb);
        assert(start + function_found(*f) =~= start + pats_found(f.params@) + fb);
    }
}

/// Find the builtin modules bound inside a class.
fn find_class(c: &Class, found: &mut Vec<Builtin>)
    ensures
        builtins_view(final(found)@) == builtins_view(old(found)@) + class_found(*c),
    decreases c, 0nat,
{
    let ghost start = builtins_view(found@);
    find_members(&c.body, found);
    let ghost b = builtins_view(found@);
    if let Some(e) = &c.super_class {
        find_expr(e, found);
    }
    proof {
        let fs = match &c.super_class {
            Some(e) => expr_found(**e),
            None => Seq::<BuiltinView>::empty(),
        };
        assert(builtins_view(found@) =~= b + fs);
        assert(start + class_found(*c) =~= start + members_found(c.body@) + fs);
    }
}

/// Find the builtin modules bound inside class members, in order.
fn find_members(ms: &Vec<ClassMember>, found: &mut Vec<Builtin>)
    ensures
        builtins_view(final(found)@) == builtins_view(old(found)@) + members_found(ms@),
    decreases ms, 0nat,
{
    let ghost start = builtins_view(found@);
    let mut i: usize = 0;
    while i < ms.len()
        invariant
            i <= ms@.len(),
            builtins_view(found@) == start + members_found(ms@.take(i as int)),
        decreases ms@.len() - i,
    {
        let ghost before = builtins_view(found@);
        proof {
            assert(decreases_to!(*ms => ms[i as int]));
        }
        match &ms[i] {
            ClassMember::Constructor(params, body) => {
                find_pats(params, found);
                let ghost b = builtins_view(found@);
                if let Some(ss) = body {
                    find_stmts(ss, found);
                }
                proof {
                    let fb = match &body {
                        Some(ss) => stmts_found(ss@),
                        None => Seq::<BuiltinView>::empty(),
                    };
                    assert(builtins_view(found@) =~= b + fb);
                    assert(builtins_view(found@) =~= before + (pats_found(params@) + fb));
                }
            },
            ClassMember::Method(_, k, f) => {
                find_key(k, found);
                find_function(f, found);
            },
            ClassMember::PrivateMethod(_, _, f) => find_function(f, found),
            ClassMember::ClassProp(_, k, v) => {
                find_key(k, found);
                let ghost b = builtins_view(found@);
                if let Some(e) = v {
                    find_expr(e, found);
                }
                proof {
                    let fv = match v {
                        Some(e) => expr_found(**e),
                        None => Seq::<BuiltinView>::empty(),
                    };
                    assert(builtins_view(found@) =~= b + fv);
                }
            },
            ClassMember::PrivateProp(_, _, v) => {
                if let Some(e) = v {
                    find_expr(e, found);
                }
            },
            ClassMember::StaticBlock(ss) => find_stmts(ss, found),
            ClassMember::Other => {},
        }
        proof {
            let t = ms@.take(i as int + 1);
            assert(t.subrange(0, t.len() - 1) =~= ms@.take(i as int));
            assert(t[t.len() - 1] == ms@[i as int]);
            assert(builtins_view(found@) =~= start + members_found(t));
        }
        i = i + 1;
    }
    assert(ms@.take(ms@.len() as int) =~= ms@);
}

/// Find the builtin modules bound inside an expression.
fn find_expr(n: &Expr, found: &mut Vec<Builtin>)
    ensures
        builtins_view(final(found)@) == builtins_view(old(found)@) + expr_found(*n),
    decreases n, 2nat,
{
    let ghost start = builtins_view(found@);
    match n {
        Expr::Bin(l, r) => {
            find_expr(l, found);
            find_expr(r, found);
            assert(start + expr_found(*n) =~= start + expr_found(**l) + expr_found(**r));
        },
        Expr::Tpl(es) => find_exprs(es, found),
        Expr::TaggedTpl(tag, es) => {
            find_expr(tag, found);
            find_exprs(es, found);
            assert(start + expr_found(*n) =~= start + expr_found(**tag) + exprs_found(es@));
        },
        Expr::Sequence(es) => find_exprs(es, found),
        Expr::Array(elems) => find_opt_exprs(elems, found),
        Expr::Object(props) => find_props(props, found),
        Expr::Paren(e) => find_expr(e, found),
        Expr::Yield(arg) => match arg {
            Some(e) => find_expr(e, found),
            None => {
                assert(start + expr_found(*n) =~= start);
            },
        },
        Expr::Cond(a, b, c) => {
            find_expr(a, found);
            find_expr(b, found);
            find_expr(c, found);
            assert(start + expr_found(*n) =~= start + expr_found(**a) + expr_found(**b) + expr_found(**c));
        },
        Expr::Await(e) => find_expr(e, found),
        Expr::Arrow(a) => {
            find_pats(&a.params, found);
            match &a.body {
                BlockStmtOrExpr::BlockStmt(ss) => {
                    find_stmts(ss, found);
                    assert(start + expr_found(*n) =~= start + pats_found(a.params@) + stmts_found(ss@));
                },
                BlockStmtOrExpr::Expr(e) => {
                    find_expr(e, found);
                    assert(start + expr_found(*n) =~= start + pats_found(a.params@) + expr_found(**e));
                },
            }
        },
        Expr::Call(c) => {
            match &c.callee {
                ExprOrSuper::Expr(e) => find_expr(e, found),
                ExprOrSuper::Super => {},
            }
            let ghost b = builtins_view(found@);
            find_exprs(&c.args, found);
            proof {
                let fc = match &c.callee {
                    ExprOrSuper::Expr(e) => expr_found(**e),
                    ExprOrSuper::Super => Seq::<BuiltinView>::empty(),
                };
                assert(b =~= start + fc);
                assert(start + expr_found(*n) =~= start + fc + exprs_found(c.args@));
            }
        },
        Expr::Update(e) => find_expr(e, found),
        Expr::Unary(e) => find_expr(e, found),
        Expr::Assign(left, right) => {
            match left {
                PatOrExpr::Expr(e) => find_expr(e, found),
                PatOrExpr::Pat(p) => find_pat(p, found),
            }
            let ghost b = builtins_view(found@);
            find_expr(right, found);
            proof {
                let fl = match &left {
                    PatOrExpr::Expr(e) => expr_found(**e),
                    PatOrExpr::Pat(p) => pat_found(**p),
                };
                assert(b =~= start + fl);
                assert(start + expr_found(*n) =~= start + fl + expr_found(**right));
            }
        },
        Expr::OptChain(e) => find_expr(e, found),
        Expr::Member(m) => {
            match &m.obj {
                ExprOrSuper::Expr(e) => find_expr(e, found),
                ExprOrSuper::Super => {},
            }
            let ghost b = builtins_view(found@);
            find_expr(&m.prop, found);
            proof {
                let fo = match &m.obj {
                    ExprOrSuper::Expr(e) => expr_found(**e),
                    ExprOrSuper::Super => Seq::<BuiltinView>::empty(),
                };
                assert(b =~= start + fo);
                assert(start + expr_found(*n) =~= start + fo + expr_found(*m.prop));
            }
        },
        Expr::New(ne) => {
            find_expr(&ne.callee, found);
            let ghost b = builtins_view(found@);
            if let Some(args) = &ne.args {
                find_exprs(args, found);
            }
            proof {
                let fa = match &ne.args {
                    Some(args) => exprs_found(args@),
                    None => Seq::<BuiltinView>::empty(),
                };
                assert(builtins_view(found@) =~= b + fa);
                assert(start + expr_found(*n) =~= start + expr_found(*ne.callee) + fa);
            }
        },
        Expr::Fn(_, f) => find_function(f, found),
        Expr::Class(_, c) => find_class(c, found),
        Expr::Jsx(es) => find_exprs(es, found),
        _ => {
            assert(start + expr_found(*n) =~= start);
        },
    }
}

/// Find the builtin modules bound inside expressions, in order.
fn find_exprs(es: &Vec<Expr>, found: &mut Vec<Builtin>)
    ensures
        builtins_view(final(found)@) == builtins_view(old(found)@) + exprs_found(es@),
    decreases es, 0nat,
{
    let ghost start = builtins_view(found@);
    let mut i: usize = 0;
    while i < es.len()
        invariant
            i <= es@.len(),
            builtins_view(found@) == start + exprs_found(es@.take(i as int)),
        decreases es@.len() - i,
    {
        proof {
            assert(decreases_to!(*es => es[i as int]));
        }
        find_expr(&es[i], found);
        proof {
            let t = es@.take(i as int + 1);
            assert(t.subrange(0, t.len() - 1) =~= es@.take(i as int));
            assert(t[t.len() - 1] == es@[i as int]);
            assert(builtins_view(found@) =~= start + exprs_found(t));
        }
        i = i + 1;
    }
    assert(es@.take(es@.len() as int) =~= es@);
}

/// Find the builtin modules bound inside the present elements of an array.
fn find_opt_exprs(es: &Vec<Option<Expr>>, found: &mut Vec<Builtin>)
    ensures
        builtins_view(final(found)@) == builtins_view(old(found)@) + opt_exprs_found(es@),
    decreases es, 0nat,
{
    let ghost start = builtins_view(found@);
    let mut i: usize = 0;
    while i < es.len()
        invariant
            i <= es@.len(),
            builtins_view(found@) == start + opt_exprs_found(es@.take(i as int)),
        decreases es@.len() - i,
    {
        if let Some(e) = &es[i] {
            proof {
                assert(decreases_to!(*es => es[i as int]));
            }
            find_expr(e, found);
        }
        proof {
            let t = es@.take(i as int + 1);
            assert(t.subrange(0, t.len() - 1) =~= es@.take(i as int));
            assert(t[t.len() - 1] == es@[i as int]);
            assert(builtins_view(found@) =~= start + opt_exprs_found(t));
        }
        i = i + 1;
    }
    assert(es@.take(es@.len() as int) =~= es@);
}

/// Find the builtin modules bound inside the properties of an object
/// literal.
fn find_props(ps: &Vec<PropOrSpread>, found: &mut Vec<Builtin>)
    ensures
        builtins_view(final(found)@) == builtins_view(old(found)@) + props_found(ps@),
    decreases ps, 0nat,
{
    let ghost start = builtins_view(found@);
    let mut i: usize = 0;
    while i < ps.len()
        invariant
            i <= ps@.len(),
            builtins_view(found@) == start + props_found(ps@.take(i as int)),
        decreases ps@.len() - i,
    {
        proof {
            assert(decreases_to!(*ps => ps[i as int]));
        }
        match &ps[i] {
            PropOrSpread::Spread(e) => find_expr(e, found),
            PropOrSpread::KeyValue(k, e) => {
                find_key(k, found);
                find_expr(e, found);
            },
            PropOrSpread::Method(k, f) => {
                find_key(k, found);
                find_function(f, found);
            },
            _ => {},
        }
        proof {
            let t = ps@.take(i as int + 1);
            assert(t.subrange(0, t.len() - 1) =~= ps@.take(i as int));
            assert(t[t.len() - 1] == ps@[i as int]);
            assert(builtins_view(found@) =~= start + props_found(t));
        }
        i = i + 1;
    }
    assert(ps@.take(ps@.len() as int) =~= ps@);
}

/// Find the builtin modules bound inside a property key.
fn find_key(k: &PropName, found: &mut Vec<Builtin>)
    ensures
        builtins_view(final(found)@) == builtins_view(old(found)@) + key_found(*k),
    decreases k, 0nat,
{
    if let PropName::Computed(e) = k {
        find_expr(e, found);
    } else {
        assert(builtins_view(found@) =~= builtins_view(found@) + key_found(*k));
    }
}

/// Find the builtin modules bound inside an export declaration.
fn find_export(d: &ExportDecl, found: &mut Vec<Builtin>)
    ensures
        builtins_view(final(found)@) == builtins_view(old(found)@) + export_found(*d),
{
    let ghost start = builtins_view(found@);
    match d {
        ExportDecl::Decl(dc) => match dc {
            Decl::Fn(_, f) => find_function(f, found),
            Decl::Class(_, c) => find_class(c, found),
            Decl::Var(v) => find_decls(&v.decls, found),
            Decl::Other => {
                assert(start + export_found(*d) =~= start);
            },
        },
        ExportDecl::DefaultExpr(e) => find_expr(e, found),
        ExportDecl::DefaultDecl(e) => find_expr(e, found),
        _ => {
            assert(start + export_found(*d) =~= start);
        },
    }
}

/// Find the builtin modules a module binds, in source order.
fn find_module(m: &Module) -> (r: Vec<Builtin>)
    ensures
        builtins_view(r@) == module_found(m.body@),
{
    let mut found: Vec<Builtin> = Vec::new();
    let mut i: usize = 0;
    assert(builtins_view(found@) =~= module_found(m.body@.take(0)));
    while i < m.body.len()
        invariant
            i <= m.body@.len(),
            builtins_view(found@) == module_found(m.body@.take(i as int)),
        decreases m.body@.len() - i,
    {
        match &m.body[i] {
            ModuleItem::Import(d) => push_found(&mut found, import_builtin(d)),
            ModuleItem::Stmt(st) => find_stmt(st, &mut found),
            ModuleItem::Export(d) => find_export(d, &mut found),
        }
        proof {
            let t = m.body@.take(i as int + 1);
            assert(t.drop_last() =~= m.body@.take(i as int));
            assert(t.last() == m.body@[i as int]);
            assert(builtins_view(found@) =~= module_found(t));
        }
        i = i + 1;
    }
    assert(m.body@.take(m.body@.len() as int) =~= m.body@);
    found
}

/// Whether a visit took the accesses from `before` to `after`, which are
/// the `expected` ones; a visit keeps every path recorded before in its
/// place with every flag it had, keeps every recorded path rooted in a
/// builtin module and records nothing when no builtin module is bound.
pub open spec fn visited(
    cands: Seq<BuiltinView>,
    before: Seq<(Seq<Seq<char>>, Access)>,
    after: Seq<(Seq<Seq<char>>, Access)>,
    expected: Seq<(Seq<Seq<char>>, Access)>,
) -> bool {
    &&& after == expected
    &&& grows(before, after)
    &&& added_keys(before, after, cands)
    &&& rooted(before, cands) ==> rooted(after, cands)
    &&& cands.len() == 0 ==> after == before
}

/// Whether no candidate builtin module is named like a method of function
/// objects (`call`, `apply`, `bind`, `toSource`, `toString`).
pub open spec fn no_method_source(cands: Seq<BuiltinView>) -> bool {
    forall|j: int| 0 <= j < cands.len() ==> !function_method(#[trigger] cands[j].source)
}

/// Whether a path may be recorded for the candidates: it starts with the
/// name of a candidate module when it has a word, and it has one when no
/// candidate is named like a method of function objects.
pub open spec fn key_ok(k: Seq<Seq<char>>, cands: Seq<BuiltinView>) -> bool {
    &&& rooted_path(k, cands)
    &&& no_method_source(cands) ==> k.len() > 0
}

/// Whether every path added after those recorded before may be recorded
/// for the candidates.
pub open spec fn added_keys(
    before: Seq<(Seq<Seq<char>>, Access)>,
    after: Seq<(Seq<Seq<char>>, Access)>,
    cands: Seq<BuiltinView>,
) -> bool {
    forall|i: int| before.len() <= i < after.len() ==> key_ok((#[trigger] after[i]).0, cands)
}

/// A copy of a local symbol.
fn copy_local(l: &Local) -> (r: Local)
    ensures
        r@ == l@,
{
    match l {
        Local::Default(w) => Local::Default(w.clone()),
        Local::Named(w) => Local::Named(w.clone()),
    }
}

/// The name of a local symbol.
fn local_name(l: &Local) -> (r: &String)
    ensures
        r@ == local_word(l@),
{
    match l {
        Local::Default(w) => w,
        Local::Named(w) => w,
    }
}

/// Determine if a word matches a previously located builtin module local
/// symbol: the symbol and the module's name. For member expressions pass
/// the first word in the expression.
fn is_builtin_match(cands: &Vec<Builtin>, sym: &String) -> (r: Option<(Local, String)>)
    ensures
        r is None <==> builtin_match(builtins_view(cands@), sym@) is None,
        r matches Some((l, s)) ==> builtin_match(builtins_view(cands@), sym@) == Some((l@, s@)),
        r matches Some((l, s)) ==> exists|j: int|
            0 <= j < cands@.len() && #[trigger] builtins_view(cands@)[j].source == s@,
{
    let ghost cv = builtins_view(cands@);
    let mut i: usize = 0;
    assert(cv.subrange(0, cv.len() as int) =~= cv);
    while i < cands.len()
        invariant
            cv == builtins_view(cands@),
            i <= cands@.len(),
            builtin_match(cv, sym@) == builtin_match(cv.subrange(i as int, cv.len() as int), sym@),
        decreases cands@.len() - i,
    {
        let b = &cands[i];
        let ghost lv = locals_view(b.locals@);
        let mut j: usize = 0;
        assert(lv.subrange(0, lv.len() as int) =~= lv);
        while j < b.locals.len()
            invariant
                cv == builtins_view(cands@),
                i < cands@.len(),
                *b == cands@[i as int],
                builtin_match(cv, sym@) == builtin_match(cv.subrange(i as int, cv.len() as int), sym@),
                lv == locals_view(b.locals@),
                j <= b.locals@.len(),
                find_local(lv, sym@) == find_local(lv.subrange(j as int, lv.len() as int), sym@),
            decreases b.locals@.len() - j,
        {
            let ghost rest = lv.subrange(j as int, lv.len() as int);
            assert(rest[0] == b.locals@[j as int]@);
            if str_eq(local_name(&b.locals[j]).as_str(), sym.as_str()) {
                let l = copy_local(&b.locals[j]);
                proof {
                    let crest = cv.subrange(i as int, cv.len() as int);
                    assert(crest[0] == cv[i as int]);
                    assert(cv[i as int] == b@);
                }
                return Some((l, b.source.clone()));
            }
            assert(rest.drop_first() =~= lv.subrange(j as int + 1, lv.len() as int));
            j = j + 1;
        }
        proof {
            assert(lv.subrange(j as int, lv.len() as int) =~= Seq::<LocalView>::empty());
            let crest = cv.subrange(i as int, cv.len() as int);
            assert(crest[0] == cv[i as int]);
            assert(cv[i as int] == b@);
            assert(crest.drop_first() =~= cv.subrange(i as int + 1, cv.len() as int));
        }
        i = i + 1;
    }
    assert(cv.subrange(i as int, cv.len() as int) =~= Seq::<BuiltinView>::empty());
    None
}

/// Whether a word names a method of function objects.
fn is_function_method(w: &String) -> (r: bool)
    ensures
        r <==> function_method(w@),
{
    str_eq(w.as_str(), "call") || str_eq(w.as_str(), "apply") || str_eq(w.as_str(), "bind") || str_eq(
        w.as_str(),
        "toSource",
    ) || str_eq(w.as_str(), "toString")
}

/// Whether an access has every flag that another has.
pub open spec fn covers(a: Access, b: Access) -> bool {
    &&& b.read ==> a.read
    &&& b.write ==> a.write
    &&& b.execute ==> a.execute
}

/// Whether the accesses after keep every path recorded before in its
/// place, with every flag it had: recording never takes a flag away.
pub open spec fn grows(before: Seq<(Seq<Seq<char>>, Access)>, after: Seq<(Seq<Seq<char>>, Access)>) -> bool {
    &&& before.len() <= after.len()
    &&& forall|i: int|
        0 <= i < before.len() ==> (#[trigger] after[i]).0 == before[i].0 && covers(after[i].1, before[i].1)
}

/// Recording an access keeps every path recorded before in its place and
/// takes no flag away.
pub proof fn lemma_recorded_grows(m: Seq<(Seq<Seq<char>>, Access)>, key: Seq<Seq<char>>, kind: AccessKind)
    ensures
        grows(m, recorded(m, key, kind)),
{
    lemma_key_position(m, key);
}

/// Record an access of a kind to a word path.
fn record(
    access: &mut IndexMap<Vec<String>, Access>,
    key: Vec<String>,
    kind: AccessKind,
    Ghost(cands): Ghost<Seq<BuiltinView>>,
)
    ensures
        path_access_entries(*final(access)) == recorded(path_access_entries(*old(access)), words_view(key@), kind),
        grows(path_access_entries(*old(access)), path_access_entries(*final(access))),
        key_ok(words_view(key@), cands) ==> added_keys(
            path_access_entries(*old(access)),
            path_access_entries(*final(access)),
            cands,
        ),
        rooted(path_access_entries(*old(access)), cands) && rooted_path(words_view(key@), cands) ==> rooted(
            path_access_entries(*final(access)),
            cands,
        ),
{
    let ghost k = words_view(key@);
    let ghost before = path_access_entries(*access);
    let current = match path_access_get(access, &key) {
        Some(a) => a,
        None => Access { read: false, write: false, execute: false },
    };
    let next = match kind {
        AccessKind::Read => Access { read: true, write: current.write, execute: current.execute },
        AccessKind::Write => Access { read: current.read, write: true, execute: current.execute },
        AccessKind::Execute => Access { read: current.read, write: current.write, execute: true },
    };
    path_access_insert(access, key, next);
    proof {
        lemma_recorded_grows(before, k, kind);
        lemma_key_position(before, k);
        let after = path_access_entries(*access);
        if rooted(before, cands) && rooted_path(k, cands) {
            assert forall|i: int| 0 <= i < after.len() implies rooted_path(#[trigger] after[i].0, cands) by {
                if i < before.len() && after[i].0 != k {
                    assert(after[i] == before[i]);
                    assert(rooted_path(before[i].0, cands));
                }
            }
        }
    }
}

/// The word path of an access through an identifier bound to a builtin
/// module.
fn ident_path(source: String, sym: &String) -> (r: Vec<String>)
    ensures
        words_view(r@) == ident_key(source@, sym@),
{
    let mut key: Vec<String> = Vec::new();
    if str_eq(source.as_str(), sym.as_str()) {
        key.push(source);
    } else {
        key.push(source);
        key.push(sym.clone());
    }
    assert(words_view(key@) =~= ident_key(source@, sym@));
    key
}

/// The word path written by assigning to a symbol bound to a builtin
/// module.
fn assign_path(local: &Local, source: String) -> (r: Vec<String>)
    ensures
        words_view(r@) == assign_key(local@, source@),
{
    let mut key: Vec<String> = Vec::new();
    key.push(source);
    if let Local::Named(w) = local {
        key.push(w.clone());
    }
    assert(words_view(key@) =~= assign_key(local@, source@));
    key
}

/// The word path of an access through a member expression whose first
/// word is bound to a builtin module.
fn member_path(words: Vec<String>, local: &Local, source: String, kind: AccessKind) -> (r: Vec<String>)
    requires
        words@.len() > 0,
    ensures
        words_view(r@) == member_key(words_view(words@), local@, source@, kind),
{
    let ghost ws = words_view(words@);
    let mut key: Vec<String>;
    if !str_eq(words[0].as_str(), source.as_str()) {
        key = Vec::new();
        key.push(source);
        let start: usize = match local {
            Local::Default(_) => 1,
            Local::Named(_) => 0,
        };
        let mut i: usize = start;
        while i < words.len()
            invariant
                start <= i <= words@.len(),
                start <= 1,
                ws == words_view(words@),
                words_view(key@) == seq![source@] + ws.subrange(start as int, i as int),
            decreases words@.len() - i,
        {
            let ghost before = key@;
            let w = words[i].clone();
            key.push(w);
            proof {
                lemma_words_view_push(before, w);
                assert(ws[i as int] == w@);
                assert(words_view(key@) =~= seq![source@] + ws.subrange(start as int, i as int + 1));
            }
            i = i + 1;
        }
        proof {
            if start == 1 {
                assert(ws.subrange(1, ws.len() as int) =~= ws.drop_first());
            } else {
                assert(ws.subrange(0, ws.len() as int) =~= ws);
            }
        }
    } else {
        key = words;
    }
    let ghost qualified = words_view(key@);
    let strip = match kind {
        AccessKind::Execute => is_function_method(&key[key.len() - 1]),
        _ => false,
    };
    if strip {
        key.pop();
        assert(words_view(key@) =~= qualified.drop_last());
    }
    key
}

/// Visit an expression evaluated for an access kind and record the
/// accesses to builtin modules it makes: the accesses become those
/// `expr_access` gives, every path recorded before keeps its place and no
/// flag is taken away, and every path added starts with the name of a
/// candidate builtin module; it is never empty when no candidate is named
/// like a method of function objects.
pub fn access_visit_expr(cands: &Vec<Builtin>, access: &mut IndexMap<Vec<String>, Access>, n: &Expr, kind: AccessKind)
    ensures
        visited(
            builtins_view(cands@),
            path_access_entries(*old(access)),
            path_access_entries(*final(access)),
            expr_access(*n, kind, builtins_view(cands@), path_access_entries(*old(access))),
        ),
    decreases n, 2nat,
{
    let ghost cv = builtins_view(cands@);
    match n {
        Expr::Ident(sym) => {
            if let Some((_local, source)) = is_builtin_match(cands, sym) {
                let key = ident_path(source, sym);
                record(access, key, kind, Ghost(cv));
            }
        },
        Expr::New(ne) => access_visit_expr(cands, access, &ne.callee, AccessKind::Read),
        Expr::Fn(_, f) => access_visit_fn(cands, access, f),
        Expr::Arrow(a) => {
            access_visit_pats(cands, access, &a.params);
            match &a.body {
                BlockStmtOrExpr::Expr(e) => access_visit_expr(cands, access, e, kind),
                BlockStmtOrExpr::BlockStmt(ss) => access_visit_stmts(cands, access, ss),
            }
        },
        Expr::Member(member) => {
            if is_require_expr(n).is_none() {
                let members = member_expr_words(member);
                if members.len() > 0 {
                    if let Some((local, source)) = is_builtin_match(cands, &members[0]) {
                        let key = member_path(members, &local, source, kind);
                        record(access, key, kind, Ghost(cv));
                    }
                }
            }
        },
        Expr::Update(e) => access_visit_expr(cands, access, e, AccessKind::Write),
        Expr::Call(call) => {
            if is_require_expr(n).is_none() {
                access_visit_exprs(cands, access, &call.args, AccessKind::Read);
                match &call.callee {
                    ExprOrSuper::Expr(e) => access_visit_expr(cands, access, e, AccessKind::Execute),
                    ExprOrSuper::Super => {},
                }
            }
        },
        Expr::Assign(left, right) => {
            match left {
                PatOrExpr::Pat(p) => match &**p {
                    Pat::Ident(x) => {
                        if let Some((local, source)) = is_builtin_match(cands, x) {
                            let key = assign_path(&local, source);
                            record(access, key, AccessKind::Write, Ghost(cv));
                        }
                    },
                    Pat::Expr(e) => access_visit_expr(cands, access, e, AccessKind::Write),
                    _ => {},
                },
                PatOrExpr::Expr(_) => {},
            }
            access_visit_expr(cands, access, right, kind);
        },
        Expr::Paren(e) => access_visit_expr(cands, access, e, kind),
        Expr::OptChain(e) => access_visit_expr(cands, access, e, kind),
        Expr::Unary(e) => access_visit_expr(cands, access, e, kind),
        Expr::Await(e) => access_visit_expr(cands, access, e, kind),
        Expr::Yield(arg) => {
            if let Some(e) = arg {
                access_visit_expr(cands, access, e, kind);
            }
        },
        Expr::Bin(l, r) => {
            access_visit_expr(cands, access, l, kind);
            access_visit_expr(cands, access, r, kind);
        },
        Expr::Cond(a, b, c) => {
            access_visit_expr(cands, access, a, kind);
            access_visit_expr(cands, access, b, kind);
            access_visit_expr(cands, access, c, kind);
        },
        Expr::Tpl(es) => access_visit_exprs(cands, access, es, kind),
        Expr::TaggedTpl(tag, es) => {
            access_visit_expr(cands, access, tag, kind);
            access_visit_exprs(cands, access, es, kind);
        },
        _ => {},
    }
}

/// Visit expressions in order, each evaluated for an access kind.
fn access_visit_exprs(
    cands: &Vec<Builtin>,
    access: &mut IndexMap<Vec<String>, Access>,
    es: &Vec<Expr>,
    kind: AccessKind,
)
    ensures
        visited(
            builtins_view(cands@),
            path_access_entries(*old(access)),
            path_access_entries(*final(access)),
            exprs_access(es@, kind, builtins_view(cands@), path_access_entries(*old(access))),
        ),
    decreases es, 0nat,
{
    let ghost cv = builtins_view(cands@);
    let ghost start = path_access_entries(*access);
    let mut i: usize = 0;
    while i < es.len()
        invariant
            cv == builtins_view(cands@),
            i <= es@.len(),
            visited(cv, start, path_access_entries(*access), exprs_access(es@.take(i as int), kind, cv, start)),
        decreases es@.len() - i,
    {
        proof {
            assert(decreases_to!(*es => es[i as int]));
            let t = es@.take(i as int + 1);
            assert(t.subrange(0, t.len() - 1) =~= es@.take(i as int));
            assert(t[t.len() - 1] == es@[i as int]);
        }
        access_visit_expr(cands, access, &es[i], kind);
        i = i + 1;
    }
    assert(es@.take(es@.len() as int) =~= es@);
}

/// Visit a statement and record the accesses to builtin modules it makes.
fn access_visit_stmt(cands: &Vec<Builtin>, access: &mut IndexMap<Vec<String>, Access>, n: &Stmt)
    ensures
        visited(
            builtins_view(cands@),
            path_access_entries(*old(access)),
            path_access_entries(*final(access)),
            stmt_access(*n, builtins_view(cands@), path_access_entries(*old(access))),
        ),
    decreases n, 2nat,
{
    match n {
        Stmt::Return(arg) => {
            if let Some(e) = arg {
                access_visit_expr(cands, access, e, AccessKind::Read);
            }
        },
        Stmt::Decl(d) => match d {
            Decl::Fn(_, f) => access_visit_fn(cands, access, f),
            Decl::Class(_, c) => access_visit_class(cands, access, c),
            Decl::Var(v) => access_visit_var_decl(cands, access, &v.decls),
            Decl::Other => {},
        },
        Stmt::Block(ss) => access_visit_stmts(cands, access, ss),
        Stmt::Expr(e) => access_visit_expr(cands, access, e, AccessKind::Read),
        Stmt::With(obj, body) => {
            access_visit_expr(cands, access, obj, AccessKind::Read);
            access_visit_stmt(cands, access, body);
        },
        Stmt::Labeled(body) => access_visit_stmt(cands, access, body),
        Stmt::If(test, cons, alt) => {
            access_visit_expr(cands, access, test, AccessKind::Read);
            access_visit_stmt(cands, access, cons);
            if let Some(a) = alt {
                access_visit_stmt(cands, access, a);
            }
        },
        Stmt::Switch(d, cases) => {
            access_visit_expr(cands, access, d, AccessKind::Read);
            access_visit_cases(cands, access, cases);
        },
        Stmt::Throw(e) => access_visit_expr(cands, access, e, AccessKind::Read),
        Stmt::Try(block, handler, finalizer) => {
            access_visit_stmts(cands, access, block);
            if let Some(h) = handler {
                access_visit_stmts(cands, access, &h.body);
            }
            if let Some(f) = finalizer {
                access_visit_stmts(cands, access, f);
            }
        },
        Stmt::While(test, body) => {
            access_visit_expr(cands, access, test, AccessKind::Read);
            access_visit_stmt(cands, access, body);
        },
        Stmt::DoWhile(test, body) => {
            access_visit_expr(cands, access, test, AccessKind::Read);
            access_visit_stmt(cands, access, body);
        },
        Stmt::For(init, test, update, body) => {
            match init {
                Some(VarDeclOrExpr::VarDecl(v)) => access_visit_var_decl(cands, access, &v.decls),
                Some(VarDeclOrExpr::Expr(e)) => access_visit_expr(cands, access, e, AccessKind::Read),
                None => {},
            }
            if let Some(e) = test {
                access_visit_expr(cands, access, e, AccessKind::Read);
            }
            if let Some(e) = update {
                access_visit_expr(cands, access, e, AccessKind::Read);
            }
            access_visit_stmt(cands, access, body);
        },
        Stmt::ForIn(left, right, body) => {
            access_visit_var_decl_or_pat(cands, access, left);
            access_visit_expr(cands, access, right, AccessKind::Read);
            access_visit_stmt(cands, access, body);
        },
        Stmt::ForOf(left, right, body) => {
            access_visit_var_decl_or_pat(cands, access, left);
            access_visit_expr(cands, access, right, AccessKind::Read);
            access_visit_stmt(cands, access, body);
        },
        Stmt::Other => {},
    }
}

/// Visit the left of a `for ... in` or `for ... of`.
fn access_visit_var_decl_or_pat(
    cands: &Vec<Builtin>,
    access: &mut IndexMap<Vec<String>, Access>,
    n: &VarDeclOrPat,
)
    ensures
        visited(
            builtins_view(cands@),
            path_access_entries(*old(access)),
            path_access_entries(*final(access)),
            left_access(*n, builtins_view(cands@), path_access_entries(*old(access))),
        ),
    decreases n, 0nat,
{
    match n {
        VarDeclOrPat::VarDecl(v) => access_visit_var_decl(cands, access, &v.decls),
        VarDeclOrPat::Pat(p) => access_visit_pat(cands, access, p),
    }
}

/// Visit statements in order.
fn access_visit_stmts(cands: &Vec<Builtin>, access: &mut IndexMap<Vec<String>, Access>, ss: &Vec<Stmt>)
    ensures
        visited(
            builtins_view(cands@),
            path_access_entries(*old(access)),
            path_access_entries(*final(access)),
            stmts_access(ss@, builtins_view(cands@), path_access_entries(*old(access))),
        ),
    decreases ss, 0nat,
{
    let ghost cv = builtins_view(cands@);
    let ghost start = path_access_entries(*access);
    let mut i: usize = 0;
    while i < ss.len()
        invariant
            cv == builtins_view(cands@),
            i <= ss@.len(),
            visited(cv, start, path_access_entries(*access), stmts_access(ss@.take(i as int), cv, start)),
        decreases ss@.len() - i,
    {
        proof {
            assert(decreases_to!(*ss => ss[i as int]));
            let t = ss@.take(i as int + 1);
            assert(t.subrange(0, t.len() - 1) =~= ss@.take(i as int));
            assert(t[t.len() - 1] == ss@[i as int]);
        }
        access_visit_stmt(cands, access, &ss[i]);
        i = i + 1;
    }
    assert(ss@.take(ss@.len() as int) =~= ss@);
}

/// Visit statements reached inside a declaration, in order.
fn access_visit_reached(cands: &Vec<Builtin>, access: &mut IndexMap<Vec<String>, Access>, ss: &Vec<&Stmt>)
    ensures
        visited(
            builtins_view(cands@),
            path_access_entries(*old(access)),
            path_access_entries(*final(access)),
            stmts_access(derefs(ss@), builtins_view(cands@), path_access_entries(*old(access))),
        ),
{
    let ghost cv = builtins_view(cands@);
    let ghost start = path_access_entries(*access);
    let ghost all = derefs(ss@);
    let mut i: usize = 0;
    while i < ss.len()
        invariant
            cv == builtins_view(cands@),
            all == derefs(ss@),
            i <= ss@.len(),
            visited(cv, start, path_access_entries(*access), stmts_access(all.take(i as int), cv, start)),
        decreases ss@.len() - i,
    {
        proof {
            let t = all.take(i as int + 1);
            assert(t.subrange(0, t.len() - 1) =~= all.take(i as int));
            assert(t[t.len() - 1] == *ss@[i as int]);
        }
        access_visit_stmt(cands, access, ss[i]);
        i = i + 1;
    }
    assert(all.take(all.len() as int) =~= all);
}

/// Visit the cases of a switch in order.
fn access_visit_cases(cands: &Vec<Builtin>, access: &mut IndexMap<Vec<String>, Access>, cases: &Vec<SwitchCase>)
    ensures
        visited(
            builtins_view(cands@),
            path_access_entries(*old(access)),
            path_access_entries(*final(access)),
            cases_access(cases@, builtins_view(cands@), path_access_entries(*old(access))),
        ),
    decreases cases, 0nat,
{
    let ghost cv = builtins_view(cands@);
    let ghost start = path_access_entries(*access);
    let mut i: usize = 0;
    while i < cases.len()
        invariant
            cv == builtins_view(cands@),
            i <= cases@.len(),
            visited(cv, start, path_access_entries(*access), cases_access(cases@.take(i as int), cv, start)),
        decreases cases@.len() - i,
    {
        let case = &cases[i];
        proof {
            assert(decreases_to!(*cases => cases[i as int]));
            assert(decreases_to!(cases[i as int] => cases[i as int].cons));
            let t = cases@.take(i as int + 1);
            assert(t.subrange(0, t.len() - 1) =~= cases@.take(i as int));
            assert(t[t.len() - 1] == cases@[i as int]);
        }
        if let Some(e) = &case.test {
            access_visit_expr(cands, access, e, AccessKind::Read);
        }
        access_visit_stmts(cands, access, &case.cons);
        i = i + 1;
    }
    assert(cases@.take(cases@.len() as int) =~= cases@);
}

/// Visit the declarators of a variable declaration: each initializer is
/// read.
fn access_visit_var_decl(cands: &Vec<Builtin>, access: &mut IndexMap<Vec<String>, Access>, ds: &Vec<VarDeclarator>)
    ensures
        visited(
            builtins_view(cands@),
            path_access_entries(*old(access)),
            path_access_entries(*final(access)),
            decls_access(ds@, builtins_view(cands@), path_access_entries(*old(access))),
        ),
    decreases ds, 0nat,
{
    let ghost cv = builtins_view(cands@);
    let ghost start = path_access_entries(*access);
    let mut i: usize = 0;
    while i < ds.len()
        invariant
            cv == builtins_view(cands@),
            i <= ds@.len(),
            visited(cv, start, path_access_entries(*access), decls_access(ds@.take(i as int), cv, start)),
        decreases ds@.len() - i,
    {
        proof {
            assert(decreases_to!(*ds => ds[i as int]));
            assert(decreases_to!(ds[i as int] => ds[i as int].init));
            let t = ds@.take(i as int + 1);
            assert(t.subrange(0, t.len() - 1) =~= ds@.take(i as int));
            assert(t[t.len() - 1] == ds@[i as int]);
        }
        if let Some(init) = &ds[i].init {
            access_visit_expr(cands, access, init, AccessKind::Read);
        }
        i = i + 1;
    }
    assert(ds@.take(ds@.len() as int) =~= ds@);
}

/// Visit a pattern: the default value of an assignment pattern and an
/// expression in pattern position are read.
fn access_visit_pat(cands: &Vec<Builtin>, access: &mut IndexMap<Vec<String>, Access>, n: &Pat)
    ensures
        visited(
            builtins_view(cands@),
            path_access_entries(*old(access)),
            path_access_entries(*final(access)),
            pat_access(*n, builtins_view(cands@), path_access_entries(*old(access))),
        ),
    decreases n, 1nat,
{
    match n {
        Pat::Assign(_, right) => access_visit_expr(cands, access, right, AccessKind::Read),
        Pat::Expr(e) => access_visit_expr(cands, access, e, AccessKind::Read),
        _ => {},
    }
}

/// Visit patterns in order.
fn access_visit_pats(cands: &Vec<Builtin>, access: &mut IndexMap<Vec<String>, Access>, ps: &Vec<Pat>)
    ensures
        visited(
            builtins_view(cands@),
            path_access_entries(*old(access)),
            path_access_entries(*final(access)),
            pats_access(ps@, builtins_view(cands@), path_access_entries(*old(access))),
        ),
    decreases ps, 0nat,
{
    let ghost cv = builtins_view(cands@);
    let ghost start = path_access_entries(*access);
    let mut i: usize = 0;
    while i < ps.len()
        invariant
            cv == builtins_view(cands@),
            i <= ps@.len(),
            visited(cv, start, path_access_entries(*access), pats_access(ps@.take(i as int), cv, start)),
        decreases ps@.len() - i,
    {
        proof {
            assert(decreases_to!(*ps => ps[i as int]));
            let t = ps@.take(i as int + 1);
            assert(t.subrange(0, t.len() - 1) =~= ps@.take(i as int));
            assert(t[t.len() - 1] == ps@[i as int]);
        }
        access_visit_pat(cands, access, &ps[i]);
        i = i + 1;
    }
    assert(ps@.take(ps@.len() as int) =~= ps@);
}

/// Visit a function: its parameters, then its body.
fn access_visit_fn(cands: &Vec<Builtin>, access: &mut IndexMap<Vec<String>, Access>, f: &Function)
    ensures
        visited(
            builtins_view(cands@),
            path_access_entries(*old(access)),
            path_access_entries(*final(access)),
            function_access(*f, builtins_view(cands@), path_access_entries(*old(access))),
        ),
    decreases f, 0nat,
{
    access_visit_pats(cands, access, &f.params);
    if let Some(body) = &f.body {
        access_visit_stmts(cands, access, body);
    }
}

/// Visit a class declaration: its super class is read, then its members
/// are visited.
fn access_visit_class(cands: &Vec<Builtin>, access: &mut IndexMap<Vec<String>, Access>, c: &Class)
    ensures
        visited(
            builtins_view(cands@),
            path_access_entries(*old(access)),
            path_access_entries(*final(access)),
            class_access(*c, builtins_view(cands@), path_access_entries(*old(access))),
        ),
    decreases c, 0nat,
{
    if let Some(e) = &c.super_class {
        access_visit_expr(cands, access, e, AccessKind::Read);
    }
    access_visit_members(cands, access, &c.body);
}

/// Visit class members in order.
fn access_visit_members(cands: &Vec<Builtin>, access: &mut IndexMap<Vec<String>, Access>, ms: &Vec<ClassMember>)
    ensures
        visited(
            builtins_view(cands@),
            path_access_entries(*old(access)),
            path_access_entries(*final(access)),
            members_access(ms@, builtins_view(cands@), path_access_entries(*old(access))),
        ),
    decreases ms, 0nat,
{
    let ghost cv = builtins_view(cands@);
    let ghost start = path_access_entries(*access);
    let mut i: usize = 0;
    while i < ms.len()
        invariant
            cv == builtins_view(cands@),
            i <= ms@.len(),
            visited(cv, start, path_access_entries(*access), members_access(ms@.take(i as int), cv, start)),
        decreases ms@.len() - i,
    {
        proof {
            assert(decreases_to!(*ms => ms[i as int]));
            let t = ms@.take(i as int + 1);
            assert(t.subrange(0, t.len() - 1) =~= ms@.take(i as int));
            assert(t[t.len() - 1] == ms@[i as int]);
        }
        match &ms[i] {
            ClassMember::Constructor(params, body) => {
                access_visit_pats(cands, access, params);
                if let Some(ss) = body {
                    access_visit_stmts(cands, access, ss);
                }
            },
            ClassMember::Method(_, _, f) => access_visit_fn(cands, access, f),
            ClassMember::PrivateMethod(_, _, f) => access_visit_fn(cands, access, f),
            ClassMember::ClassProp(_, _, v) => {
                if let Some(e) = v {
                    access_visit_expr(cands, access, e, AccessKind::Read);
                }
            },
            ClassMember::PrivateProp(_, _, v) => {
                if let Some(e) = v {
                    access_visit_expr(cands, access, e, AccessKind::Read);
                }
            },
            ClassMember::StaticBlock(_) | ClassMember::Other => {},
        }
        i = i + 1;
    }
    assert(ms@.take(ms@.len() as int) =~= ms@);
}

/// Whether every name of a list of accesses by name is a word path rooted
/// in one of the builtin modules, joined with `.` delimiters.
pub open spec fn names_builtin_paths(names: Seq<(Seq<char>, Access)>, cands: Seq<BuiltinView>) -> bool {
    forall|i: int|
        0 <= i < names.len() ==> exists|p: Seq<Seq<char>>| #[trigger] rooted_path(p, cands) && joined(p) == (
        #[trigger] names[i]).0
}

/// Visit a module and generate the set of access
/// to builtin packages.
#[derive(Debug, Default)]
pub struct BuiltinAnalysis;

impl BuiltinAnalysis {
    /// Analyze and compute the builtins for a module.
    ///
    /// Every name reported is a dot-joined path that starts with the name
    /// of a builtin module the module imports or requires (or is empty);
    /// a module that binds no builtin module reports nothing.
    pub fn analyze(&self, module: &Module) -> (r: IndexMap<String, Access>)
        ensures
            name_access_entries(r) == computed(
                module_access(module.body@, module_found(module.body@), Seq::empty()),
            ),
            names_builtin_paths(name_access_entries(r), module_found(module.body@)),
            module_found(module.body@).len() == 0 ==> name_access_entries(r).len() == 0,
    {
        let candidates = find_module(module);
        let ghost cv = builtins_view(candidates@);
        let mut access = path_access_new();
        let ghost start = path_access_entries(access);
        let mut i: usize = 0;
        while i < module.body.len()
            invariant
                cv == builtins_view(candidates@),
                start == Seq::<(Seq<Seq<char>>, Access)>::empty(),
                i <= module.body@.len(),
                visited(
                    cv,
                    start,
                    path_access_entries(access),
                    module_access(module.body@.take(i as int), cv, start),
                ),
            decreases module.body@.len() - i,
        {
            proof {
                let t = module.body@.take(i as int + 1);
                assert(t.drop_last() =~= module.body@.take(i as int));
                assert(t.last() == module.body@[i as int]);
            }
            match &module.body[i] {
                ModuleItem::Stmt(st) => access_visit_stmt(&candidates, &mut access, st),
                ModuleItem::Export(d) => {
                    let reached = reach_export(d);
                    access_visit_reached(&candidates, &mut access, &reached);
                },
                ModuleItem::Import(_) => {},
            }
            i = i + 1;
        }
        assert(module.body@.take(module.body@.len() as int) =~= module.body@);
        self.compute(access, Ghost(cv))
    }

    /// Compute the builtins.
    fn compute(&self, access: IndexMap<Vec<String>, Access>, Ghost(cands): Ghost<Seq<BuiltinView>>) -> (r: IndexMap<
        String,
        Access,
    >)
        ensures
            name_access_entries(r) == computed(path_access_entries(access)),
            rooted(path_access_entries(access), cands) ==> names_builtin_paths(name_access_entries(r), cands),
    {
        let ghost entries = path_access_entries(access);
        let mut out = name_access_new();
        let n = path_access_len(&access);
        let mut i: usize = 0;
        while i < n
            invariant
                n == entries.len(),
                entries == path_access_entries(access),
                i <= n,
                name_access_entries(out) == computed(entries.take(i as int)),
                rooted(entries, cands) ==> names_builtin_paths(name_access_entries(out), cands),
            decreases n - i,
        {
            let ghost prev = name_access_entries(out);
            let (words, a) = path_access_get_index(&access, i);
            let name = join_words(words);
            let ghost k = name@;
            name_access_insert(&mut out, name, *a);
            proof {
                let t = entries.take(i as int + 1);
                assert(t.drop_last() =~= entries.take(i as int));
                assert(t.last() == entries[i as int]);
                let next = name_access_entries(out);
                lemma_key_position(prev, k);
                if rooted(entries, cands) {
                    assert(rooted_path(entries[i as int].0, cands));
                    assert(joined(entries[i as int].0) == k);
                    assert forall|j: int| 0 <= j < next.len() implies exists|p: Seq<Seq<char>>| #[trigger]
                        rooted_path(p, cands) && joined(p) == (#[trigger] next[j]).0 by {
                        if j < prev.len() && next[j].0 != k {
                            assert(next[j] == prev[j]);
                        } else {
                            assert(next[j].0 == k);
                        }
                    }
                }
            }
            i = i + 1;
        }
        assert(entries.take(entries.len() as int) =~= entries);
        out
    }
}


/// Visiting statements one after another is visiting the first ones, then
/// the others from where the first left the accesses.
pub proof fn lemma_stmts_access_concat(a: Seq<Stmt>, b: Seq<Stmt>, cands: Seq<BuiltinView>, m: Seq<(Seq<Seq<char>>, Access)>)
    ensures
        stmts_access(a + b, cands, m) == stmts_access(b, cands, stmts_access(a, cands, m)),
    decreases b.len(),
{
    if b.len() == 0 {
        assert(a + b =~= a);
    } else {
        let b0 = b.subrange(0, b.len() - 1);
        lemma_stmts_access_concat(a, b0, cands, m);
        assert((a + b).subrange(0, (a + b).len() - 1) =~= a + b0);
        assert((a + b)[(a + b).len() - 1] == b[b.len() - 1]);
    }
}

/// Every statement nested in a statement is visited, after what comes
/// before it: the alternative of an `if` after the test and the
/// consequent, the body of a loop after its head, a labeled or block body
/// in place of the statement, the handler after the protected block and a
/// `finally` block after both; a returned or thrown value is visited as an
/// expression statement is.
pub proof fn lemma_nested_statements_visited(
    t: Box<Expr>,
    c: Box<Stmt>,
    a: Box<Stmt>,
    ss: Vec<Stmt>,
    h: Option<CatchClause>,
    f: Vec<Stmt>,
    hc: CatchClause,
    init: Option<VarDeclOrExpr>,
    test: Option<Box<Expr>>,
    update: Option<Box<Expr>>,
    left: VarDeclOrPat,
    cands: Seq<BuiltinView>,
    m: Seq<(Seq<Seq<char>>, Access)>,
)
    ensures
        stmt_access(Stmt::If(t, c, Some(a)), cands, m) == stmt_access(
            *a,
            cands,
            stmt_access(Stmt::If(t, c, None), cands, m),
        ),
        stmt_access(Stmt::If(t, c, None), cands, m) == stmt_access(*c, cands, stmt_access(Stmt::Expr(t), cands, m)),
        stmt_access(Stmt::While(t, c), cands, m) == stmt_access(*c, cands, stmt_access(Stmt::Expr(t), cands, m)),
        stmt_access(Stmt::DoWhile(t, c), cands, m) == stmt_access(*c, cands, stmt_access(Stmt::Expr(t), cands, m)),
        stmt_access(Stmt::Labeled(c), cands, m) == stmt_access(*c, cands, m),
        stmt_access(Stmt::Block(ss), cands, m) == stmts_access(ss@, cands, m),
        stmt_access(Stmt::Try(ss, h, Some(f)), cands, m) == stmts_access(
            f@,
            cands,
            stmt_access(Stmt::Try(ss, h, None), cands, m),
        ),
        stmt_access(Stmt::Try(ss, None, None), cands, m) == stmts_access(ss@, cands, m),
        stmt_access(Stmt::Try(ss, Some(hc), None), cands, m) == stmts_access(
            hc.body@,
            cands,
            stmt_access(Stmt::Try(ss, None, None), cands, m),
        ),
        stmt_access(Stmt::With(t, c), cands, m) == stmt_access(*c, cands, stmt_access(Stmt::Expr(t), cands, m)),
        stmt_access(Stmt::For(init, test, update, c), cands, m) == stmt_access(
            *c,
            cands,
            stmt_access(Stmt::For(init, test, update, Box::new(Stmt::Other)), cands, m),
        ),
        stmt_access(Stmt::ForIn(left, t, c), cands, m) == stmt_access(
            *c,
            cands,
            stmt_access(Stmt::ForIn(left, t, Box::new(Stmt::Other)), cands, m),
        ),
        stmt_access(Stmt::ForOf(left, t, c), cands, m) == stmt_access(
            *c,
            cands,
            stmt_access(Stmt::ForOf(left, t, Box::new(Stmt::Other)), cands, m),
        ),
        stmt_access(Stmt::Return(Some(t)), cands, m) == stmt_access(Stmt::Expr(t), cands, m),
        stmt_access(Stmt::Throw(t), cands, m) == stmt_access(Stmt::Expr(t), cands, m),
{
    let head = match init {
        Some(VarDeclOrExpr::VarDecl(v)) => decls_access(v.decls@, cands, m),
        Some(VarDeclOrExpr::Expr(e)) => expr_access(*e, AccessKind::Read, cands, m),
        None => m,
    };
    let head2 = match test {
        Some(e) => expr_access(*e, AccessKind::Read, cands, head),
        None => head,
    };
    let head3 = match update {
        Some(e) => expr_access(*e, AccessKind::Read, cands, head2),
        None => head2,
    };
    assert(stmt_access(Stmt::Other, cands, head3) == head3);
    assert(stmt_access(Stmt::For(init, test, update, Box::new(Stmt::Other)), cands, m) == head3);
    let lr = expr_access(*t, AccessKind::Read, cands, left_access(left, cands, m));
    assert(stmt_access(Stmt::Other, cands, lr) == lr);
    assert(stmt_access(Stmt::ForIn(left, t, Box::new(Stmt::Other)), cands, m) == lr);
    assert(stmt_access(Stmt::ForOf(left, t, Box::new(Stmt::Other)), cands, m) == lr);
}

/// A member path of a builtin module taken for a call through a method of
/// function objects (`call`, `apply`, `bind`, `toSource`, `toString`) is
/// the path of calling the function itself.
pub proof fn lemma_call_through_function_method(
    words: Seq<Seq<char>>,
    local: LocalView,
    source: Seq<char>,
    method: Seq<char>,
)
    requires
        words.len() > 0,
        method == "call"@ || method == "apply"@ || method == "bind"@ || method == "toSource"@ || method
            == "toString"@,
    ensures
        member_key(words.push(method), local, source, AccessKind::Execute) == member_key(
            words,
            local,
            source,
            AccessKind::Read,
        ),
{
    let w = words.push(method);
    assert(w[0] == words[0]);
    assert(w.drop_first() =~= words.drop_first().push(method));
    let q = if words[0] != source {
        seq![source] + if local is Default {
            words.drop_first()
        } else {
            words
        }
    } else {
        words
    };
    let qw = if w[0] != source {
        seq![source] + if local is Default {
            w.drop_first()
        } else {
            w
        }
    } else {
        w
    };
    assert(qw =~= q.push(method));
    assert(qw.last() == method);
    assert(qw.drop_last() =~= q);
}

} // verus!
