//! Transform a module to a static module record functor program.
//!
//! The module's items become the body of an arrow function that receives
//! the `imports`, `liveVar` and `onceVar` hooks under hidden names:
//! exports turn into calls on the hidden `once` and `live` targets, the
//! imports into one call of the hidden `imports` function with a map from
//! each module specifier to the functions that bind its names.
use vstd::prelude::*;

use indexmap::IndexSet;

use crate::analysis::exports::{exports_view, items_exports, items_reexports, names_view, var_export_names_of};
use crate::analysis::live_exports::items_live;
use crate::analysis::roots::items_roots;
use crate::ast::{
    ArrowExpr, BlockStmtOrExpr, CallExpr, Class, Decl, ExportDecl, ExportSpecifier, Expr, ExprOrSuper, Function,
    Lit, MemberExpr, Module, ModuleItem, NewExpr, ObjectPatProp, Pat, PatOrExpr, PropName, PropOrSpread, Stmt,
    VarDecl, VarDeclKind, VarDeclarator,
};
use crate::collections::{
    key_position, lemma_key_position, lemma_key_position_is, name_items, names_contains, names_get, names_len,
};
use crate::source::{parse_source, parsed_module};
use crate::static_module_record::analyzer::{items_hoisted, roots_hoisted, Analyzer, LiveExportAnalysis};
use crate::static_module_record::parser::{
    exported_name, lists_names, module_record, pattern_names, record_pattern_names, Parser,
};
use crate::static_module_record::{
    decl_names, ImportKind, ImportName, ImportNameView, LiveExportView, RecordView, StaticModuleRecord,
};
use crate::text::{concat, str_eq};

verus! {

/// A hidden name: the word behind the hidden prefix.
pub open spec fn hidden(w: Seq<char>) -> Seq<char> {
    "$h\u{200d}_"@ + w
}

/// A hidden constant: the word behind the constant prefix.
pub open spec fn constant(w: Seq<char>) -> Seq<char> {
    "$c\u{200d}_"@ + w
}

/// Whether a table has an entry with a key.
pub open spec fn has_key<V>(t: Seq<(Seq<char>, V)>, k: Seq<char>) -> bool {
    key_position(t, k) is Some
}

/// A statement the functor body holds, by what it stands for.
pub enum Emit {
    /// `target.prop(arg)`, or `target.prop()` without an argument.
    Call(Seq<char>, Seq<char>, Option<Seq<char>>),
    /// `const { default: name } = { default: value };`
    DefaultConst(Seq<char>, Expr),
    /// A declaration of one declarator, with its kind.
    Declare(VarDeclKind, VarDeclarator),
    /// `let name = init;`
    DeclareLive(Seq<char>, Option<Box<Expr>>),
    /// `name = value;` with an identifier as the value.
    AssignName(Seq<char>, Seq<char>),
    /// A named function expression statement.
    FnExpr(Seq<char>, Function),
    /// A class declaration.
    ClassDecl(Seq<char>, Class),
    /// A statement kept as it is.
    Keep(Stmt),
    /// `let a, b, ...;` with the given names and no initializers.
    LocalVars(Seq<Seq<char>>),
    /// `Object.defineProperty(target, "prop", { value: "value" })`
    DefineProperty(Seq<char>, Seq<char>, Seq<char>),
    /// The call of the hidden `imports` function with the map of the
    /// imports of each module specifier and the modules all of whose
    /// exports are re-exported; the live exports decide how a name binds.
    ImportsCall(Seq<(Seq<char>, Seq<ImportNameView>)>, Seq<(Seq<char>, LiveExportView)>, Seq<Seq<char>>),
}

/// Whether an expression is an identifier with a name.
pub open spec fn ident_is(e: Expr, name: Seq<char>) -> bool {
    e matches Expr::Ident(x) && x@ == name
}

/// Whether an expression calls `target.prop` with the given identifier
/// argument, or with none.
pub open spec fn call_expr_is(e: Expr, target: Seq<char>, prop: Seq<char>, arg: Option<Seq<char>>) -> bool {
    match e {
        Expr::Call(c) => match c.callee {
            ExprOrSuper::Expr(cb) => match *cb {
                Expr::Member(m) => match m.obj {
                    ExprOrSuper::Expr(o) => ident_is(*o, target) && ident_is(*m.prop, prop) && !m.computed
                        && match arg {
                        Some(a) => c.args@.len() == 1 && ident_is(c.args@[0], a),
                        None => c.args@.len() == 0,
                    },
                    _ => false,
                },
                _ => false,
            },
            _ => false,
        },
        _ => false,
    }
}

/// Whether an expression statement calls `target.prop` with the given
/// identifier argument, or with none.
pub open spec fn call_is(s: Stmt, target: Seq<char>, prop: Seq<char>, arg: Option<Seq<char>>) -> bool {
    match s {
        Stmt::Expr(b) => call_expr_is(*b, target, prop, arg),
        _ => false,
    }
}

/// Whether an object literal is `{ default: value }`.
pub open spec fn default_object_is(e: Expr, value: Expr) -> bool {
    match e {
        Expr::Object(os) => os@.len() == 1 && match os@[0] {
            PropOrSpread::KeyValue(PropName::Ident(k), val) => k@ == "default"@ && *val == value,
            _ => false,
        },
        _ => false,
    }
}

/// Whether a pattern is `{ default: name }`.
pub open spec fn default_pattern_is(p: Pat, name: Seq<char>) -> bool {
    match p {
        Pat::Object(ps) => ps@.len() == 1 && match ps@[0] {
            ObjectPatProp::KeyValue(PropName::Ident(k), pv) => k@ == "default"@ && ident_pat_is(*pv, name),
            _ => false,
        },
        _ => false,
    }
}

/// Whether a statement declares variables of a kind, with the given
/// declarators.
pub open spec fn var_stmt_is(s: Stmt, kind: VarDeclKind, decls: Seq<VarDeclarator>) -> bool {
    match s {
        Stmt::Decl(Decl::Var(vd)) => vd.kind == kind && vd.decls@ == decls,
        _ => false,
    }
}

/// Whether a statement declares one variable of a kind, whose declarator
/// meets `ok`.
pub open spec fn one_var_is(s: Stmt, kind: VarDeclKind) -> Option<VarDeclarator> {
    match s {
        Stmt::Decl(Decl::Var(vd)) => if vd.kind == kind && vd.decls@.len() == 1 {
            Some(vd.decls@[0])
        } else {
            None
        },
        _ => None,
    }
}

/// Whether a statement is the declaration that a statement stands for.
pub open spec fn emits(e: Emit, s: Stmt) -> bool {
    match e {
        Emit::Call(t, p, a) => call_is(s, t, p, a),
        Emit::DefaultConst(name, value) => match one_var_is(s, VarDeclKind::Const) {
            Some(d) => default_pattern_is(d.name, name) && match d.init {
                Some(ie) => default_object_is(*ie, value),
                None => false,
            },
            None => false,
        },
        Emit::Declare(kind, d) => var_stmt_is(s, kind, seq![d]),
        Emit::DeclareLive(name, init) => match one_var_is(s, VarDeclKind::Let) {
            Some(d) => ident_pat_is(d.name, name) && d.init == init,
            None => false,
        },
        Emit::AssignName(name, value) => match s {
            Stmt::Expr(b) => match *b {
                Expr::Assign(PatOrExpr::Pat(p), r) => ident_pat_is(*p, name) && ident_is(*r, value),
                _ => false,
            },
            _ => false,
        },
        Emit::FnExpr(name, f) => match s {
            Stmt::Expr(b) => match *b {
                Expr::Fn(Some(x), g) => x@ == name && g == f,
                _ => false,
            },
            _ => false,
        },
        Emit::ClassDecl(name, c) => match s {
            Stmt::Decl(Decl::Class(x, k)) => x@ == name && k == c,
            _ => false,
        },
        Emit::Keep(t) => s == t,
        Emit::LocalVars(names) => local_vars_is(s, names),
        Emit::DefineProperty(t, p, v) => define_property_is(s, t, p, v),
        Emit::ImportsCall(imports, live, alls) => imports_call_is(s, imports, live, alls),
    }
}

/// Whether a pattern is an identifier with a name.
pub open spec fn ident_pat_is(p: Pat, name: Seq<char>) -> bool {
    p matches Pat::Ident(x) && x@ == name
}

/// Whether an optional expression is a string literal with a value.
pub open spec fn str_is(o: Option<Expr>, v: Seq<char>) -> bool {
    match o {
        Some(Expr::Lit(Lit::Str(x))) => x@ == v,
        _ => false,
    }
}

/// `let a, b, ...;` with the given names and no initializers.
pub open spec fn local_vars_is(s: Stmt, names: Seq<Seq<char>>) -> bool {
    match s {
        Stmt::Decl(Decl::Var(vd)) => vd.kind == VarDeclKind::Let && vd.decls@.len() == names.len() && forall|i: int|
            0 <= i < names.len() ==> ident_pat_is(#[trigger] vd.decls@[i].name, names[i]) && vd.decls@[i].init is None,
        _ => false,
    }
}

/// `Object.defineProperty(target, "prop", { value: "value" })`
pub open spec fn define_property_is(s: Stmt, target: Seq<char>, prop: Seq<char>, value: Seq<char>) -> bool {
    match s {
        Stmt::Expr(b) => match *b {
            Expr::Call(c) => match c.callee {
                ExprOrSuper::Expr(cb) => match *cb {
                    Expr::Member(m) => match m.obj {
                        ExprOrSuper::Expr(o) => ident_is(*o, "Object"@) && ident_is(*m.prop, "defineProperty"@)
                            && !m.computed && c.args@.len() == 3 && ident_is(c.args@[0], target) && str_is(
                            Some(c.args@[1]),
                            prop,
                        ) && match c.args@[2] {
                            Expr::Object(ps) => ps@.len() == 1 && match ps@[0] {
                                PropOrSpread::KeyValue(PropName::Ident(k), v) => k@ == "value"@ && str_is(
                                    Some(*v),
                                    value,
                                ),
                                _ => false,
                            },
                            _ => false,
                        },
                        _ => false,
                    },
                    _ => false,
                },
                _ => false,
            },
            _ => false,
        },
        _ => false,
    }
}

/// The name under which an import is grouped in the imports map: `*` for
/// a namespace import, `default` for a default import, the imported name
/// otherwise.
pub open spec fn raw_name(n: ImportNameView) -> Seq<char> {
    match n.kind {
        ImportKind::All => "*"@,
        ImportKind::Default => "default"@,
        ImportKind::Named => n.name,
    }
}

/// The variable an import assigns to: its alias, or its name.
pub open spec fn alias_of(n: ImportNameView) -> Seq<char> {
    match n.alias {
        Some(a) => a,
        None => n.name,
    }
}

/// The groups after an item joins the group of its key (a new group, last,
/// for a new key).
pub open spec fn group_put(
    gs: Seq<(Seq<char>, Seq<(Seq<char>, Seq<char>)>)>,
    key: Seq<char>,
    item: (Seq<char>, Seq<char>),
) -> Seq<(Seq<char>, Seq<(Seq<char>, Seq<char>)>)> {
    match key_position(gs, key) {
        Some(i) => gs.update(i, (key, gs[i].1.push(item))),
        None => gs.push((key, seq![item])),
    }
}

/// The imports of a module specifier grouped by raw name, in the order
/// the raw names are first met: each with its name and alias.
pub open spec fn groups_of(props: Seq<ImportNameView>) -> Seq<(Seq<char>, Seq<(Seq<char>, Seq<char>)>)>
    decreases props.len(),
{
    if props.len() == 0 {
        Seq::empty()
    } else {
        group_put(groups_of(props.drop_last()), raw_name(props.last()), (props.last().name, alias_of(props.last())))
    }
}

/// Whether a name is bound live: it is a live export, or some live export
/// is bound to it.
pub open spec fn is_live(live: Seq<(Seq<char>, LiveExportView)>, key: Seq<char>) -> bool {
    has_key(live, key) || exists|j: int| 0 <= j < live.len() && (#[trigger] live[j]).1.name == key
}

/// The function that binds an imported name: the live export itself, or
/// an arrow function that assigns its argument to the alias.
pub open spec fn prop_func_is(f: Expr, name: Seq<char>, alias: Seq<char>, live: bool) -> bool {
    if live {
        match f {
            Expr::Member(m) => match m.obj {
                ExprOrSuper::Expr(o) => ident_is(*o, hidden("live"@)) && str_is(Some(*m.prop), name) && m.computed,
                _ => false,
            },
            _ => false,
        }
    } else {
        match f {
            Expr::Arrow(a) => a.params@.len() == 1 && ident_pat_is(a.params@[0], hidden("a"@)) && match a.body {
                BlockStmtOrExpr::Expr(b) => match *b {
                    Expr::Paren(q) => match *q {
                        Expr::Assign(PatOrExpr::Pat(l), r) => ident_pat_is(*l, alias) && ident_is(*r, hidden("a"@)),
                        _ => false,
                    },
                    _ => false,
                },
                _ => false,
            },
            _ => false,
        }
    }
}

/// The items of `new Map([...])`.
pub open spec fn map_of(e: Expr) -> Option<Seq<Option<Expr>>> {
    match e {
        Expr::New(ne) => if ident_is(*ne.callee, "Map"@) {
            match ne.args {
                Some(a) => if a@.len() == 1 {
                    match a@[0] {
                        Expr::Array(items) => Some(items@),
                        _ => None,
                    }
                } else {
                    None
                },
                None => None,
            }
        } else {
            None
        },
        _ => None,
    }
}

/// Whether an array element is `[raw, [functions]]` for a group.
pub open spec fn group_is(
    o: Option<Expr>,
    g: (Seq<char>, Seq<(Seq<char>, Seq<char>)>),
    live: Seq<(Seq<char>, LiveExportView)>,
) -> bool {
    match o {
        Some(Expr::Array(pair)) => pair@.len() == 2 && str_is(pair@[0], g.0) && match pair@[1] {
            Some(Expr::Array(fs)) => fs@.len() == g.1.len() && forall|m: int|
                0 <= m < fs@.len() ==> match #[trigger] fs@[m] {
                    Some(f) => prop_func_is(f, g.1[m].0, g.1[m].1, is_live(live, g.0)),
                    None => false,
                },
            _ => false,
        },
        _ => false,
    }
}

/// Whether an array element is `[specifier, new Map([...])]` for the
/// imports of a module specifier.
pub open spec fn entry_is(
    o: Option<Expr>,
    entry: (Seq<char>, Seq<ImportNameView>),
    live: Seq<(Seq<char>, LiveExportView)>,
) -> bool {
    match o {
        Some(Expr::Array(pair)) => pair@.len() == 2 && str_is(pair@[0], entry.0) && match pair@[1] {
            Some(m) => match map_of(m) {
                Some(items) => items.len() == groups_of(entry.1).len() && forall|j: int|
                    0 <= j < items.len() ==> group_is(#[trigger] items[j], groups_of(entry.1)[j], live),
                None => false,
            },
            None => false,
        },
        _ => false,
    }
}

/// Whether an expression is an array of the given string literals.
pub open spec fn alls_is(e: Expr, alls: Seq<Seq<char>>) -> bool {
    match e {
        Expr::Array(xs) => xs@.len() == alls.len() && forall|i: int| 0 <= i < alls.len() ==> str_is(#[trigger] xs@[i], alls[i]),
        _ => false,
    }
}

/// Whether an expression is the imports map.
pub open spec fn imports_map_is(
    e: Expr,
    imports: Seq<(Seq<char>, Seq<ImportNameView>)>,
    live: Seq<(Seq<char>, LiveExportView)>,
) -> bool {
    match map_of(e) {
        Some(items) => items.len() == imports.len() && forall|i: int|
            0 <= i < items.len() ==> entry_is(#[trigger] items[i], imports[i], live),
        None => false,
    }
}

/// The call of the hidden `imports` function.
pub open spec fn imports_call_is(
    s: Stmt,
    imports: Seq<(Seq<char>, Seq<ImportNameView>)>,
    live: Seq<(Seq<char>, LiveExportView)>,
    alls: Seq<Seq<char>>,
) -> bool {
    match s {
        Stmt::Expr(b) => match *b {
            Expr::Call(c) => match c.callee {
                ExprOrSuper::Expr(cb) => ident_is(*cb, hidden("imports"@)) && c.args@.len() == 2 && imports_map_is(
                    c.args@[0],
                    imports,
                    live,
                ) && alls_is(c.args@[1], alls),
                _ => false,
            },
            _ => false,
        },
        _ => false,
    }
}

/// Whether the statements after `before` in `after` are, one by one, those
/// the plan stands for, with the statements before kept.
pub open spec fn emitted(before: Seq<Stmt>, after: Seq<Stmt>, plan: Seq<Emit>) -> bool {
    &&& after.len() == before.len() + plan.len()
    &&& forall|i: int| 0 <= i < before.len() ==> #[trigger] after[i] == before[i]
    &&& forall|j: int| 0 <= j < plan.len() ==> emits(#[trigger] plan[j], after[before.len() + j])
}

/// Emitting in two steps emits both plans in order.
pub proof fn lemma_emitted_trans(a: Seq<Stmt>, b: Seq<Stmt>, c: Seq<Stmt>, p: Seq<Emit>, q: Seq<Emit>)
    requires
        emitted(a, b, p),
        emitted(b, c, q),
    ensures
        emitted(a, c, p + q),
{
    assert forall|j: int| 0 <= j < (p + q).len() implies emits(#[trigger] (p + q)[j], c[a.len() + j]) by {
        if j < p.len() {
            assert(c[a.len() + j] == b[a.len() + j]);
        } else {
            assert((p + q)[j] == q[j - p.len()]);
            assert(c[a.len() + j] == c[b.len() + (j - p.len())]);
        }
    }
}

/// Nothing is emitted by an empty plan.
pub proof fn lemma_emitted_none(a: Seq<Stmt>)
    ensures
        emitted(a, a, Seq::empty()),
{
}

/// The statements a declarator stands for, for its names from the first
/// on: a fixed export declares it (once) and calls `once`; a live export
/// declares the hidden constant (once) and either assigns it to the name,
/// when the name is a hoisted reference, or calls `live`.
pub open spec fn decl_plan(
    kind: VarDeclKind,
    d: VarDeclarator,
    names: Seq<Seq<char>>,
    declared: bool,
    fixed: Seq<(Seq<char>, Seq<Seq<char>>)>,
    live: Seq<(Seq<char>, LiveExportView)>,
    refs: Seq<Seq<char>>,
) -> Seq<Emit>
    decreases names.len(),
{
    if names.len() == 0 {
        Seq::empty()
    } else {
        let n = names[0];
        let rest = names.drop_first();
        if has_key(fixed, n) {
            (if declared {
                Seq::empty()
            } else {
                seq![Emit::Declare(kind, d)]
            }) + seq![Emit::Call(hidden("once"@), n, Some(n))] + decl_plan(kind, d, rest, true, fixed, live, refs)
        } else if has_key(live, n) {
            (if declared {
                Seq::empty()
            } else {
                seq![Emit::DeclareLive(constant(n), d.init)]
            }) + (if refs.contains(n) {
                seq![Emit::AssignName(n, constant(n))]
            } else {
                seq![Emit::Call(hidden("live"@), n, Some(constant(n)))]
            }) + decl_plan(kind, d, rest, true, fixed, live, refs)
        } else {
            decl_plan(kind, d, rest, declared, fixed, live, refs)
        }
    }
}

/// The statements the declarators of an exported variable declaration
/// stand for, in order; a declarator that binds neither an identifier nor
/// an object pattern stands for none.
pub open spec fn var_plan(
    kind: VarDeclKind,
    ds: Seq<VarDeclarator>,
    fixed: Seq<(Seq<char>, Seq<Seq<char>>)>,
    live: Seq<(Seq<char>, LiveExportView)>,
    refs: Seq<Seq<char>>,
) -> Seq<Emit>
    decreases ds.len(),
{
    if ds.len() == 0 {
        Seq::empty()
    } else {
        (if lists_names(ds[0].name) {
            decl_plan(kind, ds[0], record_pattern_names(ds[0].name), false, fixed, live, refs)
        } else {
            Seq::empty()
        }) + var_plan(kind, ds.drop_first(), fixed, live, refs)
    }
}

/// The statements the specifiers of a named export stand for: a call of
/// `once` with the exported name and the local one.
pub open spec fn specifiers_plan(specs: Seq<ExportSpecifier>) -> Seq<Emit>
    decreases specs.len(),
{
    if specs.len() == 0 {
        Seq::empty()
    } else {
        specifiers_plan(specs.drop_last()) + match specs.last() {
            ExportSpecifier::Named(orig, exported) => seq![
                Emit::Call(hidden("once"@), exported_name(orig, exported), Some(orig@)),
            ],
            ExportSpecifier::Other => Seq::empty(),
        }
    }
}

/// The statements a default export of a value stands for.
pub open spec fn default_plan(value: Expr) -> Seq<Emit> {
    seq![
        Emit::DefaultConst(constant("default"@), value),
        Emit::Call(hidden("once"@), "default"@, Some(constant("default"@))),
    ]
}

/// The statements a module item stands for in the functor body.
pub open spec fn item_plan(
    item: ModuleItem,
    fixed: Seq<(Seq<char>, Seq<Seq<char>>)>,
    live: Seq<(Seq<char>, LiveExportView)>,
    refs: Seq<Seq<char>>,
) -> Seq<Emit> {
    match item {
        ModuleItem::Export(d) => match d {
            ExportDecl::Named(None, specs) => specifiers_plan(specs@),
            ExportDecl::DefaultDecl(e) => default_plan(*e),
            ExportDecl::DefaultExpr(e) => if has_key(fixed, "default"@) {
                default_plan(*e)
            } else {
                Seq::empty()
            },
            ExportDecl::Decl(Decl::Var(v)) => var_plan(v.kind, v.decls@, fixed, live, refs),
            ExportDecl::Decl(Decl::Fn(name, f)) => seq![Emit::FnExpr(constant(name@), f)],
            ExportDecl::Decl(Decl::Class(name, c)) => seq![
                Emit::ClassDecl(name@, c),
                Emit::Call(hidden("live"@), name@, Some(name@)),
            ],
            _ => Seq::empty(),
        },
        ModuleItem::Stmt(s) => seq![Emit::Keep(s)],
        ModuleItem::Import(_) => Seq::empty(),
    }
}

/// A hidden name.
fn prefix_hidden(w: &str) -> (r: String)
    ensures
        r@ == hidden(w@),
{
    concat("$h\u{200d}_", w)
}

/// A hidden constant name.
fn prefix_const(w: &str) -> (r: String)
    ensures
        r@ == constant(w@),
{
    concat("$c\u{200d}_", w)
}

/// An identifier expression.
fn ident(name: String) -> (r: Expr)
    ensures
        r == Expr::Ident(name),
{
    Expr::Ident(name)
}

/// `target.prop(arg)`, or `target.prop()` without an argument.
fn call_stmt(target: String, prop: String, arg: Option<String>) -> (r: Stmt)
    ensures
        emits(
            Emit::Call(
                target@,
                prop@,
                match arg {
                    Some(a) => Some(a@),
                    None => None,
                },
            ),
            r,
        ),
{
    let mut args: Vec<Expr> = Vec::new();
    if let Some(a) = arg {
        args.push(ident(a));
    }
    let member = MemberExpr {
        obj: ExprOrSuper::Expr(Box::new(ident(target))),
        prop: Box::new(ident(prop)),
        computed: false,
    };
    let call = CallExpr { callee: ExprOrSuper::Expr(Box::new(Expr::Member(member))), args };
    Stmt::Expr(Box::new(Expr::Call(call)))
}

/// `const { default: name } = { default: value };`
fn default_stmt(name: String, value: Box<Expr>) -> (r: Stmt)
    ensures
        emits(Emit::DefaultConst(name@, *value), r),
{
    let pattern = Pat::Object(vec![ObjectPatProp::KeyValue(PropName::Ident("default".to_string()), Box::new(Pat::Ident(name)))]);
    let init = Expr::Object(vec![PropOrSpread::KeyValue(PropName::Ident("default".to_string()), value)]);
    let decl = VarDeclarator { name: pattern, init: Some(Box::new(init)) };
    Stmt::Decl(Decl::Var(VarDecl { kind: VarDeclKind::Const, decls: vec![decl] }))
}

/// Append a statement that stands for a plan item.
fn emit(body: &mut Vec<Stmt>, s: Stmt, Ghost(e): Ghost<Emit>)
    requires
        emits(e, s),
    ensures
        emitted(old(body)@, final(body)@, seq![e]),
{
    body.push(s);
}

/// A string literal.
fn str_lit(v: String) -> (r: Expr)
    ensures
        r == Expr::Lit(Lit::Str(v)),
{
    Expr::Lit(Lit::Str(v))
}

/// `new Map([...items])`.
fn new_map(items: Vec<Option<Expr>>) -> (r: Expr)
    ensures
        map_of(r) == Some(items@),
{
    let ghost iv = items@;
    let mut args: Vec<Expr> = Vec::new();
    args.push(Expr::Array(items));
    let callee = Box::new(ident("Map".to_string()));
    let r = Expr::New(NewExpr { callee, args: Some(args) });
    assert(map_of(r) == Some(iv));
    r
}

/// The function that binds an imported name.
fn prop_func(name: String, alias: String, live: bool) -> (r: Expr)
    ensures
        prop_func_is(r, name@, alias@, live),
{
    if live {
        let member = MemberExpr {
            obj: ExprOrSuper::Expr(Box::new(ident(prefix_hidden("live")))),
            prop: Box::new(str_lit(name)),
            computed: true,
        };
        Expr::Member(member)
    } else {
        let assign = Expr::Assign(PatOrExpr::Pat(Box::new(Pat::Ident(alias))), Box::new(ident(prefix_hidden("a"))));
        let mut params: Vec<Pat> = Vec::new();
        params.push(Pat::Ident(prefix_hidden("a")));
        Expr::Arrow(ArrowExpr { params, body: BlockStmtOrExpr::Expr(Box::new(Expr::Paren(Box::new(assign)))) })
    }
}

/// The views of groups.
pub open spec fn groups_view(gs: Seq<(String, Vec<(String, String)>)>) -> Seq<(Seq<char>, Seq<(Seq<char>, Seq<char>)>)> {
    gs.map_values(|g: (String, Vec<(String, String)>)| group_view(g))
}

/// The view of a group.
pub open spec fn group_view(g: (String, Vec<(String, String)>)) -> (Seq<char>, Seq<(Seq<char>, Seq<char>)>) {
    (g.0@, g.1@.map_values(|m: (String, String)| (m.0@, m.1@)))
}

/// The name an import is grouped under.
fn raw_name_of(n: &ImportName) -> (r: String)
    ensures
        r@ == raw_name(n.deep_view()),
{
    match n.kind() {
        ImportKind::All => "*".to_string(),
        ImportKind::Default => "default".to_string(),
        ImportKind::Named => n.as_str().to_string(),
    }
}

/// The variable an import assigns to.
fn alias_name(n: &ImportName) -> (r: String)
    ensures
        r@ == alias_of(n.deep_view()),
{
    match n.alias() {
        Some(a) => a.clone(),
        None => n.as_str().to_string(),
    }
}

/// Group the imports of a module specifier by raw name.
fn group_imports(names: &Vec<ImportName>) -> (r: Vec<(String, Vec<(String, String)>)>)
    ensures
        groups_view(r@) == groups_of(names.deep_view()),
{
    let ghost nv = names.deep_view();
    let mut out: Vec<(String, Vec<(String, String)>)> = Vec::new();
    let mut i: usize = 0;
    assert(groups_view(out@) =~= groups_of(nv.take(0)));
    while i < names.len()
        invariant
            i <= names@.len(),
            nv == names.deep_view(),
            groups_view(out@) == groups_of(nv.take(i as int)),
        decreases names@.len() - i,
    {
        let n = &names[i];
        assert(nv[i as int] == n.deep_view());
        let key = raw_name_of(n);
        let item = (n.as_str().to_string(), alias_name(n));
        let ghost gv = groups_view(out@);
        let ghost itv = (item.0@, item.1@);
        let mut j: usize = 0;
        let mut found = false;
        while j < out.len()
            invariant_except_break
                !found,
            invariant
                j <= out@.len(),
                gv == groups_view(out@),
                forall|k: int| 0 <= k < j ==> #[trigger] gv[k].0 != key@,
            ensures
                j <= out@.len(),
                forall|k: int| 0 <= k < j ==> #[trigger] gv[k].0 != key@,
                found ==> j < out@.len() && gv[j as int].0 == key@,
                !found ==> j == out@.len(),
            decreases out@.len() - j,
        {
            assert(gv[j as int].0 == out@[j as int].0@);
            if str_eq(out[j].0.as_str(), key.as_str()) {
                found = true;
                break;
            }
            j = j + 1;
        }
        if found {
            proof {
                lemma_key_position_is(gv, key@, j as int);
            }
            let mut g = out.remove(j);
            let ghost g0 = g;
            g.1.push(item);
            out.insert(j, g);
            proof {
                assert(g.1@ =~= g0.1@.push(item));
                assert(g.1@.map_values(|m: (String, String)| (m.0@, m.1@)) =~= g0.1@.map_values(
                    |m: (String, String)| (m.0@, m.1@),
                ).push(itv));
                assert(groups_view(out@) =~= gv.update(j as int, (key@, gv[j as int].1.push(itv))));
            }
        } else {
            proof {
                lemma_key_position(gv, key@);
                if let Some(q) = key_position(gv, key@) {
                    assert(gv[q].0 == key@);
                }
            }
            let mut one: Vec<(String, String)> = Vec::new();
            one.push(item);
            let ghost before = out@;
            out.push((key, one));
            proof {
                assert(one@.map_values(|m: (String, String)| (m.0@, m.1@)) =~= seq![itv]);
                assert(groups_view(out@) =~= gv.push((key@, seq![itv])));
            }
        }
        proof {
            let t = nv.take(i as int + 1);
            assert(t.drop_last() =~= nv.take(i as int));
            assert(t.last() == nv[i as int]);
        }
        i = i + 1;
    }
    assert(nv.take(nv.len() as int) =~= nv);
    out
}

/// Whether a name is bound live in a record.
fn live_key(record: &StaticModuleRecord, key: &str) -> (r: bool)
    ensures
        r == is_live(record@.live_export_map, key@),
{
    let ghost live = record@.live_export_map;
    if record.live_export_map.get(key).is_some() {
        return true;
    }
    let mut i: usize = 0;
    while i < record.live_export_map.len()
        invariant
            live == record@.live_export_map,
            i <= live.len(),
            forall|j: int| 0 <= j < i ==> (#[trigger] live[j]).1.name != key@,
        decreases live.len() - i,
    {
        let (_, v) = record.live_export_map.get_index(i);
        if str_eq(v.name.as_str(), key) {
            assert(live[i as int].1.name == key@);
            return true;
        }
        i = i + 1;
    }
    false
}

/// `[raw, [functions]]` for a group of imports.
fn group_expr(g: &(String, Vec<(String, String)>), live: bool, Ghost(lm): Ghost<Seq<(Seq<char>, LiveExportView)>>) -> (r: Option<Expr>)
    requires
        is_live(lm, g.0@) == live,
    ensures
        group_is(r, group_view(*g), lm),
{
    let ghost members = group_view(*g).1;
    let mut fs: Vec<Option<Expr>> = Vec::new();
    let mut m: usize = 0;
    while m < g.1.len()
        invariant
            m <= g.1@.len(),
            members == group_view(*g).1,
            members.len() == g.1@.len(),
            fs@.len() == m,
            forall|q: int|
                0 <= q < m ==> match #[trigger] fs@[q] {
                    Some(f) => prop_func_is(f, members[q].0, members[q].1, live),
                    None => false,
                },
        decreases g.1@.len() - m,
    {
        let member = &g.1[m];
        fs.push(Some(prop_func(member.0.clone(), member.1.clone(), live)));
        m = m + 1;
    }
    let mut pair: Vec<Option<Expr>> = Vec::new();
    pair.push(Some(str_lit(g.0.clone())));
    pair.push(Some(Expr::Array(fs)));
    Some(Expr::Array(pair))
}

/// `[specifier, new Map([...])]` for the imports of a module specifier.
fn imports_entry(record: &StaticModuleRecord, key: &String, names: &Vec<ImportName>) -> (r: Option<Expr>)
    ensures
        entry_is(r, (key@, names.deep_view()), record@.live_export_map),
{
    let ghost lm = record@.live_export_map;
    let groups = group_imports(names);
    let ghost gv = groups_view(groups@);
    let mut items: Vec<Option<Expr>> = Vec::new();
    let mut j: usize = 0;
    while j < groups.len()
        invariant
            j <= groups@.len(),
            lm == record@.live_export_map,
            gv == groups_view(groups@),
            gv == groups_of(names.deep_view()),
            items@.len() == j,
            forall|q: int| 0 <= q < j ==> group_is(#[trigger] items@[q], gv[q], lm),
        decreases groups@.len() - j,
    {
        let g = &groups[j];
        let live = live_key(record, g.0.as_str());
        let e = group_expr(g, live, Ghost(lm));
        assert(gv[j as int] == group_view(*g));
        assert(group_is(e, gv[j as int], lm));
        items.push(e);
        j = j + 1;
    }
    let map = new_map(items);
    let mut pair: Vec<Option<Expr>> = Vec::new();
    pair.push(Some(str_lit(key.clone())));
    pair.push(Some(map));
    Some(Expr::Array(pair))
}

/// The call of the hidden `imports` function.
fn imports_call(record: &StaticModuleRecord) -> (r: Stmt)
    ensures
        imports_call_is(r, record@.imports, record@.live_export_map, record@.export_alls),
{
    let ghost imports = record@.imports;
    let ghost lm = record@.live_export_map;
    let mut items: Vec<Option<Expr>> = Vec::new();
    let mut i: usize = 0;
    while i < record.imports.len()
        invariant
            i <= imports.len(),
            imports == record@.imports,
            lm == record@.live_export_map,
            items@.len() == i,
            forall|q: int| 0 <= q < i ==> entry_is(#[trigger] items@[q], imports[q], lm),
        decreases imports.len() - i,
    {
        let (key, names) = record.imports.get_index(i);
        let e = imports_entry(record, key, names);
        items.push(e);
        i = i + 1;
    }
    let ghost alls = record@.export_alls;
    let mut strs: Vec<Option<Expr>> = Vec::new();
    let mut k: usize = 0;
    while k < record.export_alls.len()
        invariant
            k <= alls.len(),
            alls == record@.export_alls,
            strs@.len() == k,
            forall|q: int| 0 <= q < k ==> str_is(#[trigger] strs@[q], alls[q]),
        decreases alls.len() - k,
    {
        strs.push(Some(str_lit(record.export_alls[k].clone())));
        k = k + 1;
    }
    let mut args: Vec<Expr> = Vec::new();
    args.push(new_map(items));
    args.push(Expr::Array(strs));
    let call = CallExpr { callee: ExprOrSuper::Expr(Box::new(ident(prefix_hidden("imports")))), args };
    Stmt::Expr(Box::new(Expr::Call(call)))
}

/// `Object.defineProperty(target, "prop", { value: "value" })`
fn define_property(target: String, prop: String, value: String) -> (r: Stmt)
    ensures
        define_property_is(r, target@, prop@, value@),
{
    let mut props: Vec<PropOrSpread> = Vec::new();
    props.push(PropOrSpread::KeyValue(PropName::Ident("value".to_string()), Box::new(str_lit(value))));
    let mut args: Vec<Expr> = Vec::new();
    args.push(ident(target));
    args.push(str_lit(prop));
    args.push(Expr::Object(props));
    let member = MemberExpr {
        obj: ExprOrSuper::Expr(Box::new(ident("Object".to_string()))),
        prop: Box::new(ident("defineProperty".to_string())),
        computed: false,
    };
    let call = CallExpr { callee: ExprOrSuper::Expr(Box::new(Expr::Member(member))), args };
    Stmt::Expr(Box::new(Expr::Call(call)))
}

/// `let a, b, ...;`
fn local_vars(names: Vec<String>) -> (r: Stmt)
    ensures
        local_vars_is(r, names_view(names@)),
{
    let ghost nv = names_view(names@);
    let mut decls: Vec<VarDeclarator> = Vec::new();
    let mut i: usize = 0;
    while i < names.len()
        invariant
            i <= names@.len(),
            nv == names_view(names@),
            decls@.len() == i,
            forall|q: int| 0 <= q < i ==> ident_pat_is(#[trigger] decls@[q].name, nv[q]) && decls@[q].init is None,
        decreases names@.len() - i,
    {
        decls.push(VarDeclarator { name: Pat::Ident(names[i].clone()), init: None });
        i = i + 1;
    }
    Stmt::Decl(Decl::Var(VarDecl { kind: VarDeclKind::Let, decls }))
}

/// Whether a property of an object pattern binds `key` to the identifier
/// `name`.
pub open spec fn key_pat_is(p: ObjectPatProp, key: Seq<char>, name: Seq<char>) -> bool {
    match p {
        ObjectPatProp::KeyValue(PropName::Ident(k), v) => k@ == key && ident_pat_is(*v, name),
        _ => false,
    }
}

/// Whether the functor's parameters are `{ imports: $h_imports, liveVar:
/// $h_live, onceVar: $h_once }`.
pub open spec fn params_is(ps: Seq<Pat>) -> bool {
    ps.len() == 1 && match ps[0] {
        Pat::Object(props) => props@.len() == 3 && key_pat_is(props@[0], "imports"@, hidden("imports"@)) && key_pat_is(
            props@[1],
            "liveVar"@,
            hidden("live"@),
        ) && key_pat_is(props@[2], "onceVar"@, hidden("once"@)),
        _ => false,
    }
}

/// The functor's parameters.
fn params() -> (r: Vec<Pat>)
    ensures
        params_is(r@),
{
    let mut props: Vec<ObjectPatProp> = Vec::new();
    props.push(ObjectPatProp::KeyValue(PropName::Ident("imports".to_string()), Box::new(Pat::Ident(prefix_hidden("imports")))));
    props.push(ObjectPatProp::KeyValue(PropName::Ident("liveVar".to_string()), Box::new(Pat::Ident(prefix_hidden("live")))));
    props.push(ObjectPatProp::KeyValue(PropName::Ident("onceVar".to_string()), Box::new(Pat::Ident(prefix_hidden("once")))));
    let mut out: Vec<Pat> = Vec::new();
    out.push(Pat::Object(props));
    out
}

/// The body of a static module record functor, built from module items.
#[derive(Debug)]
pub struct FunctorBody {
    /// The statements, in order.
    pub body: Vec<Stmt>,
}

impl FunctorBody {
    /// An empty body.
    pub fn new() -> (r: FunctorBody)
        ensures
            r.body@.len() == 0,
    {
        FunctorBody { body: Vec::new() }
    }

    /// Add the statements an exported variable declaration stands for.
    fn visit_var_decl(
        &mut self,
        var: VarDecl,
        record: &StaticModuleRecord,
        refs: &IndexSet<String>,
    )
        ensures
            emitted(
                old(self).body@,
                final(self).body@,
                var_plan(var.kind, var.decls@, record@.fixed_export_map, record@.live_export_map, name_items(*refs)),
            ),
    {
        let ghost fixed = record@.fixed_export_map;
        let ghost live = record@.live_export_map;
        let ghost rs = name_items(*refs);
        let ghost all = var.decls@;
        let kind = var.kind;
        let mut decls = var.decls;
        let mut reversed: Vec<VarDeclarator> = Vec::new();
        assert(decls@ + reversed@.reverse() =~= all);
        while decls.len() > 0
            invariant
                decls@ + reversed@.reverse() == all,
            decreases decls@.len(),
        {
            let ghost before = decls@;
            let ghost rev0 = reversed@;
            let d = decls.pop().unwrap();
            reversed.push(d);
            proof {
                assert(before =~= decls@.push(d));
                assert(reversed@ =~= rev0.push(d));
                assert(reversed@.reverse() =~= seq![d] + rev0.reverse());
                assert(decls@ + reversed@.reverse() =~= before + rev0.reverse());
            }
        }
        assert(reversed@.reverse() =~= all);
        let ghost start = self.body@;
        proof {
            lemma_emitted_none(start);
        }
        while reversed.len() > 0
            invariant
                kind == var.kind,
                fixed == record@.fixed_export_map,
                live == record@.live_export_map,
                rs == name_items(*refs),
                emitted(
                    start,
                    self.body@,
                    var_plan(kind, all, fixed, live, rs).take(
                        var_plan(kind, all, fixed, live, rs).len() - var_plan(kind, reversed@.reverse(), fixed, live, rs).len(),
                    ),
                ),
                var_plan(kind, all, fixed, live, rs) == var_plan(kind, all, fixed, live, rs).take(
                    var_plan(kind, all, fixed, live, rs).len() - var_plan(kind, reversed@.reverse(), fixed, live, rs).len(),
                ) + var_plan(kind, reversed@.reverse(), fixed, live, rs),
            decreases reversed@.len(),
        {
            let ghost rest = reversed@.reverse();
            let ghost b0 = self.body@;
            let ghost whole = var_plan(kind, all, fixed, live, rs);
            let ghost done = whole.take(whole.len() - var_plan(kind, rest, fixed, live, rs).len());
            let d = reversed.pop().unwrap();
            proof {
                assert(rest =~= seq![d] + reversed@.reverse());
                assert(rest[0] == d);
                assert(rest.drop_first() =~= reversed@.reverse());
            }
            let ghost here = if lists_names(d.name) {
                decl_plan(kind, d, record_pattern_names(d.name), false, fixed, live, rs)
            } else {
                Seq::<Emit>::empty()
            };
            if match &d.name {
                Pat::Ident(_) => true,
                Pat::Object(_) => true,
                _ => false,
            } {
                self.visit_declarator(kind, d, record, refs);
            } else {
                proof {
                    lemma_emitted_none(self.body@);
                }
            }
            proof {
                assert(emitted(b0, self.body@, here));
                lemma_emitted_trans(start, b0, self.body@, done, here);
                let next = var_plan(kind, reversed@.reverse(), fixed, live, rs);
                assert(var_plan(kind, rest, fixed, live, rs) == here + next);
                assert(whole =~= done + here + next);
                assert(whole.take(whole.len() - next.len()) =~= done + here);
            }
        }
        proof {
            let whole = var_plan(kind, all, fixed, live, rs);
            assert(reversed@.reverse() =~= Seq::<VarDeclarator>::empty());
            assert(whole.take(whole.len() - 0) =~= whole);
        }
    }

    /// Add the statements a declarator stands for.
    fn visit_declarator(&mut self, kind: VarDeclKind, d: VarDeclarator, record: &StaticModuleRecord, refs: &IndexSet<
        String,
    >)
        requires
            lists_names(d.name),
        ensures
            emitted(
                old(self).body@,
                final(self).body@,
                decl_plan(
                    kind,
                    d,
                    record_pattern_names(d.name),
                    false,
                    record@.fixed_export_map,
                    record@.live_export_map,
                    name_items(*refs),
                ),
            ),
    {
        let ghost fixed = record@.fixed_export_map;
        let ghost live = record@.live_export_map;
        let ghost rs = name_items(*refs);
        let ghost dv = d;
        let mut names: Vec<String> = Vec::new();
        assert(names_view(names@) =~= Seq::<Seq<char>>::empty());
        pattern_names(&d.name, &mut names);
        assert(names_view(names@) =~= record_pattern_names(d.name));
        let ghost all = names_view(names@);
        let mut held: Option<VarDeclarator> = Some(d);
        let mut declared = false;
        let ghost start = self.body@;
        let ghost whole = decl_plan(kind, dv, all, false, fixed, live, rs);
        proof {
            lemma_emitted_none(start);
            assert(all.skip(0) =~= all);
        }
        let mut i: usize = 0;
        while i < names.len()
            invariant
                i <= names@.len(),
                all == names_view(names@),
                fixed == record@.fixed_export_map,
                live == record@.live_export_map,
                rs == name_items(*refs),
                whole == decl_plan(kind, dv, all, false, fixed, live, rs),
                !declared ==> held == Some(dv),
                emitted(start, self.body@, whole.take(whole.len() - decl_plan(kind, dv, all.skip(i as int), declared, fixed, live, rs).len())),
                whole == whole.take(whole.len() - decl_plan(kind, dv, all.skip(i as int), declared, fixed, live, rs).len())
                    + decl_plan(kind, dv, all.skip(i as int), declared, fixed, live, rs),
            decreases names@.len() - i,
        {
            let ghost rest = all.skip(i as int);
            let ghost b0 = self.body@;
            let ghost done = whole.take(whole.len() - decl_plan(kind, dv, rest, declared, fixed, live, rs).len());
            let ghost was = declared;
            let name = &names[i];
            proof {
                assert(rest[0] == name@);
                assert(rest.drop_first() =~= all.skip(i as int + 1));
            }
            let ghost here: Seq<Emit>;
            if record.fixed_export_map.get(name.as_str()).is_some() {
                proof {
                    here = (if was {
                        Seq::<Emit>::empty()
                    } else {
                        seq![Emit::Declare(kind, dv)]
                    }) + seq![Emit::Call(hidden("once"@), name@, Some(name@))];
                    lemma_emitted_none(self.body@);
                }
                if !declared {
                    let decl = held.take().unwrap();
                    let mut one: Vec<VarDeclarator> = Vec::new();
                    one.push(decl);
                    assert(one@ =~= seq![dv]);
                    emit(&mut self.body, Stmt::Decl(Decl::Var(VarDecl { kind, decls: one })), Ghost(Emit::Declare(kind, dv)));
                    declared = true;
                }
                let ghost b2 = self.body@;
                emit(&mut self.body, call_stmt(prefix_hidden("once"), name.clone(), Some(name.clone())), Ghost(Emit::Call(hidden("once"@), name@, Some(name@))));
                proof {
                    lemma_emitted_trans(b0, b2, self.body@, if was { Seq::<Emit>::empty() } else { seq![Emit::Declare(kind, dv)] }, seq![Emit::Call(hidden("once"@), name@, Some(name@))]);
                }
            } else if record.live_export_map.get(name.as_str()).is_some() {
                let hidden_name = prefix_const(name.as_str());
                let is_ref = names_contains(refs, name);
                proof {
                    here = (if was {
                        Seq::<Emit>::empty()
                    } else {
                        seq![Emit::DeclareLive(constant(name@), dv.init)]
                    }) + (if rs.contains(name@) {
                        seq![Emit::AssignName(name@, constant(name@))]
                    } else {
                        seq![Emit::Call(hidden("live"@), name@, Some(constant(name@)))]
                    });
                    lemma_emitted_none(self.body@);
                }
                if !declared {
                    let decl = held.take().unwrap();
                    let live_decl = VarDeclarator { name: Pat::Ident(hidden_name.clone()), init: decl.init };
                    let mut one: Vec<VarDeclarator> = Vec::new();
                    one.push(live_decl);
                    emit(&mut self.body, Stmt::Decl(Decl::Var(VarDecl { kind: VarDeclKind::Let, decls: one })), Ghost(Emit::DeclareLive(constant(name@), dv.init)));
                    declared = true;
                }
                let ghost b2 = self.body@;
                let ghost second = if rs.contains(name@) {
                    Emit::AssignName(name@, constant(name@))
                } else {
                    Emit::Call(hidden("live"@), name@, Some(constant(name@)))
                };
                if is_ref {
                    let assign = Expr::Assign(PatOrExpr::Pat(Box::new(Pat::Ident(name.clone()))), Box::new(ident(hidden_name)));
                    emit(&mut self.body, Stmt::Expr(Box::new(assign)), Ghost(second));
                } else {
                    emit(&mut self.body, call_stmt(prefix_hidden("live"), name.clone(), Some(hidden_name)), Ghost(second));
                }
                proof {
                    lemma_emitted_trans(b0, b2, self.body@, if was { Seq::<Emit>::empty() } else { seq![Emit::DeclareLive(constant(name@), dv.init)] }, seq![second]);
                }
            } else {
                proof {
                    here = Seq::<Emit>::empty();
                    lemma_emitted_none(self.body@);
                }
            }
            proof {
                let next = decl_plan(kind, dv, all.skip(i as int + 1), declared, fixed, live, rs);
                assert(decl_plan(kind, dv, rest, was, fixed, live, rs) == here + next);
                lemma_emitted_trans(start, b0, self.body@, done, here);
                assert(whole =~= done + here + next);
                assert(whole.take(whole.len() - next.len()) =~= done + here);
            }
            i = i + 1;
        }
        proof {
            assert(all.skip(i as int) =~= Seq::<Seq<char>>::empty());
            assert(whole.take(whole.len() - 0) =~= whole);
        }
    }

    /// Add the statements a module item stands for.
    pub fn visit_module_item(&mut self, n: ModuleItem, record: &StaticModuleRecord, refs: &IndexSet<String>)
        ensures
            emitted(
                old(self).body@,
                final(self).body@,
                item_plan(n, record@.fixed_export_map, record@.live_export_map, name_items(*refs)),
            ),
    {
        let ghost item = n;
        let ghost start = self.body@;
        proof {
            lemma_emitted_none(start);
        }
        match n {
            ModuleItem::Export(d) => match d {
                ExportDecl::Named(src, specifiers) => {
                    if src.is_none() {
                        let ghost specs = specifiers@;
                        let mut k: usize = 0;
                        while k < specifiers.len()
                            invariant
                                k <= specs.len(),
                                specs == specifiers@,
                                emitted(start, self.body@, specifiers_plan(specs.take(k as int))),
                            decreases specs.len() - k,
                        {
                            let ghost b0 = self.body@;
                            proof {
                                let t = specs.take(k as int + 1);
                                assert(t.drop_last() =~= specs.take(k as int));
                                assert(t.last() == specs[k as int]);
                            }
                            if let ExportSpecifier::Named(orig, exported) = &specifiers[k] {
                                let key = match exported {
                                    Some(e) => e.clone(),
                                    None => orig.clone(),
                                };
                                let e = Ghost(Emit::Call(hidden("once"@), exported_name(*orig, *exported), Some(orig@)));
                                emit(&mut self.body, call_stmt(prefix_hidden("once"), key, Some(orig.clone())), e);
                                proof {
                                    lemma_emitted_trans(start, b0, self.body@, specifiers_plan(specs.take(k as int)), seq![e@]);
                                }
                            } else {
                                proof {
                                    assert(specifiers_plan(specs.take(k as int + 1)) =~= specifiers_plan(specs.take(k as int)));
                                }
                            }
                            k = k + 1;
                        }
                        assert(specs.take(specs.len() as int) =~= specs);
                    }
                },
                ExportDecl::DefaultDecl(e) => {
                    self.push_default(e);
                },
                ExportDecl::DefaultExpr(e) => {
                    if record.fixed_export_map.get("default").is_some() {
                        self.push_default(e);
                    }
                },
                ExportDecl::Decl(Decl::Var(v)) => {
                    self.visit_var_decl(v, record, refs);
                },
                ExportDecl::Decl(Decl::Fn(name, f)) => {
                    let target = prefix_const(name.as_str());
                    let e = Ghost(Emit::FnExpr(constant(name@), f));
                    emit(&mut self.body, Stmt::Expr(Box::new(Expr::Fn(Some(target), f))), e);
                },
                ExportDecl::Decl(Decl::Class(name, c)) => {
                    let ghost nv = name@;
                    let call = call_stmt(prefix_hidden("live"), name.clone(), Some(name.clone()));
                    emit(&mut self.body, Stmt::Decl(Decl::Class(name, c)), Ghost(Emit::ClassDecl(nv, c)));
                    let ghost b1 = self.body@;
                    emit(&mut self.body, call, Ghost(Emit::Call(hidden("live"@), nv, Some(nv))));
                    proof {
                        lemma_emitted_trans(start, b1, self.body@, seq![Emit::ClassDecl(nv, c)], seq![Emit::Call(hidden("live"@), nv, Some(nv))]);
                        assert(seq![Emit::ClassDecl(nv, c)] + seq![Emit::Call(hidden("live"@), nv, Some(nv))] =~= item_plan(item, record@.fixed_export_map, record@.live_export_map, name_items(*refs)));
                    }
                },
                _ => {},
            },
            ModuleItem::Stmt(s) => {
                let ghost sv = s;
                emit(&mut self.body, s, Ghost(Emit::Keep(sv)));
            },
            ModuleItem::Import(_) => {},
        }
    }

    /// Add the statements a default export of a value stands for.
    fn push_default(&mut self, value: Box<Expr>)
        ensures
            emitted(old(self).body@, final(self).body@, default_plan(*value)),
    {
        let ghost v = *value;
        let ghost b0 = self.body@;
        emit(&mut self.body, default_stmt(prefix_const("default"), value), Ghost(Emit::DefaultConst(constant("default"@), v)));
        let ghost b1 = self.body@;
        emit(&mut self.body, call_stmt(prefix_hidden("once"), "default".to_string(), Some(prefix_const("default"))), Ghost(Emit::Call(hidden("once"@), "default"@, Some(constant("default"@)))));
        proof {
            lemma_emitted_trans(b0, b1, self.body@, seq![Emit::DefaultConst(constant("default"@), v)], seq![Emit::Call(hidden("once"@), "default"@, Some(constant("default"@)))]);
            assert(seq![Emit::DefaultConst(constant("default"@), v)] + seq![Emit::Call(hidden("once"@), "default"@, Some(constant("default"@)))] =~= default_plan(v));
        }
    }
}

/// The statements of the hoisted functions: each keeps its own `name`
/// property and is set up as a live export.
pub open spec fn funcs_plan(fs: Seq<Seq<char>>) -> Seq<Emit>
    decreases fs.len(),
{
    if fs.len() == 0 {
        Seq::empty()
    } else {
        let f = fs.last();
        funcs_plan(fs.drop_last()) + seq![
            Emit::DefineProperty(constant(f), "name"@, f),
            Emit::Call(hidden("live"@), f, Some(constant(f))),
        ]
    }
}

/// The statements of the hoisted references: each is set up as a live
/// export.
pub open spec fn refs_plan(rs: Seq<Seq<char>>) -> Seq<Emit>
    decreases rs.len(),
{
    if rs.len() == 0 {
        Seq::empty()
    } else {
        refs_plan(rs.drop_last()) + seq![Emit::Call(hidden("live"@), rs.last(), None)]
    }
}

/// The statements module items stand for, in order.
pub open spec fn items_plan(
    items: Seq<ModuleItem>,
    fixed: Seq<(Seq<char>, Seq<Seq<char>>)>,
    live: Seq<(Seq<char>, LiveExportView)>,
    refs: Seq<Seq<char>>,
) -> Seq<Emit>
    decreases items.len(),
{
    if items.len() == 0 {
        Seq::empty()
    } else {
        item_plan(items[0], fixed, live, refs) + items_plan(items.drop_first(), fixed, live, refs)
    }
}

/// The statements of the functor body: the local variables of the imports
/// (when there are any), the imports call, the hoisted functions and
/// references, then what each module item stands for.
pub open spec fn body_plan(
    record: RecordView,
    funcs: Seq<Seq<char>>,
    refs: Seq<Seq<char>>,
    items: Seq<ModuleItem>,
) -> Seq<Emit> {
    let decls = decl_names(record.imports);
    (if decls.len() > 0 {
        seq![Emit::LocalVars(decls)]
    } else {
        Seq::empty()
    }) + seq![Emit::ImportsCall(record.imports, record.live_export_map, record.export_alls)] + funcs_plan(funcs)
        + refs_plan(refs) + items_plan(items, record.fixed_export_map, record.live_export_map, refs)
}

/// A program script.
#[derive(Debug)]
pub struct Script {
    /// The statements.
    pub body: Vec<Stmt>,
}

/// Whether a script is `(({ imports, liveVar, onceVar }) => { body })`
/// with the statements a plan stands for as its body.
pub open spec fn script_is(script: Script, plan: Seq<Emit>) -> bool {
    script.body@.len() == 1 && match script.body@[0] {
        Stmt::Expr(b) => match *b {
            Expr::Paren(p) => match *p {
                Expr::Arrow(a) => params_is(a.params@) && match a.body {
                    BlockStmtOrExpr::BlockStmt(ss) => emitted(Seq::empty(), ss@, plan),
                    _ => false,
                },
                _ => false,
            },
            _ => false,
        },
        _ => false,
    }
}

/// Generate a static module record functor program.
pub struct Generator<'a> {
    /// The record of the module.
    pub meta: &'a StaticModuleRecord,
    /// The exported functions whose declarations are hoisted.
    pub hoisted_funcs: &'a IndexSet<String>,
    /// The exports referred to by name that are hoisted.
    pub hoisted_refs: &'a IndexSet<String>,
}

impl<'a> Generator<'a> {
    /// Create a new generator.
    pub fn new(
        meta: &'a StaticModuleRecord,
        hoisted_funcs: &'a IndexSet<String>,
        hoisted_refs: &'a IndexSet<String>,
    ) -> (r: Generator<'a>)
        ensures
            r.meta == meta,
            r.hoisted_funcs == hoisted_funcs,
            r.hoisted_refs == hoisted_refs,
    {
        Generator { meta, hoisted_funcs, hoisted_refs }
    }

    /// Create the program script: the functor whose body the module's
    /// items become.
    pub fn create(&self, module: Module) -> (r: Script)
        ensures
            script_is(
                r,
                body_plan(self.meta@, name_items(*self.hoisted_funcs), name_items(*self.hoisted_refs), module.body@),
            ),
    {
        let body = self.body(module);
        let mut stmts: Vec<Stmt> = Vec::new();
        let arrow = Expr::Arrow(ArrowExpr { params: params(), body: BlockStmtOrExpr::BlockStmt(body) });
        stmts.push(Stmt::Expr(Box::new(Expr::Paren(Box::new(arrow)))));
        Script { body: stmts }
    }

    /// The function body block.
    fn body(&self, module: Module) -> (r: Vec<Stmt>)
        ensures
            emitted(
                Seq::empty(),
                r@,
                body_plan(self.meta@, name_items(*self.hoisted_funcs), name_items(*self.hoisted_refs), module.body@),
            ),
    {
        let record = self.meta;
        let ghost rv = record@;
        let ghost fs = name_items(*self.hoisted_funcs);
        let ghost rs = name_items(*self.hoisted_refs);
        let mut out = FunctorBody::new();
        let ghost e0 = out.body@;
        assert(e0 =~= Seq::<Stmt>::empty());
        let decls = record.decls();
        let ghost decl_plan_part = if decl_names(rv.imports).len() > 0 {
            seq![Emit::LocalVars(decl_names(rv.imports))]
        } else {
            Seq::<Emit>::empty()
        };
        assert(names_view(decls@) =~= decl_names(rv.imports));
        if decls.len() > 0 {
            emit(&mut out.body, local_vars(decls), Ghost(Emit::LocalVars(decl_names(rv.imports))));
        } else {
            proof {
                lemma_emitted_none(out.body@);
            }
        }
        let ghost e1 = out.body@;
        emit(&mut out.body, imports_call(record), Ghost(Emit::ImportsCall(rv.imports, rv.live_export_map, rv.export_alls)));
        let ghost e2 = out.body@;
        proof {
            lemma_emitted_trans(e0, e1, e2, decl_plan_part, seq![Emit::ImportsCall(rv.imports, rv.live_export_map, rv.export_alls)]);
            lemma_emitted_none(e2);
        }
        let n = names_len(self.hoisted_funcs);
        let mut i: usize = 0;
        assert(fs.take(0) =~= Seq::<Seq<char>>::empty());
        while i < n
            invariant
                n == fs.len(),
                fs == name_items(*self.hoisted_funcs),
                i <= n,
                emitted(e2, out.body@, funcs_plan(fs.take(i as int))),
            decreases n - i,
        {
            let f = names_get(self.hoisted_funcs, i);
            let ghost b0 = out.body@;
            emit(&mut out.body, define_property(prefix_const(f.as_str()), "name".to_string(), f.clone()), Ghost(Emit::DefineProperty(constant(f@), "name"@, f@)));
            let ghost b1 = out.body@;
            emit(&mut out.body, call_stmt(prefix_hidden("live"), f.clone(), Some(prefix_const(f.as_str()))), Ghost(Emit::Call(hidden("live"@), f@, Some(constant(f@)))));
            proof {
                lemma_emitted_trans(b0, b1, out.body@, seq![Emit::DefineProperty(constant(f@), "name"@, f@)], seq![Emit::Call(hidden("live"@), f@, Some(constant(f@)))]);
                lemma_emitted_trans(e2, b0, out.body@, funcs_plan(fs.take(i as int)), seq![Emit::DefineProperty(constant(f@), "name"@, f@)] + seq![Emit::Call(hidden("live"@), f@, Some(constant(f@)))]);
                let t = fs.take(i as int + 1);
                assert(t.drop_last() =~= fs.take(i as int));
                assert(t.last() == f@);
                assert(funcs_plan(t) =~= funcs_plan(fs.take(i as int)) + (seq![Emit::DefineProperty(constant(f@), "name"@, f@)] + seq![Emit::Call(hidden("live"@), f@, Some(constant(f@)))]));
            }
            i = i + 1;
        }
        assert(fs.take(fs.len() as int) =~= fs);
        let ghost e3 = out.body@;
        proof {
            lemma_emitted_none(e3);
        }
        let m = names_len(self.hoisted_refs);
        let mut k: usize = 0;
        assert(rs.take(0) =~= Seq::<Seq<char>>::empty());
        while k < m
            invariant
                m == rs.len(),
                rs == name_items(*self.hoisted_refs),
                k <= m,
                emitted(e3, out.body@, refs_plan(rs.take(k as int))),
            decreases m - k,
        {
            let r = names_get(self.hoisted_refs, k);
            let ghost b0 = out.body@;
            emit(&mut out.body, call_stmt(prefix_hidden("live"), r.clone(), None), Ghost(Emit::Call(hidden("live"@), r@, None)));
            proof {
                lemma_emitted_trans(e3, b0, out.body@, refs_plan(rs.take(k as int)), seq![Emit::Call(hidden("live"@), r@, None)]);
                let t = rs.take(k as int + 1);
                assert(t.drop_last() =~= rs.take(k as int));
                assert(t.last() == r@);
            }
            k = k + 1;
        }
        assert(rs.take(rs.len() as int) =~= rs);
        let ghost e4 = out.body@;
        let ghost all = module.body@;
        let mut items = module.body;
        let mut reversed: Vec<ModuleItem> = Vec::new();
        assert(items@ + reversed@.reverse() =~= all);
        while items.len() > 0
            invariant
                items@ + reversed@.reverse() == all,
            decreases items@.len(),
        {
            let ghost before = items@;
            let ghost rev0 = reversed@;
            let it = items.pop().unwrap();
            reversed.push(it);
            proof {
                assert(before =~= items@.push(it));
                assert(reversed@ =~= rev0.push(it));
                assert(reversed@.reverse() =~= seq![it] + rev0.reverse());
                assert(items@ + reversed@.reverse() =~= before + rev0.reverse());
            }
        }
        assert(reversed@.reverse() =~= all);
        let ghost fixed = rv.fixed_export_map;
        let ghost live = rv.live_export_map;
        let ghost whole = items_plan(all, fixed, live, rs);
        proof {
            lemma_emitted_none(e4);
            assert(whole.take(whole.len() - whole.len()) =~= Seq::<Emit>::empty());
        }
        while reversed.len() > 0
            invariant
                rv == record@,
                fixed == rv.fixed_export_map,
                live == rv.live_export_map,
                rs == name_items(*self.hoisted_refs),
                whole == items_plan(all, fixed, live, rs),
                emitted(e4, out.body@, whole.take(whole.len() - items_plan(reversed@.reverse(), fixed, live, rs).len())),
                whole == whole.take(whole.len() - items_plan(reversed@.reverse(), fixed, live, rs).len())
                    + items_plan(reversed@.reverse(), fixed, live, rs),
            decreases reversed@.len(),
        {
            let ghost rest = reversed@.reverse();
            let ghost b0 = out.body@;
            let ghost done = whole.take(whole.len() - items_plan(rest, fixed, live, rs).len());
            let it = reversed.pop().unwrap();
            proof {
                assert(rest =~= seq![it] + reversed@.reverse());
                assert(rest[0] == it);
                assert(rest.drop_first() =~= reversed@.reverse());
            }
            let ghost here = item_plan(it, fixed, live, rs);
            out.visit_module_item(it, record, self.hoisted_refs);
            proof {
                lemma_emitted_trans(e4, b0, out.body@, done, here);
                let next = items_plan(reversed@.reverse(), fixed, live, rs);
                assert(items_plan(rest, fixed, live, rs) == here + next);
                assert(whole =~= done + here + next);
                assert(whole.take(whole.len() - next.len()) =~= done + here);
            }
        }
        proof {
            assert(reversed@.reverse() =~= Seq::<ModuleItem>::empty());
            assert(whole.take(whole.len() - 0) =~= whole);
            let p1 = decl_plan_part + seq![Emit::ImportsCall(rv.imports, rv.live_export_map, rv.export_alls)];
            lemma_emitted_trans(e0, e2, e3, p1, funcs_plan(fs));
            lemma_emitted_trans(e0, e3, e4, p1 + funcs_plan(fs), refs_plan(rs));
            lemma_emitted_trans(e0, e4, out.body@, p1 + funcs_plan(fs) + refs_plan(rs), whole);
            assert(p1 + funcs_plan(fs) + refs_plan(rs) + whole =~= body_plan(rv, fs, rs, all));
        }
        out.body
    }
}


/// The statements of the functor a module becomes: those of its record,
/// of the exported functions it declares and of the exported names its
/// outermost expressions refer to.
pub open spec fn functor_plan(m: Module) -> Seq<Emit> {
    body_plan(
        module_record(m),
        items_hoisted(m.body@, Seq::empty()),
        roots_hoisted(items_roots(m.body@), var_export_names_of(items_exports(m.body@)), Seq::empty()),
        m.body@,
    )
}

/// Transform the source text of a module to its static module record and
/// its functor program: `None` exactly when the text does not parse.
pub fn transform(source: &str) -> (r: Option<(StaticModuleRecord, Script)>)
    ensures
        r is None <==> parsed_module(source@) is None,
        r matches Some((rec, script)) ==> rec@ == module_record(parsed_module(source@)->0) && script_is(
            script,
            functor_plan(parsed_module(source@)->0),
        ),
{
    let module = match parse_source(source) {
        Some(m) => m,
        None => return None,
    };
    let ghost m = module;
    let mut parser = Parser::new();
    assert(parser.imported() =~= Seq::empty());
    assert(parser.exported() =~= Seq::empty());
    assert(parser.reexported() =~= Seq::empty());
    assert(parser.live() =~= Seq::empty());
    let record = parser.parse(&module);
    assert(Seq::empty() + items_exports(m.body@) =~= items_exports(m.body@));
    assert(Seq::empty() + items_reexports(m.body@) =~= items_reexports(m.body@));
    assert(Seq::empty() + items_live(m.body@, var_export_names_of(items_exports(m.body@))) =~= items_live(
        m.body@,
        var_export_names_of(items_exports(m.body@)),
    ));
    let mut analyzer = Analyzer::new();
    assert(exports_view(analyzer.exports@) =~= Seq::empty());
    assert(name_items(analyzer.hoisted_funcs) =~= Seq::empty());
    analyzer.visit_module(&module);
    assert(exports_view(analyzer.exports@) =~= items_exports(m.body@));
    let mut live = LiveExportAnalysis::new();
    assert(name_items(live.hoisted_refs) =~= Seq::empty());
    live.exports = analyzer.var_export_names();
    live.visit_module(&module);
    let funcs = analyzer.hoisted_funcs;
    let refs = live.hoisted_refs;
    let script = Generator::new(&record, &funcs, &refs).create(module);
    Some((record, script))
}


/// Putting an item into its group keeps every item of every group, under
/// the same key.
proof fn lemma_group_put_keeps(
    gs: Seq<(Seq<char>, Seq<(Seq<char>, Seq<char>)>)>,
    key: Seq<char>,
    item: (Seq<char>, Seq<char>),
    g: int,
    x: (Seq<char>, Seq<char>),
)
    requires
        0 <= g < gs.len(),
        gs[g].1.contains(x),
    ensures
        g < group_put(gs, key, item).len(),
        group_put(gs, key, item)[g].0 == gs[g].0,
        group_put(gs, key, item)[g].1.contains(x),
{
    lemma_key_position(gs, key);
    match key_position(gs, key) {
        Some(p) => {
            if p == g {
                let j = choose|j: int| 0 <= j < gs[g].1.len() && gs[g].1[j] == x;
                assert(gs[g].1.push(item)[j] == x);
            }
        },
        None => {},
    }
}

/// Putting an item into its group leaves it in a group under its key.
proof fn lemma_group_put_adds(
    gs: Seq<(Seq<char>, Seq<(Seq<char>, Seq<char>)>)>,
    key: Seq<char>,
    item: (Seq<char>, Seq<char>),
) -> (g: int)
    ensures
        0 <= g < group_put(gs, key, item).len(),
        group_put(gs, key, item)[g].0 == key,
        group_put(gs, key, item)[g].1.contains(item),
{
    lemma_key_position(gs, key);
    match key_position(gs, key) {
        Some(p) => {
            assert(gs[p].1.push(item)[gs[p].1.len() as int] == item);
            p
        },
        None => {
            assert(seq![item][0] == item);
            gs.len() as int
        },
    }
}

/// Every import of a module specifier is requested in the imports map
/// under its key: a namespace import under `*` whatever its local name, a
/// default import under `default`, and a named import under the name it
/// imports; it stands there with its name and the variable it assigns.
pub proof fn lemma_import_grouped_under_its_key(props: Seq<ImportNameView>, i: int)
    requires
        0 <= i < props.len(),
    ensures
        exists|g: int|
            0 <= g < groups_of(props).len() && (#[trigger] groups_of(props)[g]).0 == (match props[i].kind {
                ImportKind::All => "*"@,
                ImportKind::Default => "default"@,
                ImportKind::Named => props[i].name,
            }) && groups_of(props)[g].1.contains((props[i].name, alias_of(props[i]))),
    decreases props.len(),
{
    let rest = props.drop_last();
    let last = props.last();
    let item = (last.name, alias_of(last));
    if i == props.len() - 1 {
        let g = lemma_group_put_adds(groups_of(rest), raw_name(last), item);
        assert(groups_of(props)[g].0 == raw_name(last));
    } else {
        lemma_import_grouped_under_its_key(rest, i);
        assert(rest[i] == props[i]);
        let key = match props[i].kind {
            ImportKind::All => "*"@,
            ImportKind::Default => "default"@,
            ImportKind::Named => props[i].name,
        };
        let g = choose|g: int|
            0 <= g < groups_of(rest).len() && (#[trigger] groups_of(rest)[g]).0 == key && groups_of(rest)[g].1.contains(
                (props[i].name, alias_of(props[i])),
            );
        lemma_group_put_keeps(groups_of(rest), raw_name(last), item, g, (props[i].name, alias_of(props[i])));
        assert(groups_of(props)[g].0 == key);
    }
}

} // verus!
