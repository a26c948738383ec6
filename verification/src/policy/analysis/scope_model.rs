//! What a visit of the scope builder does, stated over the contents of the
//! analysis state and of the scope tree it fills.
use vstd::prelude::*;

use indexmap::IndexSet;

use crate::analysis::dependencies::latest_core_package;
use crate::ast::{
    ArrowExpr, BlockStmtOrExpr, Class, ClassMember, Decl, Expr, ExprOrSuper, Function, ImportDecl, ImportSpecifier,
    MemberExpr, ModuleItem, Pat, PatOrExpr,
    PropOrSpread, Stmt, SwitchCase, VarDeclKind, VarDeclOrExpr, VarDeclOrPat, VarDeclarator,
};
use crate::collections::{ident_items, inserted, name_items, path_items};
use crate::helpers::{binds_names, pattern_names};
use crate::policy::analysis::module_exports::assigns_module_exports;
use crate::policy::analysis::dynamic_import::call_module;
use crate::policy::analysis::member_expr::{lemma_member_leaves_inside, member_leaves, member_words};
use crate::policy::analysis::scope_builder::{
    function_method, local_word, locals_view, reference_for, specifier_locals, Builtin, LocalView, Scope,
    ScopeBuilder,
};
use crate::policy::analysis::{insert_all, WordOrPathView};

verus! {

/// The content of a builtin candidate.
pub struct BuiltinView {
    /// Whether the local symbols are the names of the imported properties.
    pub static_assign: bool,
    /// The module specifier.
    pub source: Seq<char>,
    /// The local symbols bound to the module.
    pub locals: Seq<LocalView>,
}

impl View for Builtin {
    type V = BuiltinView;

    open spec fn view(&self) -> BuiltinView {
        BuiltinView { static_assign: self.static_assign, source: self.source@, locals: locals_view(self.locals@) }
    }
}

/// The contents of a list of builtin candidates.
pub open spec fn candidates_view(cs: Seq<Builtin>) -> Seq<BuiltinView> {
    cs.map_values(|c: Builtin| c@)
}

/// The content of a scope: its child scopes, its local names and its
/// references, each in the order in which they were added.
pub struct ScopeTree {
    /// The child scopes.
    pub scopes: Seq<ScopeTree>,
    /// The local names.
    pub locals: Seq<Seq<char>>,
    /// The references.
    pub idents: Seq<WordOrPathView>,
}

/// The content of a scope.
pub open spec fn scope_tree(s: Scope) -> ScopeTree
    decreases s,
{
    ScopeTree { scopes: scope_trees(s.scopes@), locals: name_items(s.locals), idents: ident_items(s.idents) }
}

/// The contents of a list of scopes.
pub open spec fn scope_trees(cs: Seq<Scope>) -> Seq<ScopeTree>
    decreases cs,
{
    if cs.len() == 0 {
        Seq::empty()
    } else {
        scope_trees(cs.subrange(0, cs.len() - 1)).push(scope_tree(cs[cs.len() - 1]))
    }
}

/// What a visit has gathered: the builtin candidates, the builtin paths and
/// the hoisted variables of the analysis, and the scope being filled.
pub struct VisitState {
    /// The builtin candidates.
    pub candidates: Seq<BuiltinView>,
    /// The builtin paths.
    pub builtins: Seq<Seq<Seq<char>>>,
    /// The hoisted variables.
    pub hoisted: Seq<Seq<char>>,
    /// The scope being filled.
    pub scope: ScopeTree,
}

/// The state of an analysis filling a scope with the given content.
pub open spec fn builder_state(b: ScopeBuilder, t: ScopeTree) -> VisitState {
    VisitState {
        candidates: candidates_view(b.candidates@),
        builtins: path_items(b.builtins),
        hoisted: name_items(b.hoisted_vars),
        scope: t,
    }
}

/// The state of an analysis filling a scope.
pub open spec fn state_of(b: ScopeBuilder, s: Scope) -> VisitState {
    builder_state(b, scope_tree(s))
}

/// The names of optional locals.
pub open spec fn opt_names(locals: Option<IndexSet<String>>) -> Seq<Seq<char>> {
    match locals {
        Some(l) => name_items(l),
        None => Seq::empty(),
    }
}

/// The contents of a list of scopes with one appended.
pub proof fn lemma_scope_trees_push(cs: Seq<Scope>, c: Scope)
    ensures
        scope_trees(cs.push(c)) == scope_trees(cs).push(scope_tree(c)),
{
    let t = cs.push(c);
    assert(t.subrange(0, t.len() - 1) =~= cs);
}

/// The contents of a list of candidates with one appended.
pub proof fn lemma_candidates_push(cs: Seq<Builtin>, c: Builtin)
    ensures
        candidates_view(cs.push(c)) == candidates_view(cs).push(c@),
{
    assert(candidates_view(cs.push(c)) =~= candidates_view(cs).push(c@));
}

/// A scope with locals and nothing else.
pub open spec fn empty_tree(locals: Seq<Seq<char>>) -> ScopeTree {
    ScopeTree { scopes: Seq::empty(), locals, idents: Seq::empty() }
}

/// The state as a new scope with the given locals starts to be filled.
pub open spec fn enter(st: VisitState, locals: Seq<Seq<char>>) -> VisitState {
    VisitState { candidates: st.candidates, builtins: st.builtins, hoisted: st.hoisted, scope: empty_tree(locals) }
}

/// The state after a child scope was filled (`inner`) and appended to the
/// scope of `outer`.
pub open spec fn leave(outer: VisitState, inner: VisitState) -> VisitState {
    VisitState {
        candidates: inner.candidates,
        builtins: inner.builtins,
        hoisted: inner.hoisted,
        scope: ScopeTree {
            scopes: outer.scope.scopes.push(inner.scope),
            locals: outer.scope.locals,
            idents: outer.scope.idents,
        },
    }
}

/// The state with a local name added to the scope.
pub open spec fn with_local(st: VisitState, x: Seq<char>) -> VisitState {
    VisitState {
        candidates: st.candidates,
        builtins: st.builtins,
        hoisted: st.hoisted,
        scope: ScopeTree { scopes: st.scope.scopes, locals: inserted(st.scope.locals, x), idents: st.scope.idents },
    }
}

/// The state with local names added to the scope in order.
pub open spec fn with_locals(st: VisitState, xs: Seq<Seq<char>>) -> VisitState {
    VisitState {
        candidates: st.candidates,
        builtins: st.builtins,
        hoisted: st.hoisted,
        scope: ScopeTree { scopes: st.scope.scopes, locals: insert_all(st.scope.locals, xs), idents: st.scope.idents },
    }
}

/// The state with the reference a symbol and optional path make added to
/// the scope.
pub open spec fn with_ref(st: VisitState, ig: bool, sym: Seq<char>, path: Option<Seq<Seq<char>>>) -> VisitState {
    match reference_for(ig, sym, path) {
        Some(r) => VisitState {
            candidates: st.candidates,
            builtins: st.builtins,
            hoisted: st.hoisted,
            scope: ScopeTree { scopes: st.scope.scopes, locals: st.scope.locals, idents: inserted(st.scope.idents, r) },
        },
        None => st,
    }
}

/// The state with the references of names added in order.
pub open spec fn with_name_refs(st: VisitState, ig: bool, names: Seq<Seq<char>>) -> VisitState
    decreases names.len(),
{
    if names.len() == 0 {
        st
    } else {
        with_ref(with_name_refs(st, ig, names.drop_last()), ig, names.last(), None)
    }
}

/// The state with the references of member paths added in order.
pub open spec fn with_path_refs(st: VisitState, ig: bool, refs: Seq<(Seq<char>, Seq<Seq<char>>)>) -> VisitState
    decreases refs.len(),
{
    if refs.len() == 0 {
        st
    } else {
        with_ref(with_path_refs(st, ig, refs.drop_last()), ig, refs.last().0, Some(refs.last().1))
    }
}

/// The state with a builtin path recorded.
pub open spec fn with_builtin(st: VisitState, key: Seq<Seq<char>>) -> VisitState {
    VisitState { candidates: st.candidates, builtins: inserted(st.builtins, key), hoisted: st.hoisted, scope: st.scope }
}

/// The state with a hoisted variable recorded.
pub open spec fn with_hoisted(st: VisitState, x: Seq<char>) -> VisitState {
    VisitState { candidates: st.candidates, builtins: st.builtins, hoisted: inserted(st.hoisted, x), scope: st.scope }
}

/// The state with a builtin candidate appended.
pub open spec fn with_candidate(st: VisitState, c: BuiltinView) -> VisitState {
    VisitState { candidates: st.candidates.push(c), builtins: st.builtins, hoisted: st.hoisted, scope: st.scope }
}

/// The last candidate before `upto` with a local that binds a symbol, and
/// the first such local of it.
pub open spec fn last_match(cands: Seq<BuiltinView>, sym: Seq<char>, upto: int) -> Option<(int, int)>
    decreases upto,
{
    if upto <= 0 {
        None
    } else {
        match first_local(cands[upto - 1].locals, sym, 0) {
            Some(j) => Some((upto - 1, j)),
            None => last_match(cands, sym, upto - 1),
        }
    }
}

/// The first index at or after `from` of a local that binds a symbol.
pub open spec fn first_local(ls: Seq<LocalView>, sym: Seq<char>, from: int) -> Option<int>
    decreases ls.len() - from,
{
    if from < 0 || from >= ls.len() {
        None
    } else if local_word(ls[from]) == sym {
        Some(from)
    } else {
        first_local(ls, sym, from + 1)
    }
}

/// The candidate and local that bind a symbol, if any: the last candidate
/// that binds it, and its first local binding it.
pub open spec fn binding_of(cands: Seq<BuiltinView>, sym: Seq<char>) -> Option<(BuiltinView, LocalView)> {
    match last_match(cands, sym, cands.len() as int) {
        Some((i, j)) => Some((cands[i], cands[i].locals[j])),
        None => None,
    }
}

/// The builtin path a reference to a symbol bound to a builtin makes: an
/// alias stands for the module's property, the module's own name and a
/// symbol of a module that was not destructured stand for the module, a
/// destructured symbol for the module's property of that name.
pub open spec fn ident_builtin_key(c: BuiltinView, l: LocalView, sym: Seq<char>) -> Seq<Seq<char>> {
    match l {
        LocalView::Alias(_, alias) => seq![c.source, alias],
        _ => if c.source == sym {
            seq![c.source]
        } else if c.static_assign {
            seq![c.source, sym]
        } else {
            seq![c.source]
        },
    }
}

/// The builtin path an assignment to a symbol bound to a builtin writes.
pub open spec fn assign_builtin_key(c: BuiltinView, l: LocalView) -> Seq<Seq<char>> {
    match l {
        LocalView::Named(w) => seq![c.source, w],
        LocalView::Default(_) => seq![c.source],
        LocalView::Alias(_, alias) => seq![c.source, alias],
    }
}

/// The builtin path of a member expression whose first word is bound to a
/// builtin: the module stands first, in place of a symbol that stands for
/// the whole module; an alias stands for the module's property; a trailing
/// method of functions is dropped.
pub open spec fn member_builtin_key(words: Seq<Seq<char>>, c: BuiltinView, l: LocalView) -> Seq<Seq<char>> {
    let qualified = if words[0] != c.source {
        seq![c.source] + if l is Default {
            words.drop_first()
        } else {
            words
        }
    } else {
        words
    };
    let key = match l {
        LocalView::Alias(_, alias) => seq![c.source, alias],
        _ => qualified,
    };
    if function_method(key.last()) {
        key.drop_last()
    } else {
        key
    }
}

/// The builtin path of a `require()` call made for its effect: the module
/// and the member taken from it, if any.
pub open spec fn side_effect_key(arg: Seq<char>, member: Option<Seq<char>>) -> Seq<Seq<char>> {
    match member {
        Some(m) => seq![arg, m],
        None => seq![arg],
    }
}

/// The state after a reference to a symbol is checked against the builtin
/// candidates.
pub open spec fn builtin_ident_effect(st: VisitState, sym: Seq<char>) -> VisitState {
    match binding_of(st.candidates, sym) {
        Some((c, l)) => with_builtin(st, ident_builtin_key(c, l, sym)),
        None => st,
    }
}

/// The state after an assignment to a symbol is checked against the
/// builtin candidates.
pub open spec fn builtin_assign_effect(st: VisitState, sym: Seq<char>) -> VisitState {
    match binding_of(st.candidates, sym) {
        Some((c, l)) => with_builtin(st, assign_builtin_key(c, l)),
        None => st,
    }
}

/// The state after a member expression is checked against the builtin
/// candidates.
pub open spec fn builtin_member_effect(st: VisitState, m: MemberExpr) -> VisitState {
    let words = member_words(m);
    if words.len() > 0 {
        match binding_of(st.candidates, words[0]) {
            Some((c, l)) => with_builtin(st, member_builtin_key(words, c, l)),
            None => st,
        }
    } else {
        st
    }
}

/// The name an assignment target gives to a required module.
pub open spec fn target_name(left: PatOrExpr) -> Option<Seq<char>> {
    match left {
        PatOrExpr::Expr(e) => match *e {
            Expr::Ident(n) => Some(n@),
            _ => None,
        },
        PatOrExpr::Pat(p) => match *p {
            Pat::Ident(n) => Some(n@),
            _ => None,
        },
    }
}

/// The state after an assignment whose right is checked for a `require()`
/// of a built in package: an assignment to `module.exports` re-exports
/// the module, any other makes a candidate (holding the target's name, or
/// the member taken, when the target is a plain name).
pub open spec fn assign_require_effect(st: VisitState, left: PatOrExpr, right: Expr) -> VisitState {
    match call_module(right, "require"@) {
        Some((arg, member)) => if latest_core_package(arg) {
            if assigns_module_exports(left) {
                with_builtin(st, side_effect_key(arg, member))
            } else {
                let locals = match target_name(left) {
                    Some(name) => seq![
                        match member {
                            Some(mm) => LocalView::Alias(arg, mm),
                            None => LocalView::Named(name),
                        },
                    ],
                    None => Seq::empty(),
                };
                with_candidate(st, BuiltinView { static_assign: false, source: arg, locals })
            }
        } else {
            st
        },
        None => st,
    }
}

/// The state after a declarator is checked for a `require()` of a built in
/// package: a plain name binds the module (or the member taken from it), a
/// destructuring pattern binds the module's properties of its names.
pub open spec fn declarator_effect(st: VisitState, d: VarDeclarator) -> VisitState {
    match d.init {
        Some(init) => match call_module(*init, "require"@) {
            Some((arg, member)) => if latest_core_package(arg) {
                match d.name {
                    Pat::Ident(id) => with_candidate(
                        st,
                        BuiltinView {
                            static_assign: false,
                            source: arg,
                            locals: seq![
                                match member {
                                    Some(mm) => LocalView::Alias(id@, mm),
                                    None => LocalView::Default(id@),
                                },
                            ],
                        },
                    ),
                    _ => with_candidate(
                        st,
                        BuiltinView {
                            static_assign: true,
                            source: arg,
                            locals: pattern_names(d.name).map_values(|w: Seq<char>| LocalView::Named(w)),
                        },
                    ),
                }
            } else {
                st
            },
            None => st,
        },
        None => st,
    }
}

/// The state after the references of an expression nested in a
/// parenthesized leaf of a member expression are added: identifiers, the
/// operands of binary expressions and parenthesized expressions.
pub open spec fn nested_idents(e: Expr, ig: bool, st: VisitState) -> VisitState
    decreases e,
{
    match e {
        Expr::Ident(sym) => with_ref(st, ig, sym@, None),
        Expr::Bin(l, r) => nested_idents(*r, ig, nested_idents(*l, ig, st)),
        Expr::Paren(inner) => nested_idents(*inner, ig, st),
        _ => st,
    }
}

/// The contents of a list of member paths: each first word and the rest.
pub open spec fn refs_view(v: Seq<(String, Vec<String>)>) -> Seq<(Seq<char>, Seq<Seq<char>>)> {
    v.map_values(|p: (String, Vec<String>)| (p.0@, p.1@.map_values(|w: String| w@)))
}

/// The paths the words of a list of member paths spell, flattened.
pub open spec fn flat_words(refs: Seq<(Seq<char>, Seq<Seq<char>>)>) -> Seq<Seq<char>>
    decreases refs.len(),
{
    if refs.len() == 0 {
        Seq::empty()
    } else {
        flat_words(refs.drop_last()) + seq![refs.last().0] + refs.last().1
    }
}

/// The local names a named function or class expression binds in its own
/// scope.
pub open spec fn own_name(ident: Option<String>) -> Seq<Seq<char>> {
    match ident {
        Some(id) => seq![id@],
        None => Seq::empty(),
    }
}

/// The member paths a member expression references and the state after
/// computing them: nothing below `super` or `this`; otherwise, when the
/// first leaf is not an identifier, the parenthesized and function leaves
/// are visited and the paths of the member expressions nested in the
/// parenthesized ones come first; then the path of leading words, without
/// a leading `globalThis`.
pub open spec fn member_refs(m: MemberExpr, ig: bool, st: VisitState) -> (Seq<(Seq<char>, Seq<Seq<char>>)>, VisitState)
    decreases m, member_leaves(m).len() + 1,
{
    let leaves = member_leaves(m);
    match m.obj {
        ExprOrSuper::Super => (Seq::empty(), st),
        ExprOrSuper::Expr(_) => if leaves.len() > 0 && leaves[0] is This {
            (Seq::empty(), st)
        } else {
            let global_this = leaves.len() > 0 && match leaves[0] {
                Expr::Ident(id) => id@ == "globalThis"@,
                _ => false,
            };
            let nested = leaves.len() > 0 && !(leaves[0] is Ident);
            let pre = if nested {
                nested_members_pass(m, 0, ig, nested_pass(m, 0, ig, st))
            } else {
                (Seq::empty(), st)
            };
            let w = words_pass(
                m,
                if global_this {
                    1
                } else {
                    0
                },
                ig,
                pre.1,
            );
            (
                pre.0 + if w.0.len() > 0 {
                    seq![(w.0[0], w.0.drop_first())]
                } else {
                    Seq::empty()
                },
                w.1,
            )
        },
    }
}

/// The state after the leaves of a member expression from `k` on are
/// visited for their nested references: a parenthesized leaf's
/// identifiers, a function leaf in a scope of its own.
pub open spec fn nested_pass(m: MemberExpr, k: int, ig: bool, st: VisitState) -> VisitState
    decreases m, member_leaves(m).len() - k,
{
    let leaves = member_leaves(m);
    if k < 0 || k >= leaves.len() {
        st
    } else {
        proof {
            lemma_member_leaves_inside(m);
        }
        let st1 = match leaves[k] {
            Expr::Paren(inner) => nested_idents(*inner, ig, st),
            Expr::Fn(ident, f) => function_eff(f, ig, st, own_name(ident)),
            _ => st,
        };
        nested_pass(m, k + 1, ig, st1)
    }
}

/// The member paths of the member expressions nested in the parenthesized
/// leaves of a member expression from `k` on, and the state after.
pub open spec fn nested_members_pass(m: MemberExpr, k: int, ig: bool, st: VisitState) -> (
    Seq<(Seq<char>, Seq<Seq<char>>)>,
    VisitState,
)
    decreases m, member_leaves(m).len() - k,
{
    let leaves = member_leaves(m);
    if k < 0 || k >= leaves.len() {
        (Seq::empty(), st)
    } else {
        proof {
            lemma_member_leaves_inside(m);
        }
        let r1 = match leaves[k] {
            Expr::Paren(inner) => nested_members(*inner, ig, st),
            _ => (Seq::empty(), st),
        };
        let r2 = nested_members_pass(m, k + 1, ig, r1.1);
        (r1.0 + r2.0, r2.1)
    }
}

/// The member paths of the member expressions nested in an expression of
/// a parenthesized leaf, and the state after computing them.
pub open spec fn nested_members(e: Expr, ig: bool, st: VisitState) -> (Seq<(Seq<char>, Seq<Seq<char>>)>, VisitState)
    decreases e, 0nat,
{
    match e {
        Expr::Bin(l, r) => {
            let a = nested_members(*l, ig, st);
            let b = nested_members(*r, ig, a.1);
            (a.0 + b.0, b.1)
        },
        Expr::Paren(inner) => nested_members(*inner, ig, st),
        Expr::Member(mm) => member_refs(mm, ig, st),
        _ => (Seq::empty(), st),
    }
}

/// The leading words of the leaves of a member expression from `k` on,
/// and the state after: identifiers, up to a first leaf that is not; a
/// call leaf adds the name of an identifier callee or the words of the
/// paths of a member callee.
pub open spec fn words_pass(m: MemberExpr, k: int, ig: bool, st: VisitState) -> (Seq<Seq<char>>, VisitState)
    decreases m, member_leaves(m).len() - k,
{
    let leaves = member_leaves(m);
    if k < 0 || k >= leaves.len() {
        (Seq::empty(), st)
    } else {
        proof {
            lemma_member_leaves_inside(m);
        }
        match leaves[k] {
            Expr::Ident(id) => {
                let rest = words_pass(m, k + 1, ig, st);
                (seq![id@] + rest.0, rest.1)
            },
            Expr::Call(c) => match c.callee {
                ExprOrSuper::Expr(callee) => match *callee {
                    Expr::Ident(id) => (seq![id@], st),
                    Expr::Member(mm) => {
                        let r = member_refs(mm, ig, st);
                        (flat_words(r.0), r.1)
                    },
                    _ => (Seq::empty(), st),
                },
                ExprOrSuper::Super => (Seq::empty(), st),
            },
            _ => (Seq::empty(), st),
        }
    }
}

/// The state after visiting an expression in a scope.
pub open spec fn expr_eff(n: Expr, ig: bool, st: VisitState) -> VisitState
    decreases n, 0nat,
{
    match n {
        Expr::Ident(sym) => builtin_ident_effect(with_ref(st, ig, sym@, None), sym@),
        Expr::PrivateName(sym) => with_ref(st, ig, "#"@ + sym@, None),
        Expr::Bin(l, r) => expr_eff(*r, ig, expr_eff(*l, ig, st)),
        Expr::Tpl(es) => exprs_eff(es@, ig, st),
        Expr::TaggedTpl(tag, es) => exprs_eff(es@, ig, expr_eff(*tag, ig, st)),
        Expr::Sequence(es) => exprs_eff(es@, ig, st),
        Expr::Array(elems) => opt_exprs_eff(elems@, ig, st),
        Expr::Object(props) => props_eff(props@, ig, st),
        Expr::Paren(e) => expr_eff(*e, ig, st),
        Expr::Yield(arg) => match arg {
            Some(e) => expr_eff(*e, ig, st),
            None => st,
        },
        Expr::Cond(a, b, c) => expr_eff(*c, ig, expr_eff(*b, ig, expr_eff(*a, ig, st))),
        Expr::Await(e) => expr_eff(*e, ig, st),
        Expr::Arrow(a) => arrow_eff(a, ig, st),
        Expr::Call(c) => {
            let st1 = match c.callee {
                ExprOrSuper::Expr(e) => expr_eff(*e, ig, st),
                ExprOrSuper::Super => st,
            };
            args_eff(c.args@, ig, st1)
        },
        Expr::Update(e) => expr_eff(*e, ig, st),
        Expr::Unary(e) => expr_eff(*e, ig, st),
        Expr::Assign(left, right) => {
            let st1 = match left {
                PatOrExpr::Expr(e) => expr_eff(*e, ig, st),
                PatOrExpr::Pat(p) => match *p {
                    Pat::Ident(id) => with_ref(builtin_assign_effect(st, id@), ig, id@, None),
                    Pat::Expr(e) => expr_eff(*e, ig, st),
                    _ => st,
                },
            };
            assign_require_effect(expr_eff(*right, ig, st1), left, *right)
        },
        Expr::OptChain(e) => expr_eff(*e, ig, st),
        Expr::Member(m) => {
            let r = member_refs(m, ig, st);
            let st1 = with_path_refs(r.1, ig, r.0);
            if call_module(Expr::Member(m), "require"@) is None {
                builtin_member_effect(st1, m)
            } else {
                st1
            }
        },
        Expr::New(ne) => {
            let st1 = expr_eff(*ne.callee, ig, st);
            match ne.args {
                Some(args) => args_eff(args@, ig, st1),
                None => st1,
            }
        },
        Expr::Fn(ident, f) => function_eff(f, ig, st, own_name(ident)),
        Expr::Class(ident, c) => class_eff(c, ig, st, own_name(ident)),
        _ => st,
    }
}

/// The state after visiting expressions in order.
pub open spec fn exprs_eff(es: Seq<Expr>, ig: bool, st: VisitState) -> VisitState
    decreases es, 0nat,
{
    if es.len() == 0 {
        st
    } else {
        expr_eff(es[es.len() - 1], ig, exprs_eff(es.subrange(0, es.len() - 1), ig, st))
    }
}

/// The state after visiting the present elements of an array literal.
pub open spec fn opt_exprs_eff(es: Seq<Option<Expr>>, ig: bool, st: VisitState) -> VisitState
    decreases es, 0nat,
{
    if es.len() == 0 {
        st
    } else {
        let st1 = opt_exprs_eff(es.subrange(0, es.len() - 1), ig, st);
        match es[es.len() - 1] {
            Some(e) => expr_eff(e, ig, st1),
            None => st1,
        }
    }
}

/// The state after visiting the properties of an object literal.
pub open spec fn props_eff(ps: Seq<PropOrSpread>, ig: bool, st: VisitState) -> VisitState
    decreases ps, 0nat,
{
    if ps.len() == 0 {
        st
    } else {
        let st1 = props_eff(ps.subrange(0, ps.len() - 1), ig, st);
        match ps[ps.len() - 1] {
            PropOrSpread::Spread(e) => expr_eff(*e, ig, st1),
            PropOrSpread::Shorthand(id) => with_ref(st1, ig, id@, None),
            PropOrSpread::KeyValue(_, e) => expr_eff(*e, ig, st1),
            PropOrSpread::Method(..) | PropOrSpread::Other => st1,
        }
    }
}

/// The state after visiting the arguments of a call in order: an argument
/// that is a `require()` of a built in package is also a builtin use.
pub open spec fn args_eff(args: Seq<Expr>, ig: bool, st: VisitState) -> VisitState
    decreases args, 0nat,
{
    if args.len() == 0 {
        st
    } else {
        let arg = args[args.len() - 1];
        let st1 = expr_eff(arg, ig, args_eff(args.subrange(0, args.len() - 1), ig, st));
        match call_module(arg, "require"@) {
            Some((a, member)) => if latest_core_package(a) {
                with_builtin(st1, side_effect_key(a, member))
            } else {
                st1
            },
            None => st1,
        }
    }
}

/// The state after visiting an arrow function: its parameters and body
/// fill a child scope.
pub open spec fn arrow_eff(a: ArrowExpr, ig: bool, st: VisitState) -> VisitState
    decreases a, 0nat,
{
    let st1 = params_eff(a.params@, ig, enter(st, Seq::empty()));
    let st2 = match a.body {
        BlockStmtOrExpr::BlockStmt(ss) => stmts_eff(ss@, ig, st1),
        BlockStmtOrExpr::Expr(e) => expr_eff(*e, ig, st1),
    };
    leave(st, st2)
}

/// The state after visiting a function: its parameters and body fill a
/// child scope whose locals start as the given ones.
pub open spec fn function_eff(f: Function, ig: bool, st: VisitState, locals: Seq<Seq<char>>) -> VisitState
    decreases f, 0nat,
{
    let st1 = params_eff(f.params@, ig, enter(st, locals));
    let st2 = match f.body {
        Some(ss) => stmts_eff(ss@, ig, st1),
        None => st1,
    };
    leave(st, st2)
}

/// The state after visiting parameters in order.
pub open spec fn params_eff(ps: Seq<Pat>, ig: bool, st: VisitState) -> VisitState
    decreases ps, 0nat,
{
    if ps.len() == 0 {
        st
    } else {
        param_eff(ps[ps.len() - 1], ig, params_eff(ps.subrange(0, ps.len() - 1), ig, st))
    }
}

/// The state after visiting a parameter: its names become locals, then a
/// default value is visited.
pub open spec fn param_eff(p: Pat, ig: bool, st: VisitState) -> VisitState
    decreases p, 0nat,
{
    let st1 = with_locals(st, pattern_names(p));
    match p {
        Pat::Assign(_, right) => expr_eff(*right, ig, st1),
        _ => st1,
    }
}

/// The state after visiting a class: its super class in the scope, then
/// its instance members in a child scope whose locals start as the given
/// ones.
pub open spec fn class_eff(c: Class, ig: bool, st: VisitState, locals: Seq<Seq<char>>) -> VisitState
    decreases c, 0nat,
{
    let st1 = match c.super_class {
        Some(e) => expr_eff(*e, ig, st),
        None => st,
    };
    leave(st1, members_eff(c.body@, ig, enter(st1, locals)))
}

/// The state after visiting class members in order in the class scope: a
/// constructor fills a child scope, instance methods are functions,
/// instance property values are visited; static members are skipped.
pub open spec fn members_eff(ms: Seq<ClassMember>, ig: bool, st: VisitState) -> VisitState
    decreases ms, 0nat,
{
    if ms.len() == 0 {
        st
    } else {
        let st1 = members_eff(ms.subrange(0, ms.len() - 1), ig, st);
        match ms[ms.len() - 1] {
            ClassMember::Constructor(params, body) => {
                let c1 = params_eff(params@, ig, enter(st1, Seq::empty()));
                let c2 = match body {
                    Some(ss) => stmts_eff(ss@, ig, c1),
                    None => c1,
                };
                leave(st1, c2)
            },
            ClassMember::Method(is_static, _, f) => if is_static {
                st1
            } else {
                function_eff(f, ig, st1, Seq::empty())
            },
            ClassMember::PrivateMethod(is_static, _, f) => if is_static {
                st1
            } else {
                function_eff(f, ig, st1, Seq::empty())
            },
            ClassMember::ClassProp(is_static, _, v) => if is_static {
                st1
            } else {
                match v {
                    Some(e) => expr_eff(*e, ig, st1),
                    None => st1,
                }
            },
            ClassMember::PrivateProp(is_static, _, v) => if is_static {
                st1
            } else {
                match v {
                    Some(e) => expr_eff(*e, ig, st1),
                    None => st1,
                }
            },
            ClassMember::StaticBlock(_) | ClassMember::Other => st1,
        }
    }
}

/// The state with the names of a declarator recorded: hoisted for `var`,
/// locals of the scope otherwise.
pub open spec fn with_declared(st: VisitState, kind: VarDeclKind, names: Seq<Seq<char>>) -> VisitState
    decreases names.len(),
{
    if names.len() == 0 {
        st
    } else {
        let st1 = with_declared(st, kind, names.drop_last());
        match kind {
            VarDeclKind::Var => with_hoisted(st1, names.last()),
            _ => with_local(st1, names.last()),
        }
    }
}

/// The state after visiting the declarators of a variable declaration in
/// order: a declarator that binds names records them, then its initializer
/// is visited and checked for a `require()`.
pub open spec fn decls_eff(kind: VarDeclKind, ds: Seq<VarDeclarator>, ig: bool, st: VisitState) -> VisitState
    decreases ds, 0nat,
{
    if ds.len() == 0 {
        st
    } else {
        let st1 = decls_eff(kind, ds.subrange(0, ds.len() - 1), ig, st);
        let d = ds[ds.len() - 1];
        if binds_names(d.name) {
            let st2 = with_declared(st1, kind, pattern_names(d.name));
            let st3 = match d.init {
                Some(e) => expr_eff(*e, ig, st2),
                None => st2,
            };
            declarator_effect(st3, d)
        } else {
            st1
        }
    }
}

/// The state after visiting a statement in a child scope of its own.
pub open spec fn child_eff(n: Stmt, ig: bool, st: VisitState) -> VisitState
    decreases n, 1nat,
{
    leave(st, stmt_eff(n, ig, enter(st, Seq::empty()), Seq::empty()))
}

/// The state after visiting statements each in a child scope of its own.
pub open spec fn children_eff(ss: Seq<Stmt>, ig: bool, st: VisitState) -> VisitState
    decreases ss, 0nat,
{
    if ss.len() == 0 {
        st
    } else {
        child_eff(ss[ss.len() - 1], ig, children_eff(ss.subrange(0, ss.len() - 1), ig, st))
    }
}

/// The state after visiting the statements of the cases of a switch.
pub open spec fn cases_eff(cases: Seq<SwitchCase>, ig: bool, st: VisitState) -> VisitState
    decreases cases, 0nat,
{
    if cases.len() == 0 {
        st
    } else {
        children_eff(cases[cases.len() - 1].cons@, ig, cases_eff(cases.subrange(0, cases.len() - 1), ig, st))
    }
}

/// The state after visiting statements in order.
pub open spec fn stmts_eff(ss: Seq<Stmt>, ig: bool, st: VisitState) -> VisitState
    decreases ss, 0nat,
{
    if ss.len() == 0 {
        st
    } else {
        stmt_eff(ss[ss.len() - 1], ig, stmts_eff(ss.subrange(0, ss.len() - 1), ig, st), Seq::empty())
    }
}

/// The state after visiting a statement; `locals` are the locals of the
/// scope a block statement opens. The head and body of a `for ... in` or
/// `for ... of` loop fill a child scope: the declaration or expression on
/// the left, the right and the body; the names of another pattern on the
/// left are references of the enclosing scope.
pub open spec fn stmt_eff(n: Stmt, ig: bool, st: VisitState, locals: Seq<Seq<char>>) -> VisitState
    decreases n, 0nat,
{
    match n {
        Stmt::Decl(d) => match d {
            Decl::Fn(ident, f) => function_eff(f, ig, with_local(st, ident@), Seq::empty()),
            Decl::Class(ident, c) => class_eff(c, ig, with_local(st, ident@), Seq::empty()),
            Decl::Var(v) => decls_eff(v.kind, v.decls@, ig, st),
            Decl::Other => st,
        },
        Stmt::With(_, body) => child_eff(*body, ig, st),
        Stmt::While(test, body) => child_eff(*body, ig, expr_eff(*test, ig, st)),
        Stmt::DoWhile(test, body) => child_eff(*body, ig, expr_eff(*test, ig, st)),
        Stmt::For(init, test, update, body) => {
            let c0 = enter(st, Seq::empty());
            let c1 = match init {
                Some(VarDeclOrExpr::Expr(e)) => expr_eff(*e, ig, c0),
                Some(VarDeclOrExpr::VarDecl(v)) => decls_eff(v.kind, v.decls@, ig, c0),
                None => c0,
            };
            let c2 = match test {
                Some(e) => expr_eff(*e, ig, c1),
                None => c1,
            };
            let c3 = match update {
                Some(e) => expr_eff(*e, ig, c2),
                None => c2,
            };
            leave(st, stmt_eff(*body, ig, c3, Seq::empty()))
        },
        Stmt::ForIn(left, right, body) => {
            let r = match left {
                VarDeclOrPat::VarDecl(v) => (st, decls_eff(v.kind, v.decls@, ig, enter(st, Seq::empty()))),
                VarDeclOrPat::Pat(p) => match p {
                    Pat::Expr(e) => (st, expr_eff(*e, ig, enter(st, Seq::empty()))),
                    _ => {
                        let outer = with_name_refs(st, ig, pattern_names(p));
                        (outer, enter(outer, Seq::empty()))
                    },
                },
            };
            leave(r.0, stmt_eff(*body, ig, expr_eff(*right, ig, r.1), Seq::empty()))
        },
        Stmt::ForOf(left, right, body) => {
            let r = match left {
                VarDeclOrPat::VarDecl(v) => (st, decls_eff(v.kind, v.decls@, ig, enter(st, Seq::empty()))),
                VarDeclOrPat::Pat(p) => match p {
                    Pat::Expr(e) => (st, expr_eff(*e, ig, enter(st, Seq::empty()))),
                    _ => {
                        let outer = with_name_refs(st, ig, pattern_names(p));
                        (outer, enter(outer, Seq::empty()))
                    },
                },
            };
            leave(r.0, stmt_eff(*body, ig, expr_eff(*right, ig, r.1), Seq::empty()))
        },
        Stmt::Labeled(body) => child_eff(*body, ig, st),
        Stmt::If(test, cons, alt) => {
            let c = stmt_eff(*cons, ig, expr_eff(*test, ig, enter(st, Seq::empty())), Seq::empty());
            let st1 = leave(st, c);
            match alt {
                Some(a) => child_eff(*a, ig, st1),
                None => st1,
            }
        },
        Stmt::Try(block, handler, finalizer) => {
            let st1 = leave(st, stmts_eff(block@, ig, enter(st, Seq::empty())));
            let st2 = match handler {
                Some(h) => {
                    let locals = match h.param {
                        Some(p) => insert_all(Seq::empty(), pattern_names(p)),
                        None => Seq::empty(),
                    };
                    leave(st1, stmts_eff(h.body@, ig, enter(st1, locals)))
                },
                None => st1,
            };
            match finalizer {
                Some(f) => leave(st2, stmts_eff(f@, ig, enter(st2, Seq::empty()))),
                None => st2,
            }
        },
        Stmt::Switch(_, cases) => cases_eff(cases@, ig, st),
        Stmt::Block(ss) => leave(st, stmts_eff(ss@, ig, enter(st, locals))),
        Stmt::Return(arg) => match arg {
            Some(e) => expr_eff(*e, ig, st),
            None => st,
        },
        Stmt::Throw(e) => expr_eff(*e, ig, st),
        Stmt::Expr(e) => expr_eff(*e, ig, st),
        Stmt::Other => st,
    }
}

/// The local name an import specifier binds.
pub open spec fn import_name(s: ImportSpecifier) -> Seq<char> {
    match s {
        ImportSpecifier::Default(l) => l@,
        ImportSpecifier::Named(l, _) => l@,
        ImportSpecifier::Namespace(l) => l@,
    }
}

/// The local names the specifiers of an import bind, in order.
pub open spec fn import_names(specs: Seq<ImportSpecifier>) -> Seq<Seq<char>> {
    specs.map_values(|s: ImportSpecifier| import_name(s))
}

/// The state after an import declaration is checked: an import of a built
/// in package becomes a candidate whose locals are those of its bindings.
pub open spec fn import_eff(st: VisitState, d: ImportDecl) -> VisitState {
    if latest_core_package(d.src@) {
        with_candidate(st, BuiltinView { static_assign: true, source: d.src@, locals: specifier_locals(d.specifiers@) })
    } else {
        st
    }
}

/// The state after visiting a module item in the root scope: the names an
/// import binds become locals of the root scope and the import is checked
/// for a built in package; a statement is visited.
pub open spec fn item_eff(item: ModuleItem, ig: bool, st: VisitState) -> VisitState {
    match item {
        ModuleItem::Import(d) => import_eff(with_locals(st, import_names(d.specifiers@)), d),
        ModuleItem::Export(_) => st,
        ModuleItem::Stmt(s) => stmt_eff(s, ig, st, Seq::empty()),
    }
}

/// The state after visiting module items in order.
pub open spec fn items_eff(items: Seq<ModuleItem>, ig: bool, st: VisitState) -> VisitState
    decreases items.len(),
{
    if items.len() == 0 {
        st
    } else {
        item_eff(items.last(), ig, items_eff(items.drop_last(), ig, st))
    }
}


/// A builtin path taken through a member expression that calls through a
/// method of function objects (`call`, `apply`, `bind`, `toSource`,
/// `toString`) is the path of the function itself: it is what the path
/// through any other property of the function is without that property,
/// so `f.call(...)` is recorded as `f` is.
pub proof fn lemma_member_key_strips_function_method(
    words: Seq<Seq<char>>,
    c: BuiltinView,
    l: LocalView,
    method: Seq<char>,
    other: Seq<char>,
)
    requires
        words.len() > 0,
        !(l is Alias),
        method == "call"@ || method == "apply"@ || method == "bind"@ || method == "toSource"@ || method
            == "toString"@,
        other != "call"@ && other != "apply"@ && other != "bind"@ && other != "toSource"@ && other
            != "toString"@,
    ensures
        member_builtin_key(words.push(method), c, l) == member_builtin_key(words.push(other), c, l).drop_last(),
{
    let q = if words[0] != c.source {
        seq![c.source] + if l is Default {
            words.drop_first()
        } else {
            words
        }
    } else {
        words
    };
    let xm = words.push(method);
    let xo = words.push(other);
    assert(xm[0] == words[0] && xo[0] == words[0]);
    assert(xm.drop_first() =~= words.drop_first().push(method));
    assert(xo.drop_first() =~= words.drop_first().push(other));
    assert((seq![c.source] + words.drop_first().push(method)) =~= (seq![c.source] + words.drop_first()).push(method));
    assert((seq![c.source] + words.drop_first().push(other)) =~= (seq![c.source] + words.drop_first()).push(other));
    assert((seq![c.source] + xm) =~= (seq![c.source] + words).push(method));
    assert((seq![c.source] + xo) =~= (seq![c.source] + words).push(other));
    assert(q.push(method).drop_last() =~= q);
    assert(q.push(other).drop_last() =~= q);
}


} // verus!
