//! Analyze the lexical scopes for a module and generate a tree
//! containing the local symbols and a list of identities which are
//! symbol references that maybe global variables.
use vstd::prelude::*;

use indexmap::IndexSet;

use crate::ast::{
    BlockStmtOrExpr, Class, ClassMember, Decl, Expr, ExprOrSuper, Function, ImportSpecifier, Module, ModuleItem, Pat,
    PatOrExpr, PropName, PropOrSpread, Stmt, SwitchCase, VarDecl, VarDeclOrExpr, VarDeclarator,
};
use crate::collections::{name_items, names_contains, names_get, names_insert, names_len, names_new, inserted};
use crate::helpers::{binds_names, pattern_names, pattern_words};
use crate::policy::analysis::globals_scope::{combine_locals, lemma_insert_all_concat, stack_names};
use crate::policy::analysis::{insert_all, words_view};

verus! {

/// Lexical scope.
#[derive(Debug)]
pub struct Scope {
    /// Scopes contained by this scope.
    scopes: Vec<Scope>,
    /// Identifiers local to this scope.
    locals: IndexSet<String>,
    /// Identifiers that are references.
    ///
    /// These could be local or global symbols and we need
    /// to walk all parent scopes to detect if a symbol should
    /// be considered global.
    idents: IndexSet<String>,
}

/// The content of a scope: its child scopes, its local names and the
/// names it references, each in the order in which they were added.
pub struct ScopeView {
    /// The child scopes.
    pub scopes: Seq<ScopeView>,
    /// The local names.
    pub locals: Seq<Seq<char>>,
    /// The referenced names.
    pub idents: Seq<Seq<char>>,
}

/// The content of a scope.
pub closed spec fn scope_view(s: Scope) -> ScopeView
    decreases s,
{
    ScopeView { scopes: scopes_view(s.scopes@), locals: name_items(s.locals), idents: name_items(s.idents) }
}

/// The contents of a list of scopes.
pub closed spec fn scopes_view(cs: Seq<Scope>) -> Seq<ScopeView>
    decreases cs,
{
    if cs.len() == 0 {
        Seq::empty()
    } else {
        scopes_view(cs.subrange(0, cs.len() - 1)).push(scope_view(cs[cs.len() - 1]))
    }
}

impl View for Scope {
    type V = ScopeView;

    closed spec fn view(&self) -> ScopeView {
        scope_view(*self)
    }
}

/// The contents of a list of scopes have one per scope.
proof fn lemma_scopes_view(cs: Seq<Scope>)
    ensures
        scopes_view(cs).len() == cs.len(),
        forall|j: int| 0 <= j < cs.len() ==> #[trigger] scopes_view(cs)[j] == scope_view(cs[j]),
    decreases cs.len(),
{
    if cs.len() > 0 {
        let t = cs.subrange(0, cs.len() - 1);
        lemma_scopes_view(t);
        assert forall|j: int| 0 <= j < cs.len() implies #[trigger] scopes_view(cs)[j] == scope_view(cs[j]) by {
            if j < cs.len() - 1 {
                assert(t[j] == cs[j]);
            }
        }
    }
}

/// A scope with locals and nothing else.
pub open spec fn empty_scope(locals: Seq<Seq<char>>) -> ScopeView {
    ScopeView { scopes: Seq::empty(), locals, idents: Seq::empty() }
}

/// A scope with one more child scope.
pub open spec fn add_child(s: ScopeView, c: ScopeView) -> ScopeView {
    ScopeView { scopes: s.scopes.push(c), locals: s.locals, idents: s.idents }
}

/// A scope with one more local name.
pub open spec fn add_local(s: ScopeView, x: Seq<char>) -> ScopeView {
    ScopeView { scopes: s.scopes, locals: inserted(s.locals, x), idents: s.idents }
}

/// A scope with more local names.
pub open spec fn add_locals(s: ScopeView, xs: Seq<Seq<char>>) -> ScopeView {
    ScopeView { scopes: s.scopes, locals: insert_all(s.locals, xs), idents: s.idents }
}

/// A scope with one more referenced name.
pub open spec fn add_ident(s: ScopeView, x: Seq<char>) -> ScopeView {
    ScopeView { scopes: s.scopes, locals: s.locals, idents: inserted(s.idents, x) }
}

impl Scope {
    /// A scope with the given locals.
    fn new(locals: Option<IndexSet<String>>) -> (r: Scope)
        ensures
            r@ == empty_scope(
                match locals {
                    Some(l) => name_items(l),
                    None => Seq::empty(),
                },
            ),
    {
        let locals = match locals {
            Some(l) => l,
            None => names_new(),
        };
        let r = Scope { scopes: Vec::new(), locals, idents: names_new() };
        proof {
            assert(scopes_view(r.scopes@) =~= Seq::<ScopeView>::empty());
        }
        r
    }

    /// Add a child scope.
    fn push_child(&mut self, child: Scope)
        ensures
            final(self)@ == add_child(old(self)@, child@),
    {
        let ghost before = self.scopes@;
        self.scopes.push(child);
        proof {
            assert(self.scopes@.subrange(0, self.scopes@.len() - 1) =~= before);
            assert(self.scopes@[self.scopes@.len() - 1] == child);
        }
    }

    /// Add a local name.
    fn add_local(&mut self, x: String)
        ensures
            final(self)@ == add_local(old(self)@, x@),
    {
        names_insert(&mut self.locals, x);
    }

    /// Add a referenced name.
    fn add_ident(&mut self, x: String)
        ensures
            final(self)@ == add_ident(old(self)@, x@),
    {
        names_insert(&mut self.idents, x);
    }
}

/// The referenced names of a scope that are not among the locals in scope,
/// in order.
pub open spec fn unbound_words(idents: Seq<Seq<char>>, env: Set<Seq<char>>) -> Seq<Seq<char>>
    decreases idents.len(),
{
    if idents.len() == 0 {
        Seq::empty()
    } else if env.contains(idents.last()) {
        unbound_words(idents.drop_last(), env)
    } else {
        unbound_words(idents.drop_last(), env).push(idents.last())
    }
}

/// The global names of a scope tree: the names a scope references that are
/// not local to it or to an enclosing scope, then those of its children, in
/// a depth-first traversal.
pub open spec fn block_globals(s: ScopeView, outer: Set<Seq<char>>) -> Seq<Seq<char>>
    decreases s,
{
    let env = outer.union(s.locals.to_set());
    unbound_words(s.idents, env) + children_block_globals(s.scopes, env)
}

/// The global names of a list of scope trees.
pub open spec fn children_block_globals(cs: Seq<ScopeView>, env: Set<Seq<char>>) -> Seq<Seq<char>>
    decreases cs,
{
    if cs.len() == 0 {
        Seq::empty()
    } else {
        children_block_globals(cs.subrange(0, cs.len() - 1), env) + block_globals(cs[cs.len() - 1], env)
    }
}

/// Analyze the scopes for a module.
#[derive(Debug)]
pub struct ScopeAnalysis {
    root: Scope,
}

impl View for ScopeAnalysis {
    type V = ScopeView;

    closed spec fn view(&self) -> ScopeView {
        self.root@
    }
}

/// Insert the referenced names of a scope that are not in a set of locals.
fn insert_unbound(scope: &Scope, combined: &IndexSet<String>, globals: &mut IndexSet<String>)
    ensures
        name_items(*final(globals)) == insert_all(
            name_items(*old(globals)),
            unbound_words(scope@.idents, name_items(*combined).to_set()),
        ),
{
    let ghost env = name_items(*combined).to_set();
    let ghost refs = name_items(scope.idents);
    proof {
        assert(scope@.idents == refs);
    }
    let n = names_len(&scope.idents);
    let mut i: usize = 0;
    while i < n
        invariant
            n == refs.len(),
            refs == name_items(scope.idents),
            env == name_items(*combined).to_set(),
            i <= n,
            name_items(*globals) == insert_all(name_items(*old(globals)), unbound_words(refs.take(i as int), env)),
        decreases n - i,
    {
        let ident = names_get(&scope.idents, i);
        proof {
            let t = refs.take(i as int + 1);
            assert(t.drop_last() =~= refs.take(i as int));
            assert(t.last() == refs[i as int]);
        }
        if !names_contains(combined, ident) {
            names_insert(globals, ident.clone());
            proof {
                let t = refs.take(i as int + 1);
                let u = unbound_words(t, env);
                assert(u.drop_last() =~= unbound_words(refs.take(i as int), env));
            }
        }
        i = i + 1;
    }
    assert(refs.take(n as int) =~= refs);
}

/// The global names of the first children of a scope and of the next one.
proof fn lemma_children_block_globals_step(cs: Seq<ScopeView>, env: Set<Seq<char>>, j: int)
    requires
        0 <= j < cs.len(),
    ensures
        children_block_globals(cs.take(j + 1), env) == children_block_globals(cs.take(j), env) + block_globals(cs[j], env),
{
    let t = cs.take(j + 1);
    assert(t.subrange(0, t.len() - 1) =~= cs.take(j));
    assert(t[t.len() - 1] == cs[j]);
}

/// Insert the global names of a scope tree, given the stack of the locals
/// of the enclosing scopes.
fn compute_globals<'a>(scope: &'a Scope, global_symbols: &mut IndexSet<String>, locals_stack: &mut Vec<&'a IndexSet<String>>)
    ensures
        final(locals_stack)@ == old(locals_stack)@,
        name_items(*final(global_symbols)) == insert_all(
            name_items(*old(global_symbols)),
            block_globals(scope@, stack_names(old(locals_stack)@)),
        ),
    decreases scope,
{
    let ghost outer = stack_names(locals_stack@);
    let ghost start = name_items(*global_symbols);
    locals_stack.push(&scope.locals);
    let ghost env = stack_names(locals_stack@);
    proof {
        assert(locals_stack@.drop_last() =~= old(locals_stack)@);
        assert(scope@.locals == name_items(scope.locals));
        assert(env == outer.union(scope@.locals.to_set()));
        lemma_scopes_view(scope.scopes@);
    }
    let combined = combine_locals(locals_stack);
    insert_unbound(scope, &combined, global_symbols);
    let ghost own = unbound_words(scope@.idents, env);
    let ghost children = scope@.scopes;
    let mut j: usize = 0;
    while j < scope.scopes.len()
        invariant
            j <= scope.scopes@.len(),
            children == scopes_view(scope.scopes@),
            children.len() == scope.scopes@.len(),
            forall|k: int| 0 <= k < scope.scopes@.len() ==> #[trigger] children[k] == scope_view(scope.scopes@[k]),
            locals_stack@ == old(locals_stack)@.push(&scope.locals),
            env == stack_names(locals_stack@),
            name_items(*global_symbols) == insert_all(start, own + children_block_globals(children.take(j as int), env)),
        decreases scope.scopes@.len() - j,
    {
        compute_globals(&scope.scopes[j], global_symbols, locals_stack);
        proof {
            let prev = own + children_block_globals(children.take(j as int), env);
            let child = block_globals(children[j as int], env);
            assert(scope.scopes@[j as int]@ == children[j as int]);
            lemma_children_block_globals_step(children, env, j as int);
            lemma_insert_all_concat(start, prev, child);
            assert(own + children_block_globals(children.take(j as int + 1), env) =~= prev + child);
        }
        j = j + 1;
    }
    proof {
        assert(children.take(children.len() as int) =~= children);
        if j == 0 {
            assert(own + children_block_globals(children.take(0), env) =~= own);
        }
    }
    locals_stack.pop();
    proof {
        assert(locals_stack@ =~= old(locals_stack)@);
    }
}

impl ScopeAnalysis {
    /// Create a scope analysis.
    pub fn new() -> (r: ScopeAnalysis)
        ensures
            r@ == empty_scope(Seq::empty()),
    {
        ScopeAnalysis { root: Scope::new(None) }
    }

    /// Compute the global variables: the names referenced in a scope that
    /// are not local to it or to an enclosing scope, in the order of a
    /// depth-first traversal of the scope tree.
    pub fn globals(&self) -> (r: IndexSet<String>)
        ensures
            name_items(r) == insert_all(Seq::empty(), block_globals(self@, Set::empty())),
    {
        let mut global_symbols = names_new();
        let mut stack: Vec<&IndexSet<String>> = Vec::new();
        proof {
            assert(stack_names(stack@) =~= Set::<Seq<char>>::empty());
        }
        compute_globals(&self.root, &mut global_symbols, &mut stack);
        global_symbols
    }
}


/// The locals of a function's scope: the given ones, then the names its
/// parameters bind.
pub open spec fn params_locals(params: Seq<Pat>, acc: Seq<Seq<char>>) -> Seq<Seq<char>>
    decreases params.len(),
{
    if params.len() == 0 {
        acc
    } else {
        insert_all(params_locals(params.drop_last(), acc), pattern_names(params.last()))
    }
}

/// The text a private name is recorded as: its name behind `#`.
pub open spec fn private_word(name: Seq<char>) -> Seq<char> {
    seq!['#'] + name
}

/// Whether visiting a statement stays clear of optional chaining, which
/// the analysis does not handle.
pub open spec fn stmt_safe(n: Stmt) -> bool
    decreases n,
{
    match n {
        Stmt::Decl(d) => match d {
            Decl::Fn(_, f) => function_safe(f),
            Decl::Class(_, c) => class_safe(c),
            Decl::Var(v) => forall|i: int|
                0 <= i < v.decls@.len() ==> decl_safe(#[trigger] v.decls@[i]),
            Decl::Other => true,
        },
        Stmt::With(_, body) => stmt_safe(*body),
        Stmt::While(_, body) => stmt_safe(*body),
        Stmt::DoWhile(_, body) => stmt_safe(*body),
        Stmt::For(init, test, update, body) => {
            &&& match init {
                Some(VarDeclOrExpr::Expr(e)) => expr_safe(*e),
                Some(VarDeclOrExpr::VarDecl(v)) => forall|i: int|
                    0 <= i < v.decls@.len() ==> decl_safe(#[trigger] v.decls@[i]),
                None => true,
            }
            &&& match test {
                Some(e) => expr_safe(*e),
                None => true,
            }
            &&& match update {
                Some(e) => expr_safe(*e),
                None => true,
            }
            &&& stmt_safe(*body)
        },
        Stmt::ForIn(_, _, body) => stmt_safe(*body),
        Stmt::ForOf(_, _, body) => stmt_safe(*body),
        Stmt::Labeled(body) => stmt_safe(*body),
        Stmt::If(_, cons, alt) => stmt_safe(*cons) && match alt {
            Some(a) => stmt_safe(*a),
            None => true,
        },
        Stmt::Try(block, handler, finalizer) => {
            &&& forall|i: int| 0 <= i < block@.len() ==> stmt_safe(#[trigger] block@[i])
            &&& match handler {
                Some(h) => forall|i: int| 0 <= i < h.body@.len() ==> stmt_safe(#[trigger] h.body@[i]),
                None => true,
            }
            &&& match finalizer {
                Some(f) => forall|i: int| 0 <= i < f@.len() ==> stmt_safe(#[trigger] f@[i]),
                None => true,
            }
        },
        Stmt::Switch(_, cases) => forall|i: int|
            0 <= i < cases@.len() ==> forall|j: int|
                0 <= j < (#[trigger] cases@[i]).cons@.len() ==> stmt_safe(#[trigger] cases@[i].cons@[j]),
        Stmt::Block(ss) => forall|i: int| 0 <= i < ss@.len() ==> stmt_safe(#[trigger] ss@[i]),
        Stmt::Return(arg) => match arg {
            Some(e) => expr_safe(*e),
            None => true,
        },
        Stmt::Expr(e) => expr_safe(*e),
        _ => true,
    }
}

/// Whether visiting a variable declarator stays clear of optional chaining.
pub open spec fn decl_safe(d: VarDeclarator) -> bool
    decreases d,
{
    binds_names(d.name) ==> match d.init {
        Some(e) => expr_safe(*e),
        None => true,
    }
}

/// Whether visiting an expression stays clear of optional chaining.
pub open spec fn expr_safe(n: Expr) -> bool
    decreases n,
{
    match n {
        Expr::Tpl(es) => forall|i: int| 0 <= i < es@.len() ==> expr_safe(#[trigger] es@[i]),
        Expr::TaggedTpl(tag, es) => expr_safe(*tag) && forall|i: int| 0 <= i < es@.len() ==> expr_safe(#[trigger] es@[i]),
        Expr::Sequence(es) => forall|i: int| 0 <= i < es@.len() ==> expr_safe(#[trigger] es@[i]),
        Expr::Array(elems) => forall|i: int|
            0 <= i < elems@.len() ==> match #[trigger] elems@[i] {
                Some(e) => expr_safe(e),
                None => true,
            },
        Expr::Object(props) => forall|i: int|
            0 <= i < props@.len() ==> match #[trigger] props@[i] {
                PropOrSpread::Spread(e) => expr_safe(*e),
                PropOrSpread::KeyValue(_, e) => expr_safe(*e),
                _ => true,
            },
        Expr::Paren(e) => expr_safe(*e),
        Expr::Yield(arg) => match arg {
            Some(e) => expr_safe(*e),
            None => true,
        },
        Expr::Cond(a, b, c) => expr_safe(*a) && expr_safe(*b) && expr_safe(*c),
        Expr::Await(e) => expr_safe(*e),
        Expr::Arrow(a) => match a.body {
            BlockStmtOrExpr::BlockStmt(ss) => forall|i: int| 0 <= i < ss@.len() ==> stmt_safe(#[trigger] ss@[i]),
            BlockStmtOrExpr::Expr(e) => expr_safe(*e),
        },
        Expr::Call(c) => match c.callee {
            ExprOrSuper::Expr(e) => expr_safe(*e),
            ExprOrSuper::Super => true,
        },
        Expr::Update(e) => expr_safe(*e),
        Expr::Unary(e) => expr_safe(*e),
        Expr::Assign(left, right) => (match left {
            PatOrExpr::Expr(e) => expr_safe(*e),
            PatOrExpr::Pat(_) => true,
        }) && expr_safe(*right),
        Expr::OptChain(_) => false,
        Expr::Member(m) => (match m.obj {
            ExprOrSuper::Expr(e) => expr_safe(*e),
            ExprOrSuper::Super => true,
        }) && expr_safe(*m.prop),
        Expr::New(ne) => expr_safe(*ne.callee),
        Expr::Fn(_, f) => function_safe(f),
        Expr::Class(_, c) => class_safe(c),
        _ => true,
    }
}

/// Whether visiting a function stays clear of optional chaining.
pub open spec fn function_safe(f: Function) -> bool
    decreases f,
{
    match f.body {
        Some(ss) => forall|i: int| 0 <= i < ss@.len() ==> stmt_safe(#[trigger] ss@[i]),
        None => true,
    }
}

/// Whether visiting a class stays clear of optional chaining.
pub open spec fn class_safe(c: Class) -> bool
    decreases c,
{
    &&& match c.super_class {
        Some(e) => expr_safe(*e),
        None => true,
    }
    &&& forall|i: int| 0 <= i < c.body@.len() ==> member_safe(#[trigger] c.body@[i])
}

/// Whether visiting a class member stays clear of optional chaining.
pub open spec fn member_safe(m: ClassMember) -> bool
    decreases m,
{
    match m {
        ClassMember::Constructor(_, body) => match body {
            Some(ss) => forall|i: int| 0 <= i < ss@.len() ==> stmt_safe(#[trigger] ss@[i]),
            None => true,
        },
        ClassMember::Method(is_static, _, f) => !is_static ==> function_safe(f),
        ClassMember::PrivateMethod(is_static, _, f) => !is_static ==> function_safe(f),
        ClassMember::ClassProp(is_static, _, value) => !is_static ==> match value {
            Some(e) => expr_safe(*e),
            None => true,
        },
        ClassMember::PrivateProp(is_static, _, value) => !is_static ==> match value {
            Some(e) => expr_safe(*e),
            None => true,
        },
        _ => true,
    }
}

/// The scope after visiting a statement in it; `locals` are the locals of
/// the scope a block statement opens.
pub open spec fn stmt_effect(n: Stmt, s: ScopeView, locals: Seq<Seq<char>>) -> ScopeView
    decreases n,
{
    match n {
        Stmt::Decl(d) => match d {
            Decl::Fn(name, f) => function_effect(f, add_local(s, name@), Seq::empty()),
            Decl::Class(name, c) => class_effect(c, add_local(s, name@), Seq::empty()),
            Decl::Var(v) => decls_effect(v.decls@, s),
            Decl::Other => s,
        },
        Stmt::With(_, body) => add_child(s, stmt_effect(*body, empty_scope(Seq::empty()), Seq::empty())),
        Stmt::While(_, body) => add_child(s, stmt_effect(*body, empty_scope(Seq::empty()), Seq::empty())),
        Stmt::DoWhile(_, body) => add_child(s, stmt_effect(*body, empty_scope(Seq::empty()), Seq::empty())),
        Stmt::For(init, test, update, body) => {
            let c0 = empty_scope(Seq::empty());
            let c1 = match init {
                Some(VarDeclOrExpr::Expr(e)) => expr_effect(*e, c0),
                Some(VarDeclOrExpr::VarDecl(v)) => decls_effect(v.decls@, c0),
                None => c0,
            };
            let c2 = match test {
                Some(e) => expr_effect(*e, c1),
                None => c1,
            };
            let c3 = match update {
                Some(e) => expr_effect(*e, c2),
                None => c2,
            };
            add_child(s, stmt_effect(*body, c3, Seq::empty()))
        },
        Stmt::ForIn(_, _, body) => add_child(s, stmt_effect(*body, empty_scope(Seq::empty()), Seq::empty())),
        Stmt::ForOf(_, _, body) => add_child(s, stmt_effect(*body, empty_scope(Seq::empty()), Seq::empty())),
        Stmt::Labeled(body) => add_child(s, stmt_effect(*body, empty_scope(Seq::empty()), Seq::empty())),
        Stmt::If(_, cons, alt) => {
            let s1 = add_child(s, stmt_effect(*cons, empty_scope(Seq::empty()), Seq::empty()));
            match alt {
                Some(a) => add_child(s1, stmt_effect(*a, empty_scope(Seq::empty()), Seq::empty())),
                None => s1,
            }
        },
        Stmt::Try(block, handler, finalizer) => {
            let e = empty_scope(Seq::empty());
            let s1 = add_child(s, add_child(e, stmts_effect(block@, e)));
            let s2 = match handler {
                Some(h) => add_child(s1, add_child(e, stmts_effect(h.body@, e))),
                None => s1,
            };
            match finalizer {
                Some(f) => add_child(s2, add_child(e, stmts_effect(f@, e))),
                None => s2,
            }
        },
        Stmt::Switch(_, cases) => cases_effect(cases@, s),
        Stmt::Block(ss) => add_child(s, stmts_effect(ss@, empty_scope(locals))),
        Stmt::Return(arg) => match arg {
            Some(e) => expr_effect(*e, s),
            None => s,
        },
        Stmt::Expr(e) => expr_effect(*e, s),
        _ => s,
    }
}

/// The scope after visiting statements in it, in order.
pub open spec fn stmts_effect(ss: Seq<Stmt>, s: ScopeView) -> ScopeView
    decreases ss,
{
    if ss.len() == 0 {
        s
    } else {
        stmt_effect(ss[ss.len() - 1], stmts_effect(ss.subrange(0, ss.len() - 1), s), Seq::empty())
    }
}

/// The scope after visiting statements each in a child scope of its own.
pub open spec fn children_effect(ss: Seq<Stmt>, s: ScopeView) -> ScopeView
    decreases ss,
{
    if ss.len() == 0 {
        s
    } else {
        add_child(
            children_effect(ss.subrange(0, ss.len() - 1), s),
            stmt_effect(ss[ss.len() - 1], empty_scope(Seq::empty()), Seq::empty()),
        )
    }
}

/// The scope after visiting the statements of the cases of a switch.
pub open spec fn cases_effect(cases: Seq<SwitchCase>, s: ScopeView) -> ScopeView
    decreases cases,
{
    if cases.len() == 0 {
        s
    } else {
        children_effect(cases[cases.len() - 1].cons@, cases_effect(cases.subrange(0, cases.len() - 1), s))
    }
}

/// The scope after visiting the declarators of a variable declaration: a
/// declarator that binds names adds them as locals, then its initializer
/// is visited.
pub open spec fn decls_effect(ds: Seq<VarDeclarator>, s: ScopeView) -> ScopeView
    decreases ds,
{
    if ds.len() == 0 {
        s
    } else {
        let acc = decls_effect(ds.subrange(0, ds.len() - 1), s);
        let d = ds[ds.len() - 1];
        if binds_names(d.name) {
            let acc2 = add_locals(acc, pattern_names(d.name));
            match d.init {
                Some(e) => expr_effect(*e, acc2),
                None => acc2,
            }
        } else {
            acc
        }
    }
}

/// The scope after visiting an expression in it.
pub open spec fn expr_effect(n: Expr, s: ScopeView) -> ScopeView
    decreases n,
{
    match n {
        Expr::Ident(x) => add_ident(s, x@),
        Expr::PrivateName(x) => add_ident(s, private_word(x@)),
        Expr::Tpl(es) => exprs_effect(es@, s),
        Expr::TaggedTpl(tag, es) => exprs_effect(es@, expr_effect(*tag, s)),
        Expr::Sequence(es) => exprs_effect(es@, s),
        Expr::Array(elems) => opt_exprs_effect(elems@, s),
        Expr::Object(props) => props_effect(props@, s),
        Expr::Paren(e) => expr_effect(*e, s),
        Expr::Yield(arg) => match arg {
            Some(e) => expr_effect(*e, s),
            None => s,
        },
        Expr::Cond(a, b, c) => expr_effect(*c, expr_effect(*b, expr_effect(*a, s))),
        Expr::Await(e) => expr_effect(*e, s),
        Expr::Arrow(a) => match a.body {
            BlockStmtOrExpr::BlockStmt(ss) => add_child(
                s,
                stmts_effect(ss@, empty_scope(params_locals(a.params@, Seq::empty()))),
            ),
            BlockStmtOrExpr::Expr(e) => expr_effect(*e, s),
        },
        Expr::Call(c) => match c.callee {
            ExprOrSuper::Expr(e) => expr_effect(*e, s),
            ExprOrSuper::Super => s,
        },
        Expr::Update(e) => expr_effect(*e, s),
        Expr::Unary(e) => expr_effect(*e, s),
        Expr::Assign(left, right) => {
            let s1 = match left {
                PatOrExpr::Expr(e) => expr_effect(*e, s),
                PatOrExpr::Pat(p) => match *p {
                    Pat::Ident(x) => add_ident(s, x@),
                    _ => s,
                },
            };
            expr_effect(*right, s1)
        },
        Expr::Member(m) => {
            let s1 = match m.obj {
                ExprOrSuper::Expr(e) => expr_effect(*e, s),
                ExprOrSuper::Super => s,
            };
            expr_effect(*m.prop, s1)
        },
        Expr::New(ne) => expr_effect(*ne.callee, s),
        Expr::Fn(name, f) => function_effect(
            f,
            s,
            match name {
                Some(x) => seq![x@],
                None => Seq::empty(),
            },
        ),
        Expr::Class(name, c) => class_effect(
            c,
            s,
            match name {
                Some(x) => seq![x@],
                None => Seq::empty(),
            },
        ),
        _ => s,
    }
}

/// The scope after visiting expressions in it, in order.
pub open spec fn exprs_effect(es: Seq<Expr>, s: ScopeView) -> ScopeView
    decreases es,
{
    if es.len() == 0 {
        s
    } else {
        expr_effect(es[es.len() - 1], exprs_effect(es.subrange(0, es.len() - 1), s))
    }
}

/// The scope after visiting the present elements of an array literal.
pub open spec fn opt_exprs_effect(es: Seq<Option<Expr>>, s: ScopeView) -> ScopeView
    decreases es,
{
    if es.len() == 0 {
        s
    } else {
        let acc = opt_exprs_effect(es.subrange(0, es.len() - 1), s);
        match es[es.len() - 1] {
            Some(e) => expr_effect(e, acc),
            None => acc,
        }
    }
}

/// The scope after visiting the properties of an object literal: a spread
/// or a value is visited, a shorthand name is a reference.
pub open spec fn props_effect(ps: Seq<PropOrSpread>, s: ScopeView) -> ScopeView
    decreases ps,
{
    if ps.len() == 0 {
        s
    } else {
        let acc = props_effect(ps.subrange(0, ps.len() - 1), s);
        match ps[ps.len() - 1] {
            PropOrSpread::Spread(e) => expr_effect(*e, acc),
            PropOrSpread::Shorthand(x) => add_ident(acc, x@),
            PropOrSpread::KeyValue(_, e) => expr_effect(*e, acc),
            _ => acc,
        }
    }
}

/// The scope after visiting a function: its body opens a child scope whose
/// locals are the given ones and the names its parameters bind.
pub open spec fn function_effect(f: Function, s: ScopeView, locals: Seq<Seq<char>>) -> ScopeView
    decreases f,
{
    match f.body {
        Some(ss) => add_child(s, stmts_effect(ss@, empty_scope(params_locals(f.params@, locals)))),
        None => s,
    }
}

/// The scope after visiting a class: its super class is a reference of the
/// scope, its members fill a child scope whose locals are the given ones,
/// and the names of its instance members become locals of the scope.
pub open spec fn class_effect(c: Class, s: ScopeView, locals: Seq<Seq<char>>) -> ScopeView
    decreases c,
{
    let s1 = match c.super_class {
        Some(e) => expr_effect(*e, s),
        None => s,
    };
    let r = members_effect(c.body@, s1, empty_scope(locals));
    add_child(r.0, r.1)
}

/// The enclosing scope and the class scope after visiting class members.
pub open spec fn members_effect(ms: Seq<ClassMember>, s: ScopeView, next: ScopeView) -> (ScopeView, ScopeView)
    decreases ms,
{
    if ms.len() == 0 {
        (s, next)
    } else {
        let r = members_effect(ms.subrange(0, ms.len() - 1), s, next);
        match ms[ms.len() - 1] {
            ClassMember::Constructor(_, body) => match body {
                Some(ss) => (r.0, add_child(r.1, stmts_effect(ss@, empty_scope(Seq::empty())))),
                None => r,
            },
            ClassMember::Method(is_static, key, f) => if is_static {
                r
            } else {
                (
                    keyed_local(r.0, key),
                    function_effect(f, r.1, Seq::empty()),
                )
            },
            ClassMember::PrivateMethod(is_static, name, f) => if is_static {
                r
            } else {
                (add_local(r.0, name@), function_effect(f, r.1, Seq::empty()))
            },
            ClassMember::ClassProp(is_static, key, value) => if is_static {
                r
            } else {
                (
                    keyed_local(r.0, key),
                    match value {
                        Some(e) => expr_effect(*e, r.1),
                        None => r.1,
                    },
                )
            },
            ClassMember::PrivateProp(is_static, name, value) => if is_static {
                r
            } else {
                (
                    add_local(r.0, private_word(name@)),
                    match value {
                        Some(e) => expr_effect(*e, r.1),
                        None => r.1,
                    },
                )
            },
            _ => r,
        }
    }
}


/// A scope with the name of an identifier key among its locals.
pub open spec fn keyed_local(s: ScopeView, key: PropName) -> ScopeView {
    match key {
        PropName::Ident(k) => add_local(s, k@),
        _ => s,
    }
}

/// The locals a scope opens with.
pub open spec fn opt_locals(locals: Option<IndexSet<String>>) -> Seq<Seq<char>> {
    match locals {
        Some(l) => name_items(l),
        None => Seq::empty(),
    }
}

/// The text a private name is recorded as.
fn private_name_prefix(word: &String) -> (r: String)
    ensures
        r@ == private_word(word@),
{
    proof {
        reveal_strlit("#");
    }
    crate::text::concat("#", word.as_str())
}

/// Whether a pattern binds names.
fn is_binding(p: &Pat) -> (r: bool)
    ensures
        r == binds_names(*p),
{
    match p {
        Pat::Ident(_) => true,
        Pat::Object(_) => true,
        Pat::Array(_) => true,
        Pat::Rest(_) => true,
        Pat::Assign(_, _) => true,
        _ => false,
    }
}

/// Insert names into a set of names, in order.
fn insert_words(set: &mut IndexSet<String>, words: &Vec<String>)
    ensures
        name_items(*final(set)) == insert_all(name_items(*old(set)), words_view(words@)),
{
    let mut j: usize = 0;
    while j < words.len()
        invariant
            j <= words@.len(),
            name_items(*set) == insert_all(name_items(*old(set)), words_view(words@.take(j as int))),
        decreases words@.len() - j,
    {
        names_insert(set, words[j].clone());
        proof {
            assert(words_view(words@.take(j as int + 1)).drop_last() =~= words_view(words@.take(j as int)));
        }
        j = j + 1;
    }
    assert(words@.take(words@.len() as int) =~= words@);
}

/// The locals of a function's scope: the given ones and the names its
/// parameters bind.
fn param_names(params: &Vec<Pat>, locals: IndexSet<String>) -> (r: IndexSet<String>)
    ensures
        name_items(r) == params_locals(params@, name_items(locals)),
{
    let mut set = locals;
    let mut i: usize = 0;
    while i < params.len()
        invariant
            i <= params@.len(),
            name_items(set) == params_locals(params@.take(i as int), name_items(locals)),
        decreases params@.len() - i,
    {
        let mut names: Vec<String> = Vec::new();
        pattern_words(&params[i], &mut names);
        assert(words_view(names@) =~= pattern_names(params@[i as int]));
        insert_words(&mut set, &names);
        proof {
            let t = params@.take(i as int + 1);
            assert(t.drop_last() =~= params@.take(i as int));
            assert(t.last() == params@[i as int]);
        }
        i = i + 1;
    }
    assert(params@.take(params@.len() as int) =~= params@);
    set
}

impl Scope {
    /// Add local names.
    fn add_locals(&mut self, words: &Vec<String>)
        ensures
            final(self)@ == add_locals(old(self)@, words_view(words@)),
    {
        insert_words(&mut self.locals, words);
    }
}

/// Visit statements in a scope, in order.
fn visit_stmts(ss: &Vec<Stmt>, scope: &mut Scope)
    requires
        forall|i: int| 0 <= i < ss@.len() ==> stmt_safe(#[trigger] ss@[i]),
    ensures
        final(scope)@ == stmts_effect(ss@, old(scope)@),
    decreases ss, 0nat,
{
    let mut i: usize = 0;
    while i < ss.len()
        invariant
            i <= ss@.len(),
            forall|k: int| 0 <= k < ss@.len() ==> stmt_safe(#[trigger] ss@[k]),
            scope@ == stmts_effect(ss@.take(i as int), old(scope)@),
        decreases ss@.len() - i,
    {
        proof {
            assert(decreases_to!(*ss => ss[i as int]));
            let t = ss@.take(i as int + 1);
            assert(t.subrange(0, t.len() - 1) =~= ss@.take(i as int));
            assert(t[t.len() - 1] == ss@[i as int]);
        }
        visit_stmt(&ss[i], scope, None);
        i = i + 1;
    }
    assert(ss@.take(ss@.len() as int) =~= ss@);
}

/// Visit a block of statements in a child scope with the given locals.
fn visit_block(ss: &Vec<Stmt>, scope: &mut Scope, locals: Option<IndexSet<String>>)
    requires
        forall|i: int| 0 <= i < ss@.len() ==> stmt_safe(#[trigger] ss@[i]),
    ensures
        final(scope)@ == add_child(old(scope)@, stmts_effect(ss@, empty_scope(opt_locals(locals)))),
    decreases ss, 1nat,
{
    let mut next_scope = Scope::new(locals);
    visit_stmts(ss, &mut next_scope);
    scope.push_child(next_scope);
}

/// Visit a statement in a child scope of its own.
fn visit_child(n: &Stmt, scope: &mut Scope)
    requires
        stmt_safe(*n),
    ensures
        final(scope)@ == add_child(old(scope)@, stmt_effect(*n, empty_scope(Seq::empty()), Seq::empty())),
    decreases n, 3nat,
{
    let mut next_scope = Scope::new(None);
    visit_stmt(n, &mut next_scope, None);
    scope.push_child(next_scope);
}

/// Visit a variable declaration: the names each declarator binds become
/// locals, then its initializer is visited.
fn visit_var_decl(n: &VarDecl, scope: &mut Scope)
    requires
        forall|i: int| 0 <= i < n.decls@.len() ==> decl_safe(#[trigger] n.decls@[i]),
    ensures
        final(scope)@ == decls_effect(n.decls@, old(scope)@),
    decreases n, 0nat,
{
    let mut i: usize = 0;
    assert(decreases_to!(*n => n.decls));
    while i < n.decls.len()
        invariant
            decreases_to!(*n => n.decls),
            i <= n.decls@.len(),
            forall|k: int| 0 <= k < n.decls@.len() ==> decl_safe(#[trigger] n.decls@[k]),
            scope@ == decls_effect(n.decls@.take(i as int), old(scope)@),
        decreases n.decls@.len() - i,
    {
        let decl = &n.decls[i];
        proof {
            assert(decreases_to!(n.decls => n.decls[i as int]));
            let t = n.decls@.take(i as int + 1);
            assert(t.subrange(0, t.len() - 1) =~= n.decls@.take(i as int));
            assert(t[t.len() - 1] == n.decls@[i as int]);
            assert(decl_safe(*decl));
        }
        if is_binding(&decl.name) {
            let mut names: Vec<String> = Vec::new();
            pattern_words(&decl.name, &mut names);
            assert(words_view(names@) =~= pattern_names(decl.name));
            scope.add_locals(&names);
            if let Some(init) = &decl.init {
                visit_expr(init, scope);
            }
        }
        i = i + 1;
    }
    assert(n.decls@.take(n.decls@.len() as int) =~= n.decls@);
}

/// Visit a statement in a scope; `locals` are the locals of the scope a
/// block statement opens.
fn visit_stmt(n: &Stmt, scope: &mut Scope, locals: Option<IndexSet<String>>)
    requires
        stmt_safe(*n),
    ensures
        final(scope)@ == stmt_effect(*n, old(scope)@, opt_locals(locals)),
    decreases n, 2nat,
{
    match n {
        Stmt::Decl(decl) => {
            match decl {
                Decl::Fn(ident, function) => {
                    scope.add_local(ident.clone());
                    visit_function(function, scope, names_new());
                },
                Decl::Class(ident, class) => {
                    scope.add_local(ident.clone());
                    visit_class(class, scope, None);
                },
                Decl::Var(var) => {
                    visit_var_decl(var, scope);
                },
                Decl::Other => {},
            }
        },
        Stmt::With(_, body) => visit_child(body, scope),
        Stmt::While(_, body) => visit_child(body, scope),
        Stmt::DoWhile(_, body) => visit_child(body, scope),
        Stmt::For(init, test, update, body) => {
            let mut next_scope = Scope::new(None);
            match init {
                Some(VarDeclOrExpr::Expr(e)) => visit_expr(e, &mut next_scope),
                Some(VarDeclOrExpr::VarDecl(v)) => visit_var_decl(v, &mut next_scope),
                None => {},
            }
            if let Some(test) = test {
                visit_expr(test, &mut next_scope);
            }
            if let Some(update) = update {
                visit_expr(update, &mut next_scope);
            }
            visit_stmt(body, &mut next_scope, None);
            scope.push_child(next_scope);
        },
        Stmt::ForIn(_, _, body) => visit_child(body, scope),
        Stmt::ForOf(_, _, body) => visit_child(body, scope),
        Stmt::Labeled(body) => visit_child(body, scope),
        Stmt::If(_, cons, alt) => {
            visit_child(cons, scope);
            if let Some(alt) = alt {
                visit_child(alt, scope);
            }
        },
        Stmt::Try(block, handler, finalizer) => {
            let mut next_scope = Scope::new(None);
            visit_block(block, &mut next_scope, None);
            scope.push_child(next_scope);
            if let Some(catch_clause) = handler {
                let mut next_scope = Scope::new(None);
                visit_block(&catch_clause.body, &mut next_scope, None);
                scope.push_child(next_scope);
            }
            if let Some(finalizer) = finalizer {
                let mut next_scope = Scope::new(None);
                visit_block(finalizer, &mut next_scope, None);
                scope.push_child(next_scope);
            }
        },
        Stmt::Switch(discriminant, cases) => {
            let ghost s0 = scope@;
            let mut i: usize = 0;
            assert(decreases_to!(*n => *cases));
            assert(forall|k: int|
                0 <= k < cases@.len() ==> forall|j: int|
                    0 <= j < (#[trigger] cases@[k]).cons@.len() ==> stmt_safe(#[trigger] cases@[k].cons@[j]));
            while i < cases.len()
                invariant
                    *n == Stmt::Switch(*discriminant, *cases),
                    decreases_to!(*n => *cases),
                    forall|k: int|
                        0 <= k < cases@.len() ==> forall|j: int|
                            0 <= j < (#[trigger] cases@[k]).cons@.len() ==> stmt_safe(#[trigger] cases@[k].cons@[j]),
                    i <= cases@.len(),
                    scope@ == cases_effect(cases@.take(i as int), s0),
                decreases cases@.len() - i,
            {
                let case = &cases[i].cons;
                proof {
                    assert(decreases_to!(*cases => cases[i as int]));
                    assert(decreases_to!(cases[i as int] => cases[i as int].cons));
                    let t = cases@.take(i as int + 1);
                    assert(t.subrange(0, t.len() - 1) =~= cases@.take(i as int));
                    assert(t[t.len() - 1] == cases@[i as int]);
                }
                let ghost c0 = scope@;
                let mut j: usize = 0;
                while j < case.len()
                    invariant
                        decreases_to!(*n => *case),
                        *case == cases@[i as int].cons,
                        forall|k: int| 0 <= k < case@.len() ==> stmt_safe(#[trigger] case@[k]),
                        *n == Stmt::Switch(*discriminant, *cases),
                        i < cases@.len(),
                        j <= case@.len(),
                        scope@ == children_effect(case@.take(j as int), c0),
                    decreases case@.len() - j,
                {
                    proof {
                        assert(decreases_to!(*case => case[j as int]));
                        let t = case@.take(j as int + 1);
                        assert(t.subrange(0, t.len() - 1) =~= case@.take(j as int));
                        assert(t[t.len() - 1] == case@[j as int]);
                        assert(stmt_safe(case@[j as int]));
                    }
                    visit_child(&case[j], scope);
                    j = j + 1;
                }
                proof {
                    assert(case@.take(case@.len() as int) =~= case@);
                }
                i = i + 1;
            }
            assert(cases@.take(cases@.len() as int) =~= cases@);
        },
        Stmt::Block(stmts) => visit_block(stmts, scope, locals),
        Stmt::Return(arg) => {
            if let Some(arg) = arg {
                visit_expr(arg, scope);
            }
        },
        Stmt::Expr(e) => visit_expr(e, scope),
        _ => {},
    }
}

/// Visit expressions in a scope, in order.
fn visit_exprs(es: &Vec<Expr>, scope: &mut Scope)
    requires
        forall|i: int| 0 <= i < es@.len() ==> expr_safe(#[trigger] es@[i]),
    ensures
        final(scope)@ == exprs_effect(es@, old(scope)@),
    decreases es, 0nat,
{
    let mut i: usize = 0;
    while i < es.len()
        invariant
            i <= es@.len(),
            forall|k: int| 0 <= k < es@.len() ==> expr_safe(#[trigger] es@[k]),
            scope@ == exprs_effect(es@.take(i as int), old(scope)@),
        decreases es@.len() - i,
    {
        proof {
            assert(decreases_to!(*es => es[i as int]));
            let t = es@.take(i as int + 1);
            assert(t.subrange(0, t.len() - 1) =~= es@.take(i as int));
            assert(t[t.len() - 1] == es@[i as int]);
        }
        visit_expr(&es[i], scope);
        i = i + 1;
    }
    assert(es@.take(es@.len() as int) =~= es@);
}

/// Visit the present elements of an array literal.
fn visit_opt_exprs(es: &Vec<Option<Expr>>, scope: &mut Scope)
    requires
        forall|i: int|
            0 <= i < es@.len() ==> match #[trigger] es@[i] {
                Some(e) => expr_safe(e),
                None => true,
            },
    ensures
        final(scope)@ == opt_exprs_effect(es@, old(scope)@),
    decreases es, 0nat,
{
    let mut i: usize = 0;
    while i < es.len()
        invariant
            i <= es@.len(),
            forall|k: int|
                0 <= k < es@.len() ==> match #[trigger] es@[k] {
                    Some(e) => expr_safe(e),
                    None => true,
                },
            scope@ == opt_exprs_effect(es@.take(i as int), old(scope)@),
        decreases es@.len() - i,
    {
        proof {
            let t = es@.take(i as int + 1);
            assert(t.subrange(0, t.len() - 1) =~= es@.take(i as int));
            assert(t[t.len() - 1] == es@[i as int]);
        }
        if let Some(e) = &es[i] {
            proof {
                assert(decreases_to!(*es => es[i as int]));
            }
            visit_expr(e, scope);
        }
        i = i + 1;
    }
    assert(es@.take(es@.len() as int) =~= es@);
}

/// Visit the properties of an object literal.
fn visit_props(ps: &Vec<PropOrSpread>, scope: &mut Scope)
    requires
        forall|i: int|
            0 <= i < ps@.len() ==> match #[trigger] ps@[i] {
                PropOrSpread::Spread(e) => expr_safe(*e),
                PropOrSpread::KeyValue(_, e) => expr_safe(*e),
                _ => true,
            },
    ensures
        final(scope)@ == props_effect(ps@, old(scope)@),
    decreases ps, 0nat,
{
    let mut i: usize = 0;
    while i < ps.len()
        invariant
            i <= ps@.len(),
            forall|k: int|
                0 <= k < ps@.len() ==> match #[trigger] ps@[k] {
                    PropOrSpread::Spread(e) => expr_safe(*e),
                    PropOrSpread::KeyValue(_, e) => expr_safe(*e),
                    _ => true,
                },
            scope@ == props_effect(ps@.take(i as int), old(scope)@),
        decreases ps@.len() - i,
    {
        proof {
            assert(decreases_to!(*ps => ps[i as int]));
            let t = ps@.take(i as int + 1);
            assert(t.subrange(0, t.len() - 1) =~= ps@.take(i as int));
            assert(t[t.len() - 1] == ps@[i as int]);
        }
        match &ps[i] {
            PropOrSpread::Spread(e) => visit_expr(e, scope),
            PropOrSpread::Shorthand(x) => scope.add_ident(x.clone()),
            PropOrSpread::KeyValue(_, e) => visit_expr(e, scope),
            _ => {},
        }
        i = i + 1;
    }
    assert(ps@.take(ps@.len() as int) =~= ps@);
}

/// Visit an expression in a scope: identifiers are references.
fn visit_expr(n: &Expr, scope: &mut Scope)
    requires
        expr_safe(*n),
    ensures
        final(scope)@ == expr_effect(*n, old(scope)@),
    decreases n, 2nat,
{
    match n {
        Expr::Ident(id) => scope.add_ident(id.clone()),
        Expr::PrivateName(id) => scope.add_ident(private_name_prefix(id)),
        Expr::Tpl(es) => visit_exprs(es, scope),
        Expr::TaggedTpl(tag, es) => {
            visit_expr(tag, scope);
            visit_exprs(es, scope);
        },
        Expr::Sequence(es) => visit_exprs(es, scope),
        Expr::Array(elems) => visit_opt_exprs(elems, scope),
        Expr::Object(props) => visit_props(props, scope),
        Expr::Paren(e) => visit_expr(e, scope),
        Expr::Yield(arg) => {
            if let Some(arg) = arg {
                visit_expr(arg, scope);
            }
        },
        Expr::Cond(test, cons, alt) => {
            visit_expr(test, scope);
            visit_expr(cons, scope);
            visit_expr(alt, scope);
        },
        Expr::Await(e) => visit_expr(e, scope),
        Expr::Arrow(arrow) => {
            let func_param_names = param_names(&arrow.params, names_new());
            match &arrow.body {
                BlockStmtOrExpr::BlockStmt(block) => visit_block(block, scope, Some(func_param_names)),
                BlockStmtOrExpr::Expr(e) => visit_expr(e, scope),
            }
        },
        Expr::Call(call) => {
            match &call.callee {
                ExprOrSuper::Expr(e) => visit_expr(e, scope),
                ExprOrSuper::Super => {},
            }
        },
        Expr::Update(e) => visit_expr(e, scope),
        Expr::Unary(e) => visit_expr(e, scope),
        Expr::Assign(left, right) => {
            match left {
                PatOrExpr::Expr(e) => visit_expr(e, scope),
                PatOrExpr::Pat(pat) => {
                    match &**pat {
                        Pat::Ident(id) => scope.add_ident(id.clone()),
                        _ => {},
                    }
                },
            }
            visit_expr(right, scope);
        },
        Expr::Member(member) => {
            match &member.obj {
                ExprOrSuper::Expr(e) => visit_expr(e, scope),
                ExprOrSuper::Super => {},
            }
            visit_expr(&member.prop, scope);
        },
        Expr::New(ne) => visit_expr(&ne.callee, scope),
        Expr::Fn(ident, function) => {
            let mut locals = names_new();
            if let Some(id) = ident {
                names_insert(&mut locals, id.clone());
            }
            visit_function(function, scope, locals);
        },
        Expr::Class(ident, class) => {
            let locals = match ident {
                Some(id) => {
                    let mut set = names_new();
                    names_insert(&mut set, id.clone());
                    Some(set)
                },
                None => None,
            };
            visit_class(class, scope, locals);
        },
        _ => {},
    }
}

/// Visit a function: its body opens a child scope whose locals are the
/// given ones and the names its parameters bind.
fn visit_function(n: &Function, scope: &mut Scope, locals: IndexSet<String>)
    requires
        function_safe(*n),
    ensures
        final(scope)@ == function_effect(*n, old(scope)@, name_items(locals)),
    decreases n, 2nat,
{
    let locals = param_names(&n.params, locals);
    if let Some(body) = &n.body {
        visit_block(body, scope, Some(locals));
    }
}

/// Visit a class: its super class in the scope, its members in a child
/// scope whose locals are the given ones.
fn visit_class(n: &Class, scope: &mut Scope, locals: Option<IndexSet<String>>)
    requires
        class_safe(*n),
    ensures
        final(scope)@ == class_effect(*n, old(scope)@, opt_locals(locals)),
    decreases n, 2nat,
{
    let ghost l = opt_locals(locals);
    let mut next_scope = Scope::new(locals);
    if let Some(super_class) = &n.super_class {
        visit_expr(super_class, scope);
    }
    let ghost s1 = scope@;
    let mut i: usize = 0;
    assert(decreases_to!(*n => n.body));
    while i < n.body.len()
        invariant
            decreases_to!(*n => n.body),
            class_safe(*n),
            i <= n.body@.len(),
            (scope@, next_scope@) == members_effect(n.body@.take(i as int), s1, empty_scope(l)),
        decreases n.body@.len() - i,
    {
        let member = &n.body[i];
        proof {
            assert(decreases_to!(n.body => n.body[i as int]));
            let t = n.body@.take(i as int + 1);
            assert(t.subrange(0, t.len() - 1) =~= n.body@.take(i as int));
            assert(t[t.len() - 1] == n.body@[i as int]);
            assert(member_safe(*member));
        }
        match member {
            ClassMember::Constructor(_, body) => {
                if let Some(body) = body {
                    visit_block(body, &mut next_scope, None);
                }
            },
            ClassMember::Method(is_static, key, function) => {
                if !*is_static {
                    match key {
                        PropName::Ident(id) => scope.add_local(id.clone()),
                        _ => {},
                    }
                    visit_function(function, &mut next_scope, names_new());
                }
            },
            ClassMember::PrivateMethod(is_static, name, function) => {
                if !*is_static {
                    scope.add_local(name.clone());
                    visit_function(function, &mut next_scope, names_new());
                }
            },
            ClassMember::ClassProp(is_static, key, value) => {
                if !*is_static {
                    match key {
                        PropName::Ident(id) => scope.add_local(id.clone()),
                        _ => {},
                    }
                    if let Some(value) = value {
                        visit_expr(value, &mut next_scope);
                    }
                }
            },
            ClassMember::PrivateProp(is_static, name, value) => {
                if !*is_static {
                    scope.add_local(private_name_prefix(name));
                    if let Some(value) = value {
                        visit_expr(value, &mut next_scope);
                    }
                }
            },
            _ => {},
        }
        i = i + 1;
    }
    assert(n.body@.take(n.body@.len() as int) =~= n.body@);
    scope.push_child(next_scope);
}


/// The local names of the specifiers of an import declaration.
pub open spec fn import_names(specs: Seq<ImportSpecifier>) -> Seq<Seq<char>>
    decreases specs.len(),
{
    if specs.len() == 0 {
        Seq::empty()
    } else {
        import_names(specs.drop_last()).push(
            match specs.last() {
                ImportSpecifier::Named(x, _) => x@,
                ImportSpecifier::Default(x) => x@,
                ImportSpecifier::Namespace(x) => x@,
            },
        )
    }
}

/// Whether visiting a module item stays clear of optional chaining.
pub open spec fn item_safe(n: ModuleItem) -> bool {
    match n {
        ModuleItem::Stmt(s) => stmt_safe(s),
        _ => true,
    }
}

/// The root scope after visiting a module item: the names an import
/// declaration binds become locals, a statement is visited.
pub open spec fn item_effect(n: ModuleItem, s: ScopeView) -> ScopeView {
    match n {
        ModuleItem::Import(decl) => add_locals(s, import_names(decl.specifiers@)),
        ModuleItem::Stmt(st) => stmt_effect(st, s, Seq::empty()),
        ModuleItem::Export(_) => s,
    }
}

/// The root scope after visiting module items, in order.
pub open spec fn items_effect(items: Seq<ModuleItem>, s: ScopeView) -> ScopeView
    decreases items.len(),
{
    if items.len() == 0 {
        s
    } else {
        item_effect(items.last(), items_effect(items.drop_last(), s))
    }
}

impl ScopeAnalysis {
    /// Visit a module item.
    pub fn visit_module_item(&mut self, n: &ModuleItem)
        requires
            item_safe(*n),
        ensures
            final(self)@ == item_effect(*n, old(self)@),
    {
        match n {
            ModuleItem::Import(import) => {
                let ghost s0 = self.root@;
                let mut i: usize = 0;
                while i < import.specifiers.len()
                    invariant
                        i <= import.specifiers@.len(),
                        self.root@ == add_locals(s0, import_names(import.specifiers@.take(i as int))),
                    decreases import.specifiers@.len() - i,
                {
                    let ident = match &import.specifiers[i] {
                        ImportSpecifier::Named(x, _) => x,
                        ImportSpecifier::Default(x) => x,
                        ImportSpecifier::Namespace(x) => x,
                    };
                    self.root.add_local(ident.clone());
                    proof {
                        let t = import.specifiers@.take(i as int + 1);
                        assert(t.drop_last() =~= import.specifiers@.take(i as int));
                        assert(t.last() == import.specifiers@[i as int]);
                        let names = import_names(t);
                        assert(names.drop_last() =~= import_names(import.specifiers@.take(i as int)));
                        assert(names.last() == ident@);
                        assert(insert_all(s0.locals, names) == inserted(insert_all(s0.locals, names.drop_last()), names.last()));
                    }
                    i = i + 1;
                }
                assert(import.specifiers@.take(import.specifiers@.len() as int) =~= import.specifiers@);
            },
            ModuleItem::Stmt(stmt) => visit_stmt(stmt, &mut self.root, None),
            ModuleItem::Export(_) => {},
        }
    }

    /// Visit the items of a module in order, building the scope tree.
    pub fn visit_module(&mut self, module: &Module)
        requires
            forall|i: int| 0 <= i < module.body@.len() ==> item_safe(#[trigger] module.body@[i]),
        ensures
            final(self)@ == items_effect(module.body@, old(self)@),
    {
        let mut i: usize = 0;
        while i < module.body.len()
            invariant
                i <= module.body@.len(),
                forall|k: int| 0 <= k < module.body@.len() ==> item_safe(#[trigger] module.body@[k]),
                self@ == items_effect(module.body@.take(i as int), old(self)@),
            decreases module.body@.len() - i,
        {
            proof {
                let t = module.body@.take(i as int + 1);
                assert(t.drop_last() =~= module.body@.take(i as int));
                assert(t.last() == module.body@[i as int]);
            }
            self.visit_module_item(&module.body[i]);
            i = i + 1;
        }
        assert(module.body@.take(module.body@.len() as int) =~= module.body@);
    }
}

/// A name is not global in a scope tree when it is local to its root: no
/// global of a scope is among the locals in scope there.
pub proof fn lemma_block_globals_not_local(s: ScopeView, outer: Set<Seq<char>>, x: Seq<char>)
    requires
        outer.contains(x) || s.locals.contains(x),
    ensures
        !block_globals(s, outer).contains(x),
    decreases s,
{
    let env = outer.union(s.locals.to_set());
    assert(env.contains(x));
    lemma_unbound_words_exclude(s.idents, env, x);
    lemma_children_block_globals_exclude(s.scopes, env, x);
}

/// No name among the locals in scope is an unbound reference.
proof fn lemma_unbound_words_exclude(idents: Seq<Seq<char>>, env: Set<Seq<char>>, x: Seq<char>)
    requires
        env.contains(x),
    ensures
        !unbound_words(idents, env).contains(x),
    decreases idents.len(),
{
    if idents.len() > 0 {
        lemma_unbound_words_exclude(idents.drop_last(), env, x);
        let prev = unbound_words(idents.drop_last(), env);
        if !env.contains(idents.last()) {
            assert forall|i: int| 0 <= i < prev.push(idents.last()).len() implies prev.push(idents.last())[i] != x by {
                if i < prev.len() {
                    assert(prev.push(idents.last())[i] == prev[i]);
                    assert(prev.contains(prev[i]));
                }
            }
        }
    }
}

/// No name among the locals in scope is a global of child scope trees.
proof fn lemma_children_block_globals_exclude(cs: Seq<ScopeView>, env: Set<Seq<char>>, x: Seq<char>)
    requires
        env.contains(x),
    ensures
        !children_block_globals(cs, env).contains(x),
    decreases cs,
{
    if cs.len() > 0 {
        let sub = cs.subrange(0, cs.len() - 1);
        lemma_children_block_globals_exclude(sub, env, x);
        lemma_block_globals_not_local(cs[cs.len() - 1], env, x);
        let a = children_block_globals(sub, env);
        let b = block_globals(cs[cs.len() - 1], env);
        assert forall|i: int| 0 <= i < (a + b).len() implies (a + b)[i] != x by {
            if i < a.len() {
                assert((a + b)[i] == a[i]);
                assert(a.contains(a[i]));
            } else {
                assert((a + b)[i] == b[i - a.len()]);
                assert(b.contains(b[i - a.len()]));
            }
        }
    }
}


/// Whether visiting a statement stays clear of optional chaining.
fn stmt_is_safe(n: &Stmt) -> (r: bool)
    ensures
        r == stmt_safe(*n),
    decreases n, 2nat,
{
    match n {
        Stmt::Decl(d) => match d {
            Decl::Fn(_, f) => function_is_safe(f),
            Decl::Class(_, c) => class_is_safe(c),
            Decl::Var(v) => decls_are_safe(v),
            Decl::Other => true,
        },
        Stmt::With(_, body) => stmt_is_safe(body),
        Stmt::While(_, body) => stmt_is_safe(body),
        Stmt::DoWhile(_, body) => stmt_is_safe(body),
        Stmt::For(init, test, update, body) => {
            let a = match init {
                Some(VarDeclOrExpr::Expr(e)) => expr_is_safe(e),
                Some(VarDeclOrExpr::VarDecl(v)) => decls_are_safe(v),
                None => true,
            };
            let b = match test {
                Some(e) => expr_is_safe(e),
                None => true,
            };
            let c = match update {
                Some(e) => expr_is_safe(e),
                None => true,
            };
            a && b && c && stmt_is_safe(body)
        },
        Stmt::ForIn(_, _, body) => stmt_is_safe(body),
        Stmt::ForOf(_, _, body) => stmt_is_safe(body),
        Stmt::Labeled(body) => stmt_is_safe(body),
        Stmt::If(_, cons, alt) => {
            let a = stmt_is_safe(cons);
            let b = match alt {
                Some(alt) => stmt_is_safe(alt),
                None => true,
            };
            a && b
        },
        Stmt::Try(block, handler, finalizer) => {
            let a = stmts_are_safe(block);
            let b = match handler {
                Some(h) => stmts_are_safe(&h.body),
                None => true,
            };
            let c = match finalizer {
                Some(f) => stmts_are_safe(f),
                None => true,
            };
            a && b && c
        },
        Stmt::Switch(_, cases) => {
            let r = cases_are_safe(cases);
            assert(stmt_safe(*n) <==> forall|k: int|
                0 <= k < cases@.len() ==> forall|j: int|
                    0 <= j < (#[trigger] cases@[k]).cons@.len() ==> stmt_safe(#[trigger] cases@[k].cons@[j]));
            r
        },
        Stmt::Block(ss) => stmts_are_safe(ss),
        Stmt::Return(arg) => match arg {
            Some(e) => expr_is_safe(e),
            None => true,
        },
        Stmt::Expr(e) => expr_is_safe(e),
        _ => true,
    }
}

/// Whether visiting each of a list of statements stays clear of optional
/// chaining.
fn stmts_are_safe(ss: &Vec<Stmt>) -> (r: bool)
    ensures
        r == forall|i: int| 0 <= i < ss@.len() ==> stmt_safe(#[trigger] ss@[i]),
    decreases ss, 0nat,
{
    let mut i: usize = 0;
    while i < ss.len()
        invariant
            i <= ss@.len(),
            forall|k: int| 0 <= k < i ==> stmt_safe(#[trigger] ss@[k]),
        decreases ss@.len() - i,
    {
        proof {
            assert(decreases_to!(*ss => ss[i as int]));
        }
        if !stmt_is_safe(&ss[i]) {
            return false;
        }
        i = i + 1;
    }
    true
}

/// Whether visiting the declarators of a declaration stays clear of
/// optional chaining.
fn decls_are_safe(v: &VarDecl) -> (r: bool)
    ensures
        r == forall|i: int| 0 <= i < v.decls@.len() ==> decl_safe(#[trigger] v.decls@[i]),
    decreases v, 0nat,
{
    let mut i: usize = 0;
    assert(decreases_to!(*v => v.decls));
    while i < v.decls.len()
        invariant
            decreases_to!(*v => v.decls),
            i <= v.decls@.len(),
            forall|k: int| 0 <= k < i ==> decl_safe(#[trigger] v.decls@[k]),
        decreases v.decls@.len() - i,
    {
        let d = &v.decls[i];
        proof {
            assert(decreases_to!(v.decls => v.decls[i as int]));
        }
        if is_binding(&d.name) {
            if let Some(init) = &d.init {
                if !expr_is_safe(init) {
                    return false;
                }
            }
        }
        i = i + 1;
    }
    true
}

/// Whether visiting each of a list of expressions stays clear of optional
/// chaining.
fn exprs_are_safe(es: &Vec<Expr>) -> (r: bool)
    ensures
        r == forall|i: int| 0 <= i < es@.len() ==> expr_safe(#[trigger] es@[i]),
    decreases es, 0nat,
{
    let mut i: usize = 0;
    while i < es.len()
        invariant
            i <= es@.len(),
            forall|k: int| 0 <= k < i ==> expr_safe(#[trigger] es@[k]),
        decreases es@.len() - i,
    {
        proof {
            assert(decreases_to!(*es => es[i as int]));
        }
        if !expr_is_safe(&es[i]) {
            return false;
        }
        i = i + 1;
    }
    true
}

/// Whether visiting an expression stays clear of optional chaining.
fn expr_is_safe(n: &Expr) -> (r: bool)
    ensures
        r == expr_safe(*n),
    decreases n, 2nat,
{
    match n {
        Expr::Tpl(es) => exprs_are_safe(es),
        Expr::TaggedTpl(tag, es) => {
            let a = expr_is_safe(tag);
            a && exprs_are_safe(es)
        },
        Expr::Sequence(es) => exprs_are_safe(es),
        Expr::Array(elems) => opt_exprs_are_safe(elems),
        Expr::Object(props) => props_are_safe(props),
        Expr::Paren(e) => expr_is_safe(e),
        Expr::Yield(arg) => match arg {
            Some(e) => expr_is_safe(e),
            None => true,
        },
        Expr::Cond(a, b, c) => {
            let x = expr_is_safe(a);
            let y = expr_is_safe(b);
            let z = expr_is_safe(c);
            x && y && z
        },
        Expr::Await(e) => expr_is_safe(e),
        Expr::Arrow(a) => match &a.body {
            BlockStmtOrExpr::BlockStmt(ss) => stmts_are_safe(ss),
            BlockStmtOrExpr::Expr(e) => expr_is_safe(e),
        },
        Expr::Call(c) => match &c.callee {
            ExprOrSuper::Expr(e) => expr_is_safe(e),
            ExprOrSuper::Super => true,
        },
        Expr::Update(e) => expr_is_safe(e),
        Expr::Unary(e) => expr_is_safe(e),
        Expr::Assign(left, right) => {
            let a = match left {
                PatOrExpr::Expr(e) => expr_is_safe(e),
                PatOrExpr::Pat(_) => true,
            };
            a && expr_is_safe(right)
        },
        Expr::OptChain(_) => false,
        Expr::Member(m) => {
            let a = match &m.obj {
                ExprOrSuper::Expr(e) => expr_is_safe(e),
                ExprOrSuper::Super => true,
            };
            a && expr_is_safe(&m.prop)
        },
        Expr::New(ne) => expr_is_safe(&ne.callee),
        Expr::Fn(_, f) => function_is_safe(f),
        Expr::Class(_, c) => class_is_safe(c),
        _ => true,
    }
}

/// Whether visiting the statements of the cases of a switch stays clear of
/// optional chaining.
fn cases_are_safe(cases: &Vec<SwitchCase>) -> (r: bool)
    ensures
        r == forall|k: int|
            0 <= k < cases@.len() ==> forall|j: int|
                0 <= j < (#[trigger] cases@[k]).cons@.len() ==> stmt_safe(#[trigger] cases@[k].cons@[j]),
    decreases cases, 1nat,
{
    let mut i: usize = 0;
    while i < cases.len()
        invariant
            i <= cases@.len(),
            forall|k: int|
                0 <= k < i ==> forall|j: int|
                    0 <= j < (#[trigger] cases@[k]).cons@.len() ==> stmt_safe(#[trigger] cases@[k].cons@[j]),
        decreases cases@.len() - i,
    {
        proof {
            assert(decreases_to!(*cases => cases[i as int]));
            assert(decreases_to!(cases[i as int] => cases[i as int].cons));
        }
        if !stmts_are_safe(&cases[i].cons) {
            return false;
        }
        i = i + 1;
    }
    true
}

/// Whether visiting the present elements of an array literal stays clear of
/// optional chaining.
fn opt_exprs_are_safe(elems: &Vec<Option<Expr>>) -> (r: bool)
    ensures
        r == forall|k: int|
            0 <= k < elems@.len() ==> match #[trigger] elems@[k] {
                Some(e) => expr_safe(e),
                None => true,
            },
    decreases elems, 0nat,
{
    let mut i: usize = 0;
    while i < elems.len()
        invariant
            i <= elems@.len(),
            forall|k: int|
                0 <= k < i ==> match #[trigger] elems@[k] {
                    Some(e) => expr_safe(e),
                    None => true,
                },
        decreases elems@.len() - i,
    {
        if let Some(e) = &elems[i] {
            proof {
                assert(decreases_to!(*elems => elems[i as int]));
            }
            if !expr_is_safe(e) {
                return false;
            }
        }
        i = i + 1;
    }
    true
}

/// Whether visiting the properties of an object literal stays clear of
/// optional chaining.
fn props_are_safe(props: &Vec<PropOrSpread>) -> (r: bool)
    ensures
        r == forall|k: int|
            0 <= k < props@.len() ==> match #[trigger] props@[k] {
                PropOrSpread::Spread(e) => expr_safe(*e),
                PropOrSpread::KeyValue(_, e) => expr_safe(*e),
                _ => true,
            },
    decreases props, 0nat,
{
    let mut i: usize = 0;
    while i < props.len()
        invariant
            i <= props@.len(),
            forall|k: int|
                0 <= k < i ==> match #[trigger] props@[k] {
                    PropOrSpread::Spread(e) => expr_safe(*e),
                    PropOrSpread::KeyValue(_, e) => expr_safe(*e),
                    _ => true,
                },
        decreases props@.len() - i,
    {
        proof {
            assert(decreases_to!(*props => props[i as int]));
        }
        let ok = match &props[i] {
            PropOrSpread::Spread(e) => expr_is_safe(e),
            PropOrSpread::KeyValue(_, e) => expr_is_safe(e),
            _ => true,
        };
        if !ok {
            return false;
        }
        i = i + 1;
    }
    true
}

/// Whether visiting a function stays clear of optional chaining.
fn function_is_safe(f: &Function) -> (r: bool)
    ensures
        r == function_safe(*f),
    decreases f, 2nat,
{
    match &f.body {
        Some(ss) => stmts_are_safe(ss),
        None => true,
    }
}

/// Whether visiting a class stays clear of optional chaining.
fn class_is_safe(c: &Class) -> (r: bool)
    ensures
        r == class_safe(*c),
    decreases c, 2nat,
{
    let a = match &c.super_class {
        Some(e) => expr_is_safe(e),
        None => true,
    };
    if !a {
        return false;
    }
    let mut i: usize = 0;
    assert(decreases_to!(*c => c.body));
    while i < c.body.len()
        invariant
            decreases_to!(*c => c.body),
            i <= c.body@.len(),
            forall|k: int| 0 <= k < i ==> member_safe(#[trigger] c.body@[k]),
        decreases c.body@.len() - i,
    {
        proof {
            assert(decreases_to!(c.body => c.body[i as int]));
        }
        let ok = match &c.body[i] {
            ClassMember::Constructor(_, body) => match body {
                Some(ss) => stmts_are_safe(ss),
                None => true,
            },
            ClassMember::Method(is_static, _, f) => *is_static || function_is_safe(f),
            ClassMember::PrivateMethod(is_static, _, f) => *is_static || function_is_safe(f),
            ClassMember::ClassProp(is_static, _, value) => *is_static || match value {
                Some(e) => expr_is_safe(e),
                None => true,
            },
            ClassMember::PrivateProp(is_static, _, value) => *is_static || match value {
                Some(e) => expr_is_safe(e),
                None => true,
            },
            _ => true,
        };
        if !ok {
            return false;
        }
        i = i + 1;
    }
    true
}

impl ScopeAnalysis {
    /// Whether the analysis handles every part of a module that it visits:
    /// optional chaining is not handled.
    pub fn supports(module: &Module) -> (r: bool)
        ensures
            r == forall|i: int| 0 <= i < module.body@.len() ==> item_safe(#[trigger] module.body@[i]),
    {
        let mut i: usize = 0;
        while i < module.body.len()
            invariant
                i <= module.body@.len(),
                forall|k: int| 0 <= k < i ==> item_safe(#[trigger] module.body@[k]),
            decreases module.body@.len() - i,
        {
            let ok = match &module.body[i] {
                ModuleItem::Stmt(s) => stmt_is_safe(s),
                _ => true,
            };
            if !ok {
                return false;
            }
            i = i + 1;
        }
        true
    }
}

} // verus!
