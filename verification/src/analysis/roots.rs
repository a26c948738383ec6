//! The expressions that a visitor which stops at expressions reaches in a
//! module: the outermost expressions of its statements, declarations and
//! patterns, in the order of the nodes' fields.  The bodies of declared
//! functions and classes are walked; expressions are not looked into.
use vstd::prelude::*;

use crate::ast::{
    CatchClause, Class, ClassMember, Decl, ExportDecl, Expr, Function, ModuleItem, ObjectPatProp, Pat, PropName, Stmt,
    SwitchCase, VarDeclOrExpr, VarDeclOrPat, VarDeclarator,
};

verus! {

/// The expressions a sequence of references points to.
pub open spec fn expr_derefs(s: Seq<&Expr>) -> Seq<Expr> {
    s.map_values(|r: &Expr| *r)
}

/// An optional expression as a sequence of at most one.
pub open spec fn opt_root(e: Option<Box<Expr>>) -> Seq<Expr> {
    match e {
        Some(x) => seq![*x],
        None => Seq::empty(),
    }
}

/// The outermost expression of a property key: a computed key's
/// expression.
pub open spec fn key_roots(k: PropName) -> Seq<Expr> {
    match k {
        PropName::Computed(e) => seq![*e],
        _ => Seq::empty(),
    }
}

/// The outermost expressions of a statement.
pub open spec fn stmt_roots(n: Stmt) -> Seq<Expr>
    decreases n,
{
    match n {
        Stmt::Decl(d) => match d {
            Decl::Fn(_, f) => function_roots(f),
            Decl::Class(_, c) => class_roots(c),
            Decl::Var(v) => decls_roots(v.decls@),
            Decl::Other => Seq::empty(),
        },
        Stmt::With(obj, body) => seq![*obj] + stmt_roots(*body),
        Stmt::While(test, body) => seq![*test] + stmt_roots(*body),
        Stmt::DoWhile(test, body) => seq![*test] + stmt_roots(*body),
        Stmt::For(init, test, update, body) => (match init {
            Some(VarDeclOrExpr::VarDecl(v)) => decls_roots(v.decls@),
            Some(VarDeclOrExpr::Expr(e)) => seq![*e],
            None => Seq::empty(),
        }) + opt_root(test) + opt_root(update) + stmt_roots(*body),
        Stmt::ForIn(left, right, body) => left_roots(left) + seq![*right] + stmt_roots(*body),
        Stmt::ForOf(left, right, body) => left_roots(left) + seq![*right] + stmt_roots(*body),
        Stmt::Labeled(body) => stmt_roots(*body),
        Stmt::If(test, cons, alt) => seq![*test] + stmt_roots(*cons) + match alt {
            Some(a) => stmt_roots(*a),
            None => Seq::empty(),
        },
        Stmt::Try(block, handler, finalizer) => stmts_roots(block@) + (match handler {
            Some(h) => catch_roots(h),
            None => Seq::empty(),
        }) + match finalizer {
            Some(f) => stmts_roots(f@),
            None => Seq::empty(),
        },
        Stmt::Switch(d, cases) => seq![*d] + cases_roots(cases@),
        Stmt::Block(ss) => stmts_roots(ss@),
        Stmt::Return(arg) => opt_root(arg),
        Stmt::Throw(e) => seq![*e],
        Stmt::Expr(e) => seq![*e],
        Stmt::Other => Seq::empty(),
    }
}

/// The outermost expressions of the left of a `for ... in` or
/// `for ... of`.
pub open spec fn left_roots(left: VarDeclOrPat) -> Seq<Expr>
    decreases left,
{
    match left {
        VarDeclOrPat::VarDecl(v) => decls_roots(v.decls@),
        VarDeclOrPat::Pat(p) => pat_roots(p),
    }
}

/// The outermost expressions of a catch clause.
pub open spec fn catch_roots(h: CatchClause) -> Seq<Expr>
    decreases h,
{
    (match h.param {
        Some(p) => pat_roots(p),
        None => Seq::empty(),
    }) + stmts_roots(h.body@)
}

/// The outermost expressions of statements, in order.
pub open spec fn stmts_roots(ss: Seq<Stmt>) -> Seq<Expr>
    decreases ss,
{
    if ss.len() == 0 {
        Seq::empty()
    } else {
        stmts_roots(ss.subrange(0, ss.len() - 1)) + stmt_roots(ss[ss.len() - 1])
    }
}

/// The outermost expressions of the cases of a switch, in order.
pub open spec fn cases_roots(cases: Seq<SwitchCase>) -> Seq<Expr>
    decreases cases,
{
    if cases.len() == 0 {
        Seq::empty()
    } else {
        let c = cases[cases.len() - 1];
        cases_roots(cases.subrange(0, cases.len() - 1)) + opt_root(c.test) + stmts_roots(c.cons@)
    }
}

/// The outermost expressions of declarators: those of each one's pattern,
/// then its initializer.
pub open spec fn decls_roots(ds: Seq<VarDeclarator>) -> Seq<Expr>
    decreases ds,
{
    if ds.len() == 0 {
        Seq::empty()
    } else {
        let d = ds[ds.len() - 1];
        decls_roots(ds.subrange(0, ds.len() - 1)) + pat_roots(d.name) + opt_root(d.init)
    }
}

/// The outermost expressions of a pattern: its default values and the
/// expressions it holds.
pub open spec fn pat_roots(p: Pat) -> Seq<Expr>
    decreases p,
{
    match p {
        Pat::Object(props) => obj_props_roots(props@),
        Pat::Array(elems) => opt_pats_roots(elems@),
        Pat::Rest(arg) => pat_roots(*arg),
        Pat::Assign(left, right) => pat_roots(*left) + seq![*right],
        Pat::Expr(e) => seq![*e],
        _ => Seq::empty(),
    }
}

/// The outermost expressions of patterns, in order.
pub open spec fn pats_roots(ps: Seq<Pat>) -> Seq<Expr>
    decreases ps,
{
    if ps.len() == 0 {
        Seq::empty()
    } else {
        pats_roots(ps.subrange(0, ps.len() - 1)) + pat_roots(ps[ps.len() - 1])
    }
}

/// The outermost expressions of the elements of an array pattern.
pub open spec fn opt_pats_roots(ps: Seq<Option<Pat>>) -> Seq<Expr>
    decreases ps,
{
    if ps.len() == 0 {
        Seq::empty()
    } else {
        opt_pats_roots(ps.subrange(0, ps.len() - 1)) + match ps[ps.len() - 1] {
            Some(p) => pat_roots(p),
            None => Seq::empty(),
        }
    }
}

/// The outermost expressions of the properties of an object pattern.
pub open spec fn obj_props_roots(ps: Seq<ObjectPatProp>) -> Seq<Expr>
    decreases ps,
{
    if ps.len() == 0 {
        Seq::empty()
    } else {
        obj_props_roots(ps.subrange(0, ps.len() - 1)) + match ps[ps.len() - 1] {
            ObjectPatProp::KeyValue(k, v) => key_roots(k) + pat_roots(*v),
            ObjectPatProp::Rest(a) => pat_roots(*a),
            ObjectPatProp::Assign(_, v) => opt_root(v),
        }
    }
}

/// The outermost expressions of a function: those of its parameters, then
/// those of its body.
pub open spec fn function_roots(f: Function) -> Seq<Expr>
    decreases f,
{
    pats_roots(f.params@) + match f.body {
        Some(ss) => stmts_roots(ss@),
        None => Seq::empty(),
    }
}

/// The outermost expressions of a class: those of its members, then its
/// super class.
pub open spec fn class_roots(c: Class) -> Seq<Expr>
    decreases c,
{
    members_roots(c.body@) + opt_root(c.super_class)
}

/// The outermost expressions of class members, in order.
pub open spec fn members_roots(ms: Seq<ClassMember>) -> Seq<Expr>
    decreases ms,
{
    if ms.len() == 0 {
        Seq::empty()
    } else {
        members_roots(ms.subrange(0, ms.len() - 1)) + match ms[ms.len() - 1] {
            ClassMember::Constructor(params, body) => pats_roots(params@) + match body {
                Some(ss) => stmts_roots(ss@),
                None => Seq::empty(),
            },
            ClassMember::Method(_, k, f) => key_roots(k) + function_roots(f),
            ClassMember::PrivateMethod(_, _, f) => function_roots(f),
            ClassMember::ClassProp(_, k, v) => key_roots(k) + opt_root(v),
            ClassMember::PrivateProp(_, _, v) => opt_root(v),
            ClassMember::StaticBlock(ss) => stmts_roots(ss@),
            ClassMember::Other => Seq::empty(),
        }
    }
}

/// The outermost expressions of a declaration.
pub open spec fn decl_roots(d: Decl) -> Seq<Expr> {
    match d {
        Decl::Fn(_, f) => function_roots(f),
        Decl::Class(_, c) => class_roots(c),
        Decl::Var(v) => decls_roots(v.decls@),
        Decl::Other => Seq::empty(),
    }
}

/// The outermost expressions of a module item.  A default export of a
/// function or class declaration is walked as a declaration.
pub open spec fn item_roots(item: ModuleItem) -> Seq<Expr> {
    match item {
        ModuleItem::Stmt(s) => stmt_roots(s),
        ModuleItem::Export(d) => match d {
            ExportDecl::Decl(dc) => decl_roots(dc),
            ExportDecl::DefaultExpr(e) => seq![*e],
            ExportDecl::DefaultDecl(e) => match *e {
                Expr::Fn(_, f) => function_roots(f),
                Expr::Class(_, c) => class_roots(c),
                other => seq![other],
            },
            _ => Seq::empty(),
        },
        ModuleItem::Import(_) => Seq::empty(),
    }
}

/// The outermost expressions of module items, in order.
pub open spec fn items_roots(items: Seq<ModuleItem>) -> Seq<Expr>
    decreases items.len(),
{
    if items.len() == 0 {
        Seq::empty()
    } else {
        items_roots(items.drop_last()) + item_roots(items.last())
    }
}

/// Append a reference to an expression.
fn push_root<'a>(e: &'a Expr, out: &mut Vec<&'a Expr>)
    ensures
        expr_derefs(final(out)@) == expr_derefs(old(out)@) + seq![*e],
{
    let ghost start = out@;
    out.push(e);
    assert(expr_derefs(out@) =~= expr_derefs(start) + seq![*e]);
}

/// Append a reference to an optional expression.
fn push_opt_root<'a>(e: &'a Option<Box<Expr>>, out: &mut Vec<&'a Expr>)
    ensures
        expr_derefs(final(out)@) == expr_derefs(old(out)@) + opt_root(*e),
{
    match e {
        Some(x) => push_root(x, out),
        None => {
            assert(expr_derefs(out@) =~= expr_derefs(out@) + opt_root(*e));
        },
    }
}

/// Collect the outermost expression of a property key.
fn roots_key<'a>(k: &'a PropName, out: &mut Vec<&'a Expr>)
    ensures
        expr_derefs(final(out)@) == expr_derefs(old(out)@) + key_roots(*k),
{
    match k {
        PropName::Computed(e) => push_root(e, out),
        _ => {
            assert(expr_derefs(out@) =~= expr_derefs(out@) + key_roots(*k));
        },
    }
}

/// Collect the outermost expressions of a statement.
fn roots_stmt<'a>(n: &'a Stmt, out: &mut Vec<&'a Expr>)
    ensures
        expr_derefs(final(out)@) == expr_derefs(old(out)@) + stmt_roots(*n),
    decreases n, 2nat,
{
    let ghost start = expr_derefs(out@);
    match n {
        Stmt::Decl(d) => match d {
            Decl::Fn(_, f) => roots_function(f, out),
            Decl::Class(_, c) => roots_class(c, out),
            Decl::Var(v) => roots_decls(&v.decls, out),
            Decl::Other => {
                assert(start + stmt_roots(*n) =~= start);
            },
        },
        Stmt::With(obj, body) => {
            push_root(obj, out);
            roots_stmt(body, out);
            assert(start + stmt_roots(*n) =~= start + seq![**obj] + stmt_roots(**body));
        },
        Stmt::While(test, body) => {
            push_root(test, out);
            roots_stmt(body, out);
            assert(start + stmt_roots(*n) =~= start + seq![**test] + stmt_roots(**body));
        },
        Stmt::DoWhile(test, body) => {
            push_root(test, out);
            roots_stmt(body, out);
            assert(start + stmt_roots(*n) =~= start + seq![**test] + stmt_roots(**body));
        },
        Stmt::For(init, test, update, body) => {
            match init {
                Some(VarDeclOrExpr::VarDecl(v)) => roots_decls(&v.decls, out),
                Some(VarDeclOrExpr::Expr(e)) => push_root(e, out),
                None => {},
            }
            let ghost a = expr_derefs(out@);
            push_opt_root(test, out);
            push_opt_root(update, out);
            roots_stmt(body, out);
            proof {
                let fi = match init {
                    Some(VarDeclOrExpr::VarDecl(v)) => decls_roots(v.decls@),
                    Some(VarDeclOrExpr::Expr(e)) => seq![**e],
                    None => Seq::<Expr>::empty(),
                };
                assert(a =~= start + fi);
                assert(start + stmt_roots(*n) =~= start + fi + opt_root(*test) + opt_root(*update) + stmt_roots(
                    **body,
                ));
            }
        },
        Stmt::ForIn(left, right, body) => {
            roots_left(left, out);
            push_root(right, out);
            roots_stmt(body, out);
            assert(start + stmt_roots(*n) =~= start + left_roots(*left) + seq![**right] + stmt_roots(**body));
        },
        Stmt::ForOf(left, right, body) => {
            roots_left(left, out);
            push_root(right, out);
            roots_stmt(body, out);
            assert(start + stmt_roots(*n) =~= start + left_roots(*left) + seq![**right] + stmt_roots(**body));
        },
        Stmt::Labeled(body) => roots_stmt(body, out),
        Stmt::If(test, cons, alt) => {
            push_root(test, out);
            roots_stmt(cons, out);
            let ghost b = expr_derefs(out@);
            if let Some(a) = alt {
                roots_stmt(a, out);
            }
            proof {
                let fa = match alt {
                    Some(a) => stmt_roots(**a),
                    None => Seq::<Expr>::empty(),
                };
                assert(expr_derefs(out@) =~= b + fa);
                assert(start + stmt_roots(*n) =~= start + seq![**test] + stmt_roots(**cons) + fa);
            }
        },
        Stmt::Try(block, handler, finalizer) => {
            roots_stmts(block, out);
            let ghost b = expr_derefs(out@);
            if let Some(h) = handler {
                roots_catch(h, out);
            }
            let ghost c = expr_derefs(out@);
            if let Some(f) = finalizer {
                roots_stmts(f, out);
            }
            proof {
                let fh = match handler {
                    Some(h) => catch_roots(*h),
                    None => Seq::<Expr>::empty(),
                };
                let ff = match finalizer {
                    Some(f) => stmts_roots(f@),
                    None => Seq::<Expr>::empty(),
                };
                assert(c =~= b + fh);
                assert(expr_derefs(out@) =~= c + ff);
                assert(start + stmt_roots(*n) =~= start + stmts_roots(block@) + fh + ff);
            }
        },
        Stmt::Switch(d, cases) => {
            push_root(d, out);
            roots_cases(cases, out);
            assert(start + stmt_roots(*n) =~= start + seq![**d] + cases_roots(cases@));
        },
        Stmt::Block(ss) => roots_stmts(ss, out),
        Stmt::Return(arg) => push_opt_root(arg, out),
        Stmt::Throw(e) => push_root(e, out),
        Stmt::Expr(e) => push_root(e, out),
        Stmt::Other => {
            assert(start + stmt_roots(*n) =~= start);
        },
    }
}

/// Collect the outermost expressions of the left of a loop header.
fn roots_left<'a>(left: &'a VarDeclOrPat, out: &mut Vec<&'a Expr>)
    ensures
        expr_derefs(final(out)@) == expr_derefs(old(out)@) + left_roots(*left),
    decreases left, 1nat,
{
    match left {
        VarDeclOrPat::VarDecl(v) => roots_decls(&v.decls, out),
        VarDeclOrPat::Pat(p) => roots_pat(p, out),
    }
}

/// Collect the outermost expressions of a catch clause.
fn roots_catch<'a>(h: &'a CatchClause, out: &mut Vec<&'a Expr>)
    ensures
        expr_derefs(final(out)@) == expr_derefs(old(out)@) + catch_roots(*h),
    decreases h, 1nat,
{
    let ghost start = expr_derefs(out@);
    if let Some(p) = &h.param {
        roots_pat(p, out);
    }
    let ghost b = expr_derefs(out@);
    roots_stmts(&h.body, out);
    proof {
        let fp = match &h.param {
            Some(p) => pat_roots(*p),
            None => Seq::<Expr>::empty(),
        };
        assert(b =~= start + fp);
        assert(start + catch_roots(*h) =~= start + fp + stmts_roots(h.body@));
    }
}

/// Collect the outermost expressions of statements, in order.
fn roots_stmts<'a>(ss: &'a Vec<Stmt>, out: &mut Vec<&'a Expr>)
    ensures
        expr_derefs(final(out)@) == expr_derefs(old(out)@) + stmts_roots(ss@),
    decreases ss, 0nat,
{
    let ghost start = expr_derefs(out@);
    let mut i: usize = 0;
    while i < ss.len()
        invariant
            i <= ss@.len(),
            expr_derefs(out@) == start + stmts_roots(ss@.take(i as int)),
        decreases ss@.len() - i,
    {
        proof {
            assert(decreases_to!(*ss => ss[i as int]));
        }
        roots_stmt(&ss[i], out);
        proof {
            let t = ss@.take(i as int + 1);
            assert(t.subrange(0, t.len() - 1) =~= ss@.take(i as int));
            assert(t[t.len() - 1] == ss@[i as int]);
            assert(expr_derefs(out@) =~= start + stmts_roots(t));
        }
        i = i + 1;
    }
    assert(ss@.take(ss@.len() as int) =~= ss@);
}

/// Collect the outermost expressions of the cases of a switch, in order.
fn roots_cases<'a>(cases: &'a Vec<SwitchCase>, out: &mut Vec<&'a Expr>)
    ensures
        expr_derefs(final(out)@) == expr_derefs(old(out)@) + cases_roots(cases@),
    decreases cases, 0nat,
{
    let ghost start = expr_derefs(out@);
    let mut i: usize = 0;
    while i < cases.len()
        invariant
            i <= cases@.len(),
            expr_derefs(out@) == start + cases_roots(cases@.take(i as int)),
        decreases cases@.len() - i,
    {
        proof {
            assert(decreases_to!(*cases => cases[i as int]));
        }
        let c = &cases[i];
        push_opt_root(&c.test, out);
        roots_stmts(&c.cons, out);
        proof {
            let t = cases@.take(i as int + 1);
            assert(t.subrange(0, t.len() - 1) =~= cases@.take(i as int));
            assert(t[t.len() - 1] == cases@[i as int]);
            assert(expr_derefs(out@) =~= start + cases_roots(t));
        }
        i = i + 1;
    }
    assert(cases@.take(cases@.len() as int) =~= cases@);
}

/// Collect the outermost expressions of declarators, in order.
fn roots_decls<'a>(ds: &'a Vec<VarDeclarator>, out: &mut Vec<&'a Expr>)
    ensures
        expr_derefs(final(out)@) == expr_derefs(old(out)@) + decls_roots(ds@),
    decreases ds, 0nat,
{
    let ghost start = expr_derefs(out@);
    let mut i: usize = 0;
    while i < ds.len()
        invariant
            i <= ds@.len(),
            expr_derefs(out@) == start + decls_roots(ds@.take(i as int)),
        decreases ds@.len() - i,
    {
        proof {
            assert(decreases_to!(*ds => ds[i as int]));
        }
        let d = &ds[i];
        roots_pat(&d.name, out);
        push_opt_root(&d.init, out);
        proof {
            let t = ds@.take(i as int + 1);
            assert(t.subrange(0, t.len() - 1) =~= ds@.take(i as int));
            assert(t[t.len() - 1] == ds@[i as int]);
            assert(expr_derefs(out@) =~= start + decls_roots(t));
        }
        i = i + 1;
    }
    assert(ds@.take(ds@.len() as int) =~= ds@);
}

/// Collect the outermost expressions of a pattern.
fn roots_pat<'a>(p: &'a Pat, out: &mut Vec<&'a Expr>)
    ensures
        expr_derefs(final(out)@) == expr_derefs(old(out)@) + pat_roots(*p),
    decreases p, 1nat,
{
    let ghost start = expr_derefs(out@);
    match p {
        Pat::Object(props) => roots_obj_props(props, out),
        Pat::Array(elems) => roots_opt_pats(elems, out),
        Pat::Rest(arg) => roots_pat(arg, out),
        Pat::Assign(left, right) => {
            roots_pat(left, out);
            push_root(right, out);
            assert(start + pat_roots(*p) =~= start + pat_roots(**left) + seq![**right]);
        },
        Pat::Expr(e) => push_root(e, out),
        _ => {
            assert(start + pat_roots(*p) =~= start);
        },
    }
}

/// Collect the outermost expressions of patterns, in order.
fn roots_pats<'a>(ps: &'a Vec<Pat>, out: &mut Vec<&'a Expr>)
    ensures
        expr_derefs(final(out)@) == expr_derefs(old(out)@) + pats_roots(ps@),
    decreases ps, 0nat,
{
    let ghost start = expr_derefs(out@);
    let mut i: usize = 0;
    while i < ps.len()
        invariant
            i <= ps@.len(),
            expr_derefs(out@) == start + pats_roots(ps@.take(i as int)),
        decreases ps@.len() - i,
    {
        proof {
            assert(decreases_to!(*ps => ps[i as int]));
        }
        roots_pat(&ps[i], out);
        proof {
            let t = ps@.take(i as int + 1);
            assert(t.subrange(0, t.len() - 1) =~= ps@.take(i as int));
            assert(t[t.len() - 1] == ps@[i as int]);
            assert(expr_derefs(out@) =~= start + pats_roots(t));
        }
        i = i + 1;
    }
    assert(ps@.take(ps@.len() as int) =~= ps@);
}

/// Collect the outermost expressions of the elements of an array pattern.
fn roots_opt_pats<'a>(ps: &'a Vec<Option<Pat>>, out: &mut Vec<&'a Expr>)
    ensures
        expr_derefs(final(out)@) == expr_derefs(old(out)@) + opt_pats_roots(ps@),
    decreases ps, 0nat,
{
    let ghost start = expr_derefs(out@);
    let mut i: usize = 0;
    while i < ps.len()
        invariant
            i <= ps@.len(),
            expr_derefs(out@) == start + opt_pats_roots(ps@.take(i as int)),
        decreases ps@.len() - i,
    {
        if let Some(p) = &ps[i] {
            proof {
                assert(decreases_to!(*ps => ps[i as int]));
            }
            roots_pat(p, out);
        }
        proof {
            let t = ps@.take(i as int + 1);
            assert(t.subrange(0, t.len() - 1) =~= ps@.take(i as int));
            assert(t[t.len() - 1] == ps@[i as int]);
            assert(expr_derefs(out@) =~= start + opt_pats_roots(t));
        }
        i = i + 1;
    }
    assert(ps@.take(ps@.len() as int) =~= ps@);
}

/// Collect the outermost expressions of the properties of an object
/// pattern.
fn roots_obj_props<'a>(ps: &'a Vec<ObjectPatProp>, out: &mut Vec<&'a Expr>)
    ensures
        expr_derefs(final(out)@) == expr_derefs(old(out)@) + obj_props_roots(ps@),
    decreases ps, 0nat,
{
    let ghost start = expr_derefs(out@);
    let mut i: usize = 0;
    while i < ps.len()
        invariant
            i <= ps@.len(),
            expr_derefs(out@) == start + obj_props_roots(ps@.take(i as int)),
        decreases ps@.len() - i,
    {
        proof {
            assert(decreases_to!(*ps => ps[i as int]));
        }
        match &ps[i] {
            ObjectPatProp::KeyValue(k, v) => {
                roots_key(k, out);
                roots_pat(v, out);
            },
            ObjectPatProp::Rest(a) => roots_pat(a, out),
            ObjectPatProp::Assign(_, v) => push_opt_root(v, out),
        }
        proof {
            let t = ps@.take(i as int + 1);
            assert(t.subrange(0, t.len() - 1) =~= ps@.take(i as int));
            assert(t[t.len() - 1] == ps@[i as int]);
            assert(expr_derefs(out@) =~= start + obj_props_roots(t));
        }
        i = i + 1;
    }
    assert(ps@.take(ps@.len() as int) =~= ps@);
}

/// Collect the outermost expressions of a function.
fn roots_function<'a>(f: &'a Function, out: &mut Vec<&'a Expr>)
    ensures
        expr_derefs(final(out)@) == expr_derefs(old(out)@) + function_roots(*f),
    decreases f, 0nat,
{
    let ghost start = expr_derefs(out@);
    roots_pats(&f.params, out);
    let ghost b = expr_derefs(out@);
    if let Some(body) = &f.body {
        roots_stmts(body, out);
    }
    proof {
        let fb = match &f.body {
            Some(ss) => stmts_roots(ss@),
            None => Seq::<Expr>::empty(),
        };
        assert(expr_derefs(out@) =~= b + fb);
        assert(start + function_roots(*f) =~= start + pats_roots(f.params@) + fb);
    }
}

/// Collect the outermost expressions of a class.
fn roots_class<'a>(c: &'a Class, out: &mut Vec<&'a Expr>)
    ensures
        expr_derefs(final(out)@) == expr_derefs(old(out)@) + class_roots(*c),
    decreases c, 0nat,
{
    roots_members(&c.body, out);
    push_opt_root(&c.super_class, out);
}

/// Collect the outermost expressions of class members, in order.
fn roots_members<'a>(ms: &'a Vec<ClassMember>, out: &mut Vec<&'a Expr>)
    ensures
        expr_derefs(final(out)@) == expr_derefs(old(out)@) + members_roots(ms@),
    decreases ms, 0nat,
{
    let ghost start = expr_derefs(out@);
    let mut i: usize = 0;
    while i < ms.len()
        invariant
            i <= ms@.len(),
            expr_derefs(out@) == start + members_roots(ms@.take(i as int)),
        decreases ms@.len() - i,
    {
        let ghost before = expr_derefs(out@);
        proof {
            assert(decreases_to!(*ms => ms[i as int]));
        }
        match &ms[i] {
            ClassMember::Constructor(params, body) => {
                roots_pats(params, out);
                let ghost b = expr_derefs(out@);
                if let Some(ss) = body {
                    roots_stmts(ss, out);
                }
                proof {
                    let fb = match &body {
                        Some(ss) => stmts_roots(ss@),
                        None => Seq::<Expr>::empty(),
                    };
                    assert(expr_derefs(out@) =~= b + fb);
                    assert(expr_derefs(out@) =~= before + (pats_roots(params@) + fb));
                }
            },
            ClassMember::Method(_, k, f) => {
                roots_key(k, out);
                roots_function(f, out);
            },
            ClassMember::PrivateMethod(_, _, f) => roots_function(f, out),
            ClassMember::ClassProp(_, k, v) => {
                roots_key(k, out);
                push_opt_root(v, out);
            },
            ClassMember::PrivateProp(_, _, v) => push_opt_root(v, out),
            ClassMember::StaticBlock(ss) => roots_stmts(ss, out),
            ClassMember::Other => {},
        }
        proof {
            let t = ms@.take(i as int + 1);
            assert(t.subrange(0, t.len() - 1) =~= ms@.take(i as int));
            assert(t[t.len() - 1] == ms@[i as int]);
            assert(expr_derefs(out@) =~= start + members_roots(t));
        }
        i = i + 1;
    }
    assert(ms@.take(ms@.len() as int) =~= ms@);
}

/// The outermost expressions of a module item, in order.
pub fn item_roots_of<'a>(item: &'a ModuleItem) -> (r: Vec<&'a Expr>)
    ensures
        expr_derefs(r@) == item_roots(*item),
{
    let mut out: Vec<&'a Expr> = Vec::new();
    assert(expr_derefs(out@) =~= Seq::<Expr>::empty());
    match item {
        ModuleItem::Stmt(s) => roots_stmt(s, &mut out),
        ModuleItem::Export(d) => match d {
            ExportDecl::Decl(dc) => match dc {
                Decl::Fn(_, f) => roots_function(f, &mut out),
                Decl::Class(_, c) => roots_class(c, &mut out),
                Decl::Var(v) => roots_decls(&v.decls, &mut out),
                Decl::Other => {},
            },
            ExportDecl::DefaultExpr(e) => push_root(e, &mut out),
            ExportDecl::DefaultDecl(e) => match &**e {
                Expr::Fn(_, f) => roots_function(f, &mut out),
                Expr::Class(_, c) => roots_class(c, &mut out),
                _ => push_root(e, &mut out),
            },
            _ => {},
        },
        ModuleItem::Import(_) => {},
    }
    assert(expr_derefs(out@) =~= Seq::<Expr>::empty() + item_roots(*item));
    out
}

} // verus!
