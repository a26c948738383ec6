//! The statements that a visitor which stops at statements reaches inside
//! expressions and declarations: the bodies of the functions, arrow
//! functions and class members they hold, in the order of the nodes' fields.
//!
//! A module visitor that handles statements itself, without descending into
//! them, still reaches such statements through the declarations it does not
//! handle (exports); these functions name them.
use vstd::prelude::*;

use crate::ast::{
    BlockStmtOrExpr, Class, ClassMember, Decl, ExportDecl, Expr, ExprOrSuper, Function, ObjectPatProp, Pat,
    PatOrExpr, PropName, PropOrSpread, Stmt, VarDeclarator,
};

verus! {

/// The statements a sequence of references points to.
pub open spec fn derefs(s: Seq<&Stmt>) -> Seq<Stmt> {
    s.map_values(|r: &Stmt| *r)
}

/// The statements reached inside an expression.
pub open spec fn expr_reach(n: Expr) -> Seq<Stmt>
    decreases n,
{
    match n {
        Expr::Bin(l, r) => expr_reach(*l) + expr_reach(*r),
        Expr::Tpl(es) => exprs_reach(es@),
        Expr::TaggedTpl(tag, es) => expr_reach(*tag) + exprs_reach(es@),
        Expr::Sequence(es) => exprs_reach(es@),
        Expr::Array(elems) => opt_exprs_reach(elems@),
        Expr::Object(props) => props_reach(props@),
        Expr::Paren(e) => expr_reach(*e),
        Expr::Yield(arg) => match arg {
            Some(e) => expr_reach(*e),
            None => Seq::empty(),
        },
        Expr::Cond(a, b, c) => expr_reach(*a) + expr_reach(*b) + expr_reach(*c),
        Expr::Await(e) => expr_reach(*e),
        Expr::Arrow(a) => pats_reach(a.params@) + match a.body {
            BlockStmtOrExpr::BlockStmt(ss) => ss@,
            BlockStmtOrExpr::Expr(e) => expr_reach(*e),
        },
        Expr::Call(c) => (match c.callee {
            ExprOrSuper::Expr(e) => expr_reach(*e),
            ExprOrSuper::Super => Seq::empty(),
        }) + exprs_reach(c.args@),
        Expr::Update(e) => expr_reach(*e),
        Expr::Unary(e) => expr_reach(*e),
        Expr::Assign(left, right) => (match left {
            PatOrExpr::Expr(e) => expr_reach(*e),
            PatOrExpr::Pat(p) => pat_reach(*p),
        }) + expr_reach(*right),
        Expr::OptChain(e) => expr_reach(*e),
        Expr::Member(m) => (match m.obj {
            ExprOrSuper::Expr(e) => expr_reach(*e),
            ExprOrSuper::Super => Seq::empty(),
        }) + expr_reach(*m.prop),
        Expr::New(ne) => expr_reach(*ne.callee) + match ne.args {
            Some(args) => exprs_reach(args@),
            None => Seq::empty(),
        },
        Expr::Fn(_, f) => function_reach(f),
        Expr::Class(_, c) => class_reach(c),
        Expr::Jsx(es) => exprs_reach(es@),
        _ => Seq::empty(),
    }
}

/// The statements reached inside a property key: inside a computed key's
/// expression.
pub open spec fn key_reach(k: PropName) -> Seq<Stmt>
    decreases k,
{
    match k {
        PropName::Computed(e) => expr_reach(*e),
        _ => Seq::empty(),
    }
}

/// The statements reached inside expressions, in order.
pub open spec fn exprs_reach(es: Seq<Expr>) -> Seq<Stmt>
    decreases es,
{
    if es.len() == 0 {
        Seq::empty()
    } else {
        exprs_reach(es.subrange(0, es.len() - 1)) + expr_reach(es[es.len() - 1])
    }
}

/// The statements reached inside the present elements of an array.
pub open spec fn opt_exprs_reach(es: Seq<Option<Expr>>) -> Seq<Stmt>
    decreases es,
{
    if es.len() == 0 {
        Seq::empty()
    } else {
        opt_exprs_reach(es.subrange(0, es.len() - 1)) + match es[es.len() - 1] {
            Some(e) => expr_reach(e),
            None => Seq::empty(),
        }
    }
}

/// The statements reached inside the properties of an object literal.
pub open spec fn props_reach(ps: Seq<PropOrSpread>) -> Seq<Stmt>
    decreases ps,
{
    if ps.len() == 0 {
        Seq::empty()
    } else {
        props_reach(ps.subrange(0, ps.len() - 1)) + match ps[ps.len() - 1] {
            PropOrSpread::Spread(e) => expr_reach(*e),
            PropOrSpread::KeyValue(k, e) => key_reach(k) + expr_reach(*e),
            PropOrSpread::Method(k, f) => key_reach(k) + function_reach(f),
            _ => Seq::empty(),
        }
    }
}

/// The statements reached inside a pattern (its default values).
pub open spec fn pat_reach(p: Pat) -> Seq<Stmt>
    decreases p,
{
    match p {
        Pat::Object(props) => obj_props_reach(props@),
        Pat::Array(elems) => opt_pats_reach(elems@),
        Pat::Rest(arg) => pat_reach(*arg),
        Pat::Assign(left, right) => pat_reach(*left) + expr_reach(*right),
        Pat::Expr(e) => expr_reach(*e),
        _ => Seq::empty(),
    }
}

/// The statements reached inside patterns, in order.
pub open spec fn pats_reach(ps: Seq<Pat>) -> Seq<Stmt>
    decreases ps,
{
    if ps.len() == 0 {
        Seq::empty()
    } else {
        pats_reach(ps.subrange(0, ps.len() - 1)) + pat_reach(ps[ps.len() - 1])
    }
}

/// The statements reached inside the elements of an array pattern.
pub open spec fn opt_pats_reach(ps: Seq<Option<Pat>>) -> Seq<Stmt>
    decreases ps,
{
    if ps.len() == 0 {
        Seq::empty()
    } else {
        opt_pats_reach(ps.subrange(0, ps.len() - 1)) + match ps[ps.len() - 1] {
            Some(p) => pat_reach(p),
            None => Seq::empty(),
        }
    }
}

/// The statements reached inside the properties of an object pattern.
pub open spec fn obj_props_reach(ps: Seq<ObjectPatProp>) -> Seq<Stmt>
    decreases ps,
{
    if ps.len() == 0 {
        Seq::empty()
    } else {
        obj_props_reach(ps.subrange(0, ps.len() - 1)) + match ps[ps.len() - 1] {
            ObjectPatProp::KeyValue(k, v) => key_reach(k) + pat_reach(*v),
            ObjectPatProp::Rest(a) => pat_reach(*a),
            ObjectPatProp::Assign(_, v) => match v {
                Some(e) => expr_reach(*e),
                None => Seq::empty(),
            },
        }
    }
}

/// The statements reached inside a function: those inside its parameters,
/// then the statements of its body.
pub open spec fn function_reach(f: Function) -> Seq<Stmt>
    decreases f,
{
    pats_reach(f.params@) + match f.body {
        Some(ss) => ss@,
        None => Seq::empty(),
    }
}

/// The statements reached inside a class: those of its members, then those
/// inside its super class.
pub open spec fn class_reach(c: Class) -> Seq<Stmt>
    decreases c,
{
    members_reach(c.body@) + match c.super_class {
        Some(e) => expr_reach(*e),
        None => Seq::empty(),
    }
}

/// The statements reached inside class members, in order.
pub open spec fn members_reach(ms: Seq<ClassMember>) -> Seq<Stmt>
    decreases ms,
{
    if ms.len() == 0 {
        Seq::empty()
    } else {
        members_reach(ms.subrange(0, ms.len() - 1)) + match ms[ms.len() - 1] {
            ClassMember::Constructor(params, body) => pats_reach(params@) + match body {
                Some(ss) => ss@,
                None => Seq::empty(),
            },
            ClassMember::Method(_, k, f) => key_reach(k) + function_reach(f),
            ClassMember::PrivateMethod(_, _, f) => function_reach(f),
            ClassMember::ClassProp(_, k, v) => key_reach(k) + match v {
                Some(e) => expr_reach(*e),
                None => Seq::empty(),
            },
            ClassMember::PrivateProp(_, _, v) => match v {
                Some(e) => expr_reach(*e),
                None => Seq::empty(),
            },
            ClassMember::StaticBlock(ss) => ss@,
            ClassMember::Other => Seq::empty(),
        }
    }
}

/// The statements reached inside declarators: inside each one's pattern,
/// then inside its initializer.
pub open spec fn decls_reach(ds: Seq<VarDeclarator>) -> Seq<Stmt>
    decreases ds,
{
    if ds.len() == 0 {
        Seq::empty()
    } else {
        let d = ds[ds.len() - 1];
        decls_reach(ds.subrange(0, ds.len() - 1)) + pat_reach(d.name) + match d.init {
            Some(e) => expr_reach(*e),
            None => Seq::empty(),
        }
    }
}

/// The statements reached inside a declaration.
pub open spec fn decl_reach(d: Decl) -> Seq<Stmt> {
    match d {
        Decl::Fn(_, f) => function_reach(f),
        Decl::Class(_, c) => class_reach(c),
        Decl::Var(v) => decls_reach(v.decls@),
        Decl::Other => Seq::empty(),
    }
}

/// The statements reached inside an export declaration.
pub open spec fn export_reach(d: ExportDecl) -> Seq<Stmt> {
    match d {
        ExportDecl::Decl(dc) => decl_reach(dc),
        ExportDecl::DefaultExpr(e) => expr_reach(*e),
        ExportDecl::DefaultDecl(e) => expr_reach(*e),
        _ => Seq::empty(),
    }
}

proof fn lemma_derefs_push<'a>(s: Seq<&'a Stmt>, r: &'a Stmt)
    ensures
        derefs(s.push(r)) == derefs(s).push(*r),
{
    assert(derefs(s.push(r)) =~= derefs(s).push(*r));
}

/// Append references to statements, in order.
fn push_stmts<'a>(ss: &'a Vec<Stmt>, out: &mut Vec<&'a Stmt>)
    ensures
        derefs(final(out)@) == derefs(old(out)@) + ss@,
{
    let ghost start = derefs(out@);
    let mut i: usize = 0;
    while i < ss.len()
        invariant
            i <= ss@.len(),
            derefs(out@) == start + ss@.take(i as int),
        decreases ss@.len() - i,
    {
        proof {
            lemma_derefs_push(out@, &ss@[i as int]);
        }
        out.push(&ss[i]);
        assert(start + ss@.take(i as int + 1) =~= (start + ss@.take(i as int)).push(ss@[i as int]));
        i = i + 1;
    }
    assert(ss@.take(ss@.len() as int) =~= ss@);
}

/// Collect the statements reached inside an expression.
pub fn reach_expr<'a>(n: &'a Expr, out: &mut Vec<&'a Stmt>)
    ensures
        derefs(final(out)@) == derefs(old(out)@) + expr_reach(*n),
    decreases n, 2nat,
{
    let ghost start = derefs(out@);
    match n {
        Expr::Bin(l, r) => {
            reach_expr(l, out);
            reach_expr(r, out);
            assert(start + expr_reach(*n) =~= start + expr_reach(**l) + expr_reach(**r));
        },
        Expr::Tpl(es) => reach_exprs(es, out),
        Expr::TaggedTpl(tag, es) => {
            reach_expr(tag, out);
            reach_exprs(es, out);
            assert(start + expr_reach(*n) =~= start + expr_reach(**tag) + exprs_reach(es@));
        },
        Expr::Sequence(es) => reach_exprs(es, out),
        Expr::Array(elems) => reach_opt_exprs(elems, out),
        Expr::Object(props) => reach_props(props, out),
        Expr::Paren(e) => reach_expr(e, out),
        Expr::Yield(arg) => match arg {
            Some(e) => reach_expr(e, out),
            None => {
                assert(start + expr_reach(*n) =~= start);
            },
        },
        Expr::Cond(a, b, c) => {
            reach_expr(a, out);
            reach_expr(b, out);
            reach_expr(c, out);
            assert(start + expr_reach(*n) =~= start + expr_reach(**a) + expr_reach(**b) + expr_reach(**c));
        },
        Expr::Await(e) => reach_expr(e, out),
        Expr::Arrow(a) => {
            reach_pats(&a.params, out);
            match &a.body {
                BlockStmtOrExpr::BlockStmt(ss) => {
                    push_stmts(ss, out);
                    assert(start + expr_reach(*n) =~= start + pats_reach(a.params@) + ss@);
                },
                BlockStmtOrExpr::Expr(e) => {
                    reach_expr(e, out);
                    assert(start + expr_reach(*n) =~= start + pats_reach(a.params@) + expr_reach(**e));
                },
            }
        },
        Expr::Call(c) => {
            match &c.callee {
                ExprOrSuper::Expr(e) => reach_expr(e, out),
                ExprOrSuper::Super => {},
            }
            let ghost b = derefs(out@);
            reach_exprs(&c.args, out);
            proof {
                let fc = match &c.callee {
                    ExprOrSuper::Expr(e) => expr_reach(**e),
                    ExprOrSuper::Super => Seq::<Stmt>::empty(),
                };
                assert(b =~= start + fc);
                assert(start + expr_reach(*n) =~= start + fc + exprs_reach(c.args@));
            }
        },
        Expr::Update(e) => reach_expr(e, out),
        Expr::Unary(e) => reach_expr(e, out),
        Expr::Assign(left, right) => {
            match left {
                PatOrExpr::Expr(e) => reach_expr(e, out),
                PatOrExpr::Pat(p) => reach_pat(p, out),
            }
            let ghost b = derefs(out@);
            reach_expr(right, out);
            proof {
                let fl = match &left {
                    PatOrExpr::Expr(e) => expr_reach(**e),
                    PatOrExpr::Pat(p) => pat_reach(**p),
                };
                assert(b =~= start + fl);
                assert(start + expr_reach(*n) =~= start + fl + expr_reach(**right));
            }
        },
        Expr::OptChain(e) => reach_expr(e, out),
        Expr::Member(m) => {
            match &m.obj {
                ExprOrSuper::Expr(e) => reach_expr(e, out),
                ExprOrSuper::Super => {},
            }
            let ghost b = derefs(out@);
            reach_expr(&m.prop, out);
            proof {
                let fo = match &m.obj {
                    ExprOrSuper::Expr(e) => expr_reach(**e),
                    ExprOrSuper::Super => Seq::<Stmt>::empty(),
                };
                assert(b =~= start + fo);
                assert(start + expr_reach(*n) =~= start + fo + expr_reach(*m.prop));
            }
        },
        Expr::New(ne) => {
            reach_expr(&ne.callee, out);
            let ghost b = derefs(out@);
            if let Some(args) = &ne.args {
                reach_exprs(args, out);
            }
            proof {
                let fa = match &ne.args {
                    Some(args) => exprs_reach(args@),
                    None => Seq::<Stmt>::empty(),
                };
                assert(derefs(out@) =~= b + fa);
                assert(start + expr_reach(*n) =~= start + expr_reach(*ne.callee) + fa);
            }
        },
        Expr::Fn(_, f) => reach_function(f, out),
        Expr::Class(_, c) => reach_class(c, out),
        Expr::Jsx(es) => reach_exprs(es, out),
        _ => {
            assert(start + expr_reach(*n) =~= start);
        },
    }
}

/// Collect the statements reached inside expressions, in order.
fn reach_exprs<'a>(es: &'a Vec<Expr>, out: &mut Vec<&'a Stmt>)
    ensures
        derefs(final(out)@) == derefs(old(out)@) + exprs_reach(es@),
    decreases es, 0nat,
{
    let ghost start = derefs(out@);
    let mut i: usize = 0;
    while i < es.len()
        invariant
            i <= es@.len(),
            derefs(out@) == start + exprs_reach(es@.take(i as int)),
        decreases es@.len() - i,
    {
        proof {
            assert(decreases_to!(*es => es[i as int]));
        }
        reach_expr(&es[i], out);
        proof {
            let t = es@.take(i as int + 1);
            assert(t.subrange(0, t.len() - 1) =~= es@.take(i as int));
            assert(t[t.len() - 1] == es@[i as int]);
            assert(derefs(out@) =~= start + exprs_reach(t));
        }
        i = i + 1;
    }
    assert(es@.take(es@.len() as int) =~= es@);
}

/// Collect the statements reached inside the present elements of an array.
fn reach_opt_exprs<'a>(es: &'a Vec<Option<Expr>>, out: &mut Vec<&'a Stmt>)
    ensures
        derefs(final(out)@) == derefs(old(out)@) + opt_exprs_reach(es@),
    decreases es, 0nat,
{
    let ghost start = derefs(out@);
    let mut i: usize = 0;
    while i < es.len()
        invariant
            i <= es@.len(),
            derefs(out@) == start + opt_exprs_reach(es@.take(i as int)),
        decreases es@.len() - i,
    {
        if let Some(e) = &es[i] {
            proof {
                assert(decreases_to!(*es => es[i as int]));
            }
            reach_expr(e, out);
        }
        proof {
            let t = es@.take(i as int + 1);
            assert(t.subrange(0, t.len() - 1) =~= es@.take(i as int));
            assert(t[t.len() - 1] == es@[i as int]);
            assert(derefs(out@) =~= start + opt_exprs_reach(t));
        }
        i = i + 1;
    }
    assert(es@.take(es@.len() as int) =~= es@);
}

/// Collect the statements reached inside the properties of an object
/// literal.
fn reach_props<'a>(ps: &'a Vec<PropOrSpread>, out: &mut Vec<&'a Stmt>)
    ensures
        derefs(final(out)@) == derefs(old(out)@) + props_reach(ps@),
    decreases ps, 0nat,
{
    let ghost start = derefs(out@);
    let mut i: usize = 0;
    while i < ps.len()
        invariant
            i <= ps@.len(),
            derefs(out@) == start + props_reach(ps@.take(i as int)),
        decreases ps@.len() - i,
    {
        proof {
            assert(decreases_to!(*ps => ps[i as int]));
        }
        match &ps[i] {
            PropOrSpread::Spread(e) => reach_expr(e, out),
            PropOrSpread::KeyValue(k, e) => {
                reach_key(k, out);
                reach_expr(e, out);
            },
            PropOrSpread::Method(k, f) => {
                reach_key(k, out);
                reach_function(f, out);
            },
            _ => {},
        }
        proof {
            let t = ps@.take(i as int + 1);
            assert(t.subrange(0, t.len() - 1) =~= ps@.take(i as int));
            assert(t[t.len() - 1] == ps@[i as int]);
            assert(derefs(out@) =~= start + props_reach(t));
        }
        i = i + 1;
    }
    assert(ps@.take(ps@.len() as int) =~= ps@);
}

/// Collect the statements reached inside a property key.
fn reach_key<'a>(k: &'a PropName, out: &mut Vec<&'a Stmt>)
    ensures
        derefs(final(out)@) == derefs(old(out)@) + key_reach(*k),
    decreases k, 0nat,
{
    if let PropName::Computed(e) = k {
        reach_expr(e, out);
    } else {
        assert(derefs(out@) =~= derefs(out@) + key_reach(*k));
    }
}

/// Collect the statements reached inside a pattern.
fn reach_pat<'a>(p: &'a Pat, out: &mut Vec<&'a Stmt>)
    ensures
        derefs(final(out)@) == derefs(old(out)@) + pat_reach(*p),
    decreases p, 1nat,
{
    let ghost start = derefs(out@);
    match p {
        Pat::Object(props) => reach_obj_props(props, out),
        Pat::Array(elems) => reach_opt_pats(elems, out),
        Pat::Rest(arg) => reach_pat(arg, out),
        Pat::Assign(left, right) => {
            reach_pat(left, out);
            reach_expr(right, out);
            assert(start + pat_reach(*p) =~= start + pat_reach(**left) + expr_reach(**right));
        },
        Pat::Expr(e) => reach_expr(e, out),
        _ => {
            assert(start + pat_reach(*p) =~= start);
        },
    }
}

/// Collect the statements reached inside patterns, in order.
fn reach_pats<'a>(ps: &'a Vec<Pat>, out: &mut Vec<&'a Stmt>)
    ensures
        derefs(final(out)@) == derefs(old(out)@) + pats_reach(ps@),
    decreases ps, 0nat,
{
    let ghost start = derefs(out@);
    let mut i: usize = 0;
    while i < ps.len()
        invariant
            i <= ps@.len(),
            derefs(out@) == start + pats_reach(ps@.take(i as int)),
        decreases ps@.len() - i,
    {
        proof {
            assert(decreases_to!(*ps => ps[i as int]));
        }
        reach_pat(&ps[i], out);
        proof {
            let t = ps@.take(i as int + 1);
            assert(t.subrange(0, t.len() - 1) =~= ps@.take(i as int));
            assert(t[t.len() - 1] == ps@[i as int]);
            assert(derefs(out@) =~= start + pats_reach(t));
        }
        i = i + 1;
    }
    assert(ps@.take(ps@.len() as int) =~= ps@);
}

/// Collect the statements reached inside the elements of an array pattern.
fn reach_opt_pats<'a>(ps: &'a Vec<Option<Pat>>, out: &mut Vec<&'a Stmt>)
    ensures
        derefs(final(out)@) == derefs(old(out)@) + opt_pats_reach(ps@),
    decreases ps, 0nat,
{
    let ghost start = derefs(out@);
    let mut i: usize = 0;
    while i < ps.len()
        invariant
            i <= ps@.len(),
            derefs(out@) == start + opt_pats_reach(ps@.take(i as int)),
        decreases ps@.len() - i,
    {
        if let Some(p) = &ps[i] {
            proof {
                assert(decreases_to!(*ps => ps[i as int]));
            }
            reach_pat(p, out);
        }
        proof {
            let t = ps@.take(i as int + 1);
            assert(t.subrange(0, t.len() - 1) =~= ps@.take(i as int));
            assert(t[t.len() - 1] == ps@[i as int]);
            assert(derefs(out@) =~= start + opt_pats_reach(t));
        }
        i = i + 1;
    }
    assert(ps@.take(ps@.len() as int) =~= ps@);
}

/// Collect the statements reached inside the properties of an object
/// pattern.
fn reach_obj_props<'a>(ps: &'a Vec<ObjectPatProp>, out: &mut Vec<&'a Stmt>)
    ensures
        derefs(final(out)@) == derefs(old(out)@) + obj_props_reach(ps@),
    decreases ps, 0nat,
{
    let ghost start = derefs(out@);
    let mut i: usize = 0;
    while i < ps.len()
        invariant
            i <= ps@.len(),
            derefs(out@) == start + obj_props_reach(ps@.take(i as int)),
        decreases ps@.len() - i,
    {
        proof {
            assert(decreases_to!(*ps => ps[i as int]));
        }
        match &ps[i] {
            ObjectPatProp::KeyValue(k, v) => {
                reach_key(k, out);
                reach_pat(v, out);
            },
            ObjectPatProp::Rest(a) => reach_pat(a, out),
            ObjectPatProp::Assign(_, v) => {
                if let Some(e) = v {
                    reach_expr(e, out);
                }
            },
        }
        proof {
            let t = ps@.take(i as int + 1);
            assert(t.subrange(0, t.len() - 1) =~= ps@.take(i as int));
            assert(t[t.len() - 1] == ps@[i as int]);
            assert(derefs(out@) =~= start + obj_props_reach(t));
        }
        i = i + 1;
    }
    assert(ps@.take(ps@.len() as int) =~= ps@);
}

/// Collect the statements reached inside a function.
fn reach_function<'a>(f: &'a Function, out: &mut Vec<&'a Stmt>)
    ensures
        derefs(final(out)@) == derefs(old(out)@) + function_reach(*f),
    decreases f, 0nat,
{
    let ghost start = derefs(out@);
    reach_pats(&f.params, out);
    let ghost b = derefs(out@);
    if let Some(body) = &f.body {
        push_stmts(body, out);
    }
    proof {
        let fb = match &f.body {
            Some(ss) => ss@,
            None => Seq::<Stmt>::empty(),
        };
        assert(derefs(out@) =~= b + fb);
        assert(start + function_reach(*f) =~= start + pats_reach(f.params@) + fb);
    }
}

/// Collect the statements reached inside a class.
fn reach_class<'a>(c: &'a Class, out: &mut Vec<&'a Stmt>)
    ensures
        derefs(final(out)@) == derefs(old(out)@) + class_reach(*c),
    decreases c, 0nat,
{
    let ghost start = derefs(out@);
    reach_members(&c.body, out);
    let ghost b = derefs(out@);
    if let Some(e) = &c.super_class {
        reach_expr(e, out);
    }
    proof {
        let fs = match &c.super_class {
            Some(e) => expr_reach(**e),
            None => Seq::<Stmt>::empty(),
        };
        assert(derefs(out@) =~= b + fs);
        assert(start + class_reach(*c) =~= start + members_reach(c.body@) + fs);
    }
}

/// Collect the statements reached inside class members, in order.
fn reach_members<'a>(ms: &'a Vec<ClassMember>, out: &mut Vec<&'a Stmt>)
    ensures
        derefs(final(out)@) == derefs(old(out)@) + members_reach(ms@),
    decreases ms, 0nat,
{
    let ghost start = derefs(out@);
    let mut i: usize = 0;
    while i < ms.len()
        invariant
            i <= ms@.len(),
            derefs(out@) == start + members_reach(ms@.take(i as int)),
        decreases ms@.len() - i,
    {
        let ghost before = derefs(out@);
        proof {
            assert(decreases_to!(*ms => ms[i as int]));
        }
        match &ms[i] {
            ClassMember::Constructor(params, body) => {
                reach_pats(params, out);
                let ghost b = derefs(out@);
                if let Some(ss) = body {
                    push_stmts(ss, out);
                }
                proof {
                    let fb = match &body {
                        Some(ss) => ss@,
                        None => Seq::<Stmt>::empty(),
                    };
                    assert(derefs(out@) =~= b + fb);
                    assert(derefs(out@) =~= before + (pats_reach(params@) + fb));
                }
            },
            ClassMember::Method(_, k, f) => {
                reach_key(k, out);
                reach_function(f, out);
            },
            ClassMember::PrivateMethod(_, _, f) => reach_function(f, out),
            ClassMember::ClassProp(_, k, v) => {
                reach_key(k, out);
                let ghost b = derefs(out@);
                if let Some(e) = v {
                    reach_expr(e, out);
                }
                proof {
                    let fv = match v {
                        Some(e) => expr_reach(**e),
                        None => Seq::<Stmt>::empty(),
                    };
                    assert(derefs(out@) =~= b + fv);
                }
            },
            ClassMember::PrivateProp(_, _, v) => {
                if let Some(e) = v {
                    reach_expr(e, out);
                }
            },
            ClassMember::StaticBlock(ss) => push_stmts(ss, out),
            ClassMember::Other => {},
        }
        proof {
            let t = ms@.take(i as int + 1);
            assert(t.subrange(0, t.len() - 1) =~= ms@.take(i as int));
            assert(t[t.len() - 1] == ms@[i as int]);
            assert(derefs(out@) =~= start + members_reach(t));
        }
        i = i + 1;
    }
    assert(ms@.take(ms@.len() as int) =~= ms@);
}

/// Collect the statements reached inside declarators, in order.
fn reach_decls<'a>(ds: &'a Vec<VarDeclarator>, out: &mut Vec<&'a Stmt>)
    ensures
        derefs(final(out)@) == derefs(old(out)@) + decls_reach(ds@),
{
    let ghost start = derefs(out@);
    let mut i: usize = 0;
    while i < ds.len()
        invariant
            i <= ds@.len(),
            derefs(out@) == start + decls_reach(ds@.take(i as int)),
        decreases ds@.len() - i,
    {
        let d = &ds[i];
        let ghost before = derefs(out@);
        reach_pat(&d.name, out);
        let ghost b = derefs(out@);
        if let Some(e) = &d.init {
            reach_expr(e, out);
        }
        proof {
            let fi = match &d.init {
                Some(e) => expr_reach(**e),
                None => Seq::<Stmt>::empty(),
            };
            assert(derefs(out@) =~= b + fi);
            let t = ds@.take(i as int + 1);
            assert(t.subrange(0, t.len() - 1) =~= ds@.take(i as int));
            assert(t[t.len() - 1] == ds@[i as int]);
            assert(derefs(out@) =~= start + decls_reach(t));
        }
        i = i + 1;
    }
    assert(ds@.take(ds@.len() as int) =~= ds@);
}

/// The statements reached inside an export declaration, in order.
pub fn reach_export<'a>(d: &'a ExportDecl) -> (r: Vec<&'a Stmt>)
    ensures
        derefs(r@) == export_reach(*d),
{
    let mut out: Vec<&'a Stmt> = Vec::new();
    assert(derefs(out@) =~= Seq::<Stmt>::empty());
    match d {
        ExportDecl::Decl(dc) => match dc {
            Decl::Fn(_, f) => reach_function(f, &mut out),
            Decl::Class(_, c) => reach_class(c, &mut out),
            Decl::Var(v) => reach_decls(&v.decls, &mut out),
            Decl::Other => {},
        },
        ExportDecl::DefaultExpr(e) => reach_expr(e, &mut out),
        ExportDecl::DefaultDecl(e) => reach_expr(e, &mut out),
        _ => {},
    }
    assert(derefs(out@) =~= Seq::<Stmt>::empty() + export_reach(*d));
    out
}

} // verus!
