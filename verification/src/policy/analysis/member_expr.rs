//! Walk a member expression.
//!
//! The syntax tree stores member expressions with the left node as the
//! deepest leaf of the tree and we tend to operate left to right
//! for analysis tasks.
use vstd::prelude::*;

use crate::ast::{CallExpr, Expr, ExprOrSuper, MemberExpr};
use crate::policy::analysis::{lemma_words_view_push, words_view};

verus! {

/// The leaves of a member expression from left to right: the innermost
/// object and each property that is not computed, nested member
/// expressions being walked in turn.
pub open spec fn member_leaves(m: MemberExpr) -> Seq<Expr>
    decreases m,
{
    (match m.obj {
        ExprOrSuper::Super => Seq::empty(),
        ExprOrSuper::Expr(e) => expr_leaves(*e),
    }) + (if m.computed {
        Seq::empty()
    } else {
        expr_leaves(*m.prop)
    })
}

/// The leaves of an expression: those of a member expression, or the
/// expression itself.
pub open spec fn expr_leaves(e: Expr) -> Seq<Expr>
    decreases e,
{
    match e {
        Expr::Member(m) => member_leaves(m),
        _ => seq![e],
    }
}

/// The expressions a list of expression references points at.
pub open spec fn targets(s: Seq<&Expr>) -> Seq<Expr> {
    s.map_values(|e: &Expr| *e)
}

/// The targets of a list with one reference appended.
proof fn lemma_targets_push(s: Seq<&Expr>, e: &Expr)
    ensures
        targets(s.push(e)) == targets(s).push(*e),
{
    assert(targets(s.push(e)) =~= targets(s).push(*e));
}

/// Walk a member expression left to right.
///
/// If a member expression is computed the property is not visited.
pub fn walk<'a>(n: &'a MemberExpr, expressions: &mut Vec<&'a Expr>)
    ensures
        targets(final(expressions)@) == targets(old(expressions)@) + member_leaves(*n),
        final(expressions)@.len() >= old(expressions)@.len(),
        forall|i: int|
            old(expressions)@.len() <= i < final(expressions)@.len() ==> decreases_to!(*n => *final(expressions)@[i]),
        forall|i: int| 0 <= i < old(expressions)@.len() ==> final(expressions)@[i] == old(expressions)@[i],
    decreases n,
{
    let ghost start = expressions@;
    if let ExprOrSuper::Expr(obj) = &n.obj {
        match &**obj {
            Expr::Member(m) => {
                walk(m, expressions);
            },
            _ => {
                walk_member_expr(obj, expressions);
            },
        }
    }
    let ghost middle = expressions@;
    proof {
        assert(targets(middle) == targets(start) + match n.obj {
            ExprOrSuper::Super => Seq::empty(),
            ExprOrSuper::Expr(e) => expr_leaves(*e),
        });
    }
    if n.computed {
        assert(targets(expressions@) =~= targets(start) + member_leaves(*n));
        return ;
    }
    walk_member_expr(&n.prop, expressions);
    proof {
        assert(targets(expressions@) =~= targets(start) + member_leaves(*n));
    }
}

/// Walk the leaves of an expression: nested member expressions are walked,
/// any other expression is a leaf.
fn walk_member_expr<'a>(n: &'a Expr, expressions: &mut Vec<&'a Expr>)
    ensures
        targets(final(expressions)@) == targets(old(expressions)@) + expr_leaves(*n),
        final(expressions)@.len() >= old(expressions)@.len(),
        forall|i: int|
            old(expressions)@.len() <= i < final(expressions)@.len() ==> (*final(expressions)@[i] == *n
                || decreases_to!(*n => *final(expressions)@[i])),
        forall|i: int| 0 <= i < old(expressions)@.len() ==> final(expressions)@[i] == old(expressions)@[i],
    decreases n,
{
    match n {
        Expr::Member(m) => {
            walk(m, expressions);
        },
        _ => {
            proof {
                lemma_targets_push(expressions@, n);
            }
            expressions.push(n);
        },
    }
}

/// The words of a member expression: the names of its identifier leaves and
/// the words of the member callees of its call leaves, left to right.
pub open spec fn member_words(m: MemberExpr) -> Seq<Seq<char>>
    decreases m,
{
    (match m.obj {
        ExprOrSuper::Super => Seq::empty(),
        ExprOrSuper::Expr(e) => expr_words(*e),
    }) + (if m.computed {
        Seq::empty()
    } else {
        expr_words(*m.prop)
    })
}

/// The words of an expression reached while walking a member expression.
pub open spec fn expr_words(e: Expr) -> Seq<Seq<char>>
    decreases e,
{
    match e {
        Expr::Member(m) => member_words(m),
        Expr::Ident(sym) => seq![sym@],
        Expr::Call(c) => match c.callee {
            ExprOrSuper::Expr(callee) => match *callee {
                Expr::Member(m) => member_words(m),
                _ => Seq::empty(),
            },
            ExprOrSuper::Super => Seq::empty(),
        },
        _ => Seq::empty(),
    }
}

/// The words of a list of leaves, in order.
pub open spec fn leaves_words(s: Seq<Expr>) -> Seq<Seq<char>>
    decreases s.len(),
{
    if s.len() == 0 {
        Seq::empty()
    } else {
        leaves_words(s.drop_last()) + expr_words(s.last())
    }
}

/// The words of a concatenation of leaves.
proof fn lemma_leaves_words_concat(a: Seq<Expr>, b: Seq<Expr>)
    ensures
        leaves_words(a + b) == leaves_words(a) + leaves_words(b),
    decreases b.len(),
{
    if b.len() == 0 {
        assert(a + b =~= a);
        assert(leaves_words(a) + leaves_words(b) =~= leaves_words(a));
    } else {
        lemma_leaves_words_concat(a, b.drop_last());
        assert((a + b).drop_last() =~= a + b.drop_last());
        assert(leaves_words(a) + leaves_words(b.drop_last()) + expr_words(b.last()) =~= leaves_words(a) + (
        leaves_words(b.drop_last()) + expr_words(b.last())));
    }
}

/// The words of the leaves of a member expression are its words.
proof fn lemma_member_leaves_words(m: MemberExpr)
    ensures
        leaves_words(member_leaves(m)) == member_words(m),
    decreases m,
{
    let o = match m.obj {
        ExprOrSuper::Super => Seq::empty(),
        ExprOrSuper::Expr(e) => expr_leaves(*e),
    };
    let p = if m.computed {
        Seq::empty()
    } else {
        expr_leaves(*m.prop)
    };
    lemma_leaves_words_concat(o, p);
    match m.obj {
        ExprOrSuper::Super => {
            assert(leaves_words(o) =~= Seq::empty());
        },
        ExprOrSuper::Expr(e) => {
            lemma_expr_leaves_words(*e);
        },
    }
    if m.computed {
        assert(leaves_words(p) =~= Seq::empty());
    } else {
        lemma_expr_leaves_words(*m.prop);
    }
}

/// The words of the leaves of an expression are its words.
proof fn lemma_expr_leaves_words(e: Expr)
    ensures
        leaves_words(expr_leaves(e)) == expr_words(e),
    decreases e,
{
    match e {
        Expr::Member(m) => lemma_member_leaves_words(m),
        _ => {
            let one = seq![e];
            assert(one.drop_last() =~= Seq::<Expr>::empty());
            assert(one.last() == e);
            assert(leaves_words(one.drop_last()) == Seq::<Seq<char>>::empty());
            assert(leaves_words(one) == leaves_words(one.drop_last()) + expr_words(e));
            assert(leaves_words(one) =~= expr_words(e));
        },
    }
}

/// Collect the words in a member expression.
pub fn member_expr_words(n: &MemberExpr) -> (r: Vec<String>)
    ensures
        words_view(r@) == member_words(*n),
{
    let mut words: Vec<String> = Vec::new();
    walk_member_expressions(n, &mut words);
    assert(words_view(words@) =~= member_words(*n));
    words
}

/// Append the words of a member expression.
fn walk_member_expressions(n: &MemberExpr, words: &mut Vec<String>)
    ensures
        words_view(final(words)@) == words_view(old(words)@) + member_words(*n),
    decreases n,
{
    let ghost start = words_view(words@);
    let mut expressions: Vec<&Expr> = Vec::new();
    walk(n, &mut expressions);
    let ghost leaves = member_leaves(*n);
    proof {
        assert(targets(expressions@) =~= leaves);
        lemma_member_leaves_words(*n);
    }
    let mut i: usize = 0;
    while i < expressions.len()
        invariant
            i <= expressions@.len(),
            targets(expressions@) == leaves,
            leaves == member_leaves(*n),
            forall|k: int| 0 <= k < expressions@.len() ==> decreases_to!(*n => *expressions@[k]),
            words_view(words@) == start + leaves_words(leaves.take(i as int)),
        decreases expressions@.len() - i,
    {
        let expr: &Expr = expressions[i];
        let ghost before = words_view(words@);
        assert(*expr == leaves[i as int]);
        match expr {
            Expr::Ident(sym) => {
                let copy = sym.clone();
                proof {
                    lemma_words_view_push(words@, copy);
                }
                words.push(copy);
            },
            Expr::Member(m) => {
                walk_member_expressions(m, words);
            },
            Expr::Call(call) => match &call.callee {
                ExprOrSuper::Expr(callee) => match &**callee {
                    Expr::Member(m) => {
                        walk_member_expressions(m, words);
                    },
                    _ => {},
                },
                _ => {},
            },
            _ => {},
        }
        proof {
            let t = leaves.take(i as int + 1);
            assert(t.drop_last() =~= leaves.take(i as int));
            assert(t.last() == *expr);
            assert(words_view(words@) =~= before + expr_words(*expr));
        }
        i = i + 1;
    }
    assert(leaves.take(leaves.len() as int) =~= leaves);
}

} // verus!
verus! {

/// Each leaf of a member expression lies inside it.
pub proof fn lemma_member_leaves_inside(m: MemberExpr)
    ensures
        forall|k: int| 0 <= k < member_leaves(m).len() ==> decreases_to!(m => #[trigger] member_leaves(m)[k]),
    decreases m,
{
    let a = match m.obj {
        ExprOrSuper::Super => Seq::<Expr>::empty(),
        ExprOrSuper::Expr(e) => expr_leaves(*e),
    };
    let b = if m.computed {
        Seq::<Expr>::empty()
    } else {
        expr_leaves(*m.prop)
    };
    match m.obj {
        ExprOrSuper::Super => {},
        ExprOrSuper::Expr(e) => {
            lemma_expr_leaves_inside(*e);
        },
    }
    if !m.computed {
        lemma_expr_leaves_inside(*m.prop);
    }
    assert(member_leaves(m) == a + b);
    assert forall|k: int| 0 <= k < member_leaves(m).len() implies decreases_to!(m => #[trigger] member_leaves(m)[k]) by {
        if k < a.len() {
            assert(member_leaves(m)[k] == a[k]);
            match m.obj {
                ExprOrSuper::Super => {},
                ExprOrSuper::Expr(e) => {
                    assert(decreases_to!(m => m.obj));
                    assert(decreases_to!(m.obj => e));
                },
            }
        } else {
            assert(member_leaves(m)[k] == b[k - a.len()]);
            assert(decreases_to!(m => m.prop));
        }
    }
}

/// Each leaf of an expression is the expression or lies inside it.
pub proof fn lemma_expr_leaves_inside(e: Expr)
    ensures
        forall|k: int| 0 <= k < expr_leaves(e).len() ==> #[trigger] expr_leaves(e)[k] == e || decreases_to!(e => expr_leaves(e)[k]),
    decreases e,
{
    match e {
        Expr::Member(m) => {
            lemma_member_leaves_inside(m);
            assert forall|k: int| 0 <= k < expr_leaves(e).len() implies decreases_to!(e => #[trigger] expr_leaves(e)[k]) by {
                assert(decreases_to!(e => m));
                assert(decreases_to!(m => member_leaves(m)[k]));
            }
        },
        _ => {},
    }
}

} // verus!
