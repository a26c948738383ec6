//! Helper to analyze live exports from a module.
use vstd::prelude::*;

use crate::analysis::exports::names_view;
use crate::analysis::reach::{derefs, export_reach, reach_export};
use crate::ast::{Expr, Module, ModuleItem, Pat, PatOrExpr, Stmt};
use crate::text::str_eq;

verus! {

/// The name an expression statement assigns to when it is an assignment to
/// a plain identifier.
pub open spec fn assigned_name(s: Stmt) -> Option<Seq<char>> {
    match s {
        Stmt::Expr(e) => match *e {
            Expr::Assign(PatOrExpr::Pat(p), _) => match *p {
                Pat::Ident(x) => Some(x@),
                _ => None,
            },
            _ => None,
        },
        _ => None,
    }
}

/// The live export a statement makes: the name it assigns to, when that is
/// the name of an export.
pub open spec fn stmt_live(s: Stmt, exports: Seq<Seq<char>>) -> Seq<Seq<char>> {
    match assigned_name(s) {
        Some(x) => if exports.contains(x) {
            seq![x]
        } else {
            Seq::empty()
        },
        None => Seq::empty(),
    }
}

/// The live exports statements make, in order.
pub open spec fn stmts_live(ss: Seq<Stmt>, exports: Seq<Seq<char>>) -> Seq<Seq<char>>
    decreases ss.len(),
{
    if ss.len() == 0 {
        Seq::empty()
    } else {
        stmts_live(ss.drop_last(), exports) + stmt_live(ss.last(), exports)
    }
}

/// The live exports a module item makes: a statement of the module is
/// checked, as is each statement reached inside an export declaration;
/// statements are not looked into.
pub open spec fn item_live(item: ModuleItem, exports: Seq<Seq<char>>) -> Seq<Seq<char>> {
    match item {
        ModuleItem::Stmt(s) => stmt_live(s, exports),
        ModuleItem::Export(d) => stmts_live(export_reach(d), exports),
        ModuleItem::Import(_) => Seq::empty(),
    }
}

/// The live exports module items make, in order.
pub open spec fn items_live(items: Seq<ModuleItem>, exports: Seq<Seq<char>>) -> Seq<Seq<char>>
    decreases items.len(),
{
    if items.len() == 0 {
        Seq::empty()
    } else {
        items_live(items.drop_last(), exports) + item_live(items.last(), exports)
    }
}

/// The name an expression statement assigns to, when it assigns to a
/// plain identifier.
fn assigned(n: &Stmt) -> (r: Option<&String>)
    ensures
        r matches Some(x) ==> assigned_name(*n) == Some(x@),
        r is None ==> assigned_name(*n) is None,
{
    match n {
        Stmt::Expr(e) => match &**e {
            Expr::Assign(left, _) => match left {
                PatOrExpr::Pat(p) => match &**p {
                    Pat::Ident(x) => Some(x),
                    _ => None,
                },
                _ => None,
            },
            _ => None,
        },
        _ => None,
    }
}

/// Live export analysis: the exported names that statements assign to.
///
/// It is a pass of its own after the export analysis, which only looks at
/// the declarations of a module.
#[derive(Debug)]
pub struct LiveExportAnalysis {
    /// The names of the exported variables.
    pub exports: Vec<String>,
    /// The exported names assigned to, in order.
    pub live: Vec<String>,
}

impl LiveExportAnalysis {
    /// An analysis of the given exported names, with no live exports yet.
    pub fn new(exports: Vec<String>) -> (r: LiveExportAnalysis)
        ensures
            r.exports@ == exports@,
            r.live@.len() == 0,
    {
        LiveExportAnalysis { exports, live: Vec::new() }
    }

    /// Record the export a statement assigns to.
    pub fn visit_stmt(&mut self, n: &Stmt)
        ensures
            final(self).exports@ == old(self).exports@,
            names_view(final(self).live@) == names_view(old(self).live@) + stmt_live(*n, names_view(old(self).exports@)),
    {
        let ghost ex = names_view(self.exports@);
        let ghost prev = self.live@;
        if let Some(x) = assigned(n) {
            let mut i: usize = 0;
            while i < self.exports.len()
                invariant
                    i <= self.exports@.len(),
                    ex == names_view(self.exports@),
                    self.exports@ == old(self).exports@,
                    prev == old(self).live@,
                    self.live@ == prev,
                    forall|j: int| 0 <= j < i ==> ex[j] != x@,
                    assigned_name(*n) == Some(x@),
                decreases self.exports@.len() - i,
            {
                if str_eq(x.as_str(), self.exports[i].as_str()) {
                    assert(ex[i as int] == x@);
                    self.live.push(x.clone());
                    assert(names_view(self.live@) =~= names_view(prev).push(x@));
                    assert(ex.contains(x@));
                    assert(names_view(prev).push(x@) =~= names_view(prev) + seq![x@]);
                    return;
                }
                i = i + 1;
            }
            assert(!ex.contains(x@));
        }
        assert(names_view(self.live@) =~= names_view(prev) + stmt_live(*n, ex));
    }

    /// Record the exports a module's statements assign to: each statement
    /// of the module and each statement reached inside its export
    /// declarations.
    pub fn visit_module(&mut self, module: &Module)
        ensures
            final(self).exports@ == old(self).exports@,
            names_view(final(self).live@) == names_view(old(self).live@) + items_live(
                module.body@,
                names_view(old(self).exports@),
            ),
    {
        let ghost ex = names_view(self.exports@);
        let ghost l0 = names_view(self.live@);
        let mut i: usize = 0;
        while i < module.body.len()
            invariant
                i <= module.body@.len(),
                self.exports@ == old(self).exports@,
                ex == names_view(self.exports@),
                names_view(self.live@) == l0 + items_live(module.body@.take(i as int), ex),
            decreases module.body@.len() - i,
        {
            proof {
                let t = module.body@.take(i as int + 1);
                assert(t.drop_last() =~= module.body@.take(i as int));
                assert(t.last() == module.body@[i as int]);
            }
            let ghost before = names_view(self.live@);
            match &module.body[i] {
                ModuleItem::Stmt(s) => self.visit_stmt(s),
                ModuleItem::Export(d) => {
                    let reached = reach_export(d);
                    let ghost all = derefs(reached@);
                    let mut j: usize = 0;
                    while j < reached.len()
                        invariant
                            j <= reached@.len(),
                            all == derefs(reached@),
                            self.exports@ == old(self).exports@,
                            ex == names_view(self.exports@),
                            names_view(self.live@) == before + stmts_live(all.take(j as int), ex),
                        decreases reached@.len() - j,
                    {
                        proof {
                            let t = all.take(j as int + 1);
                            assert(t.drop_last() =~= all.take(j as int));
                            assert(t.last() == *reached@[j as int]);
                        }
                        self.visit_stmt(reached[j]);
                        j = j + 1;
                    }
                    assert(all.take(all.len() as int) =~= all);
                },
                ModuleItem::Import(_) => {},
            }
            assert(l0 + items_live(module.body@.take(i as int + 1), ex) =~= l0 + items_live(
                module.body@.take(i as int),
                ex,
            ) + item_live(module.body@[i as int], ex));
            i = i + 1;
        }
        assert(module.body@.take(module.body@.len() as int) =~= module.body@);
    }
}

} // verus!
