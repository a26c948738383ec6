//! Helpers to analyze modules for the static module record: the imports,
//! exports and re-exports of a module, and the exported functions whose
//! declarations are hoisted.
use vstd::prelude::*;

use indexmap::{IndexMap, IndexSet};

use crate::analysis::exports::{
    exports_view, item_exports, item_reexports, items_exports, items_reexports, names_view, reexports_view,
    record_export_item, var_export_names_in, var_export_names_of, ExportRecord, ReexportRecord,
};
use crate::analysis::imports::{decl_imported, items_imported, record_import_decl, ImportRecord, ImportRecordView};
use crate::analysis::roots::{expr_derefs, item_roots_of, items_roots};
use crate::ast::{Decl, ExportDecl, Expr, Module, ModuleItem, Pat, PatOrExpr};
use crate::collections::{import_record_entries, import_records_new, inserted, name_items, names_insert, names_new};

verus! {

/// The names of the functions a module item exports by declaration.
pub open spec fn item_hoisted(item: ModuleItem) -> Option<Seq<char>> {
    match item {
        ModuleItem::Export(ExportDecl::Decl(Decl::Fn(name, _))) => Some(name@),
        _ => None,
    }
}

/// The set of hoisted functions after module items, in order.
pub open spec fn items_hoisted(items: Seq<ModuleItem>, set: Seq<Seq<char>>) -> Seq<Seq<char>>
    decreases items.len(),
{
    if items.len() == 0 {
        set
    } else {
        let s = items_hoisted(items.drop_last(), set);
        match item_hoisted(items.last()) {
            Some(n) => inserted(s, n),
            None => s,
        }
    }
}

/// The import entries after a module item: an import declaration records
/// its bindings.
pub open spec fn item_imported(
    item: ModuleItem,
    entries: Seq<(Seq<char>, Seq<ImportRecordView>)>,
) -> Seq<(Seq<char>, Seq<ImportRecordView>)> {
    match item {
        ModuleItem::Import(d) => decl_imported(entries, d),
        _ => entries,
    }
}

/// Analyze a module's imports and exports.
#[derive(Debug)]
pub struct Analyzer<'a> {
    /// List of computed imports.
    pub imports: IndexMap<String, Vec<ImportRecord>>,
    /// List of computed exports.
    pub exports: Vec<ExportRecord<'a>>,
    /// List of computed re-exports.
    pub reexports: Vec<ReexportRecord<'a>>,
    /// Functions that need some transforms hoisted.
    pub hoisted_funcs: IndexSet<String>,
}

impl<'a> Analyzer<'a> {
    /// Create a new export analyzer.
    pub fn new() -> (r: Analyzer<'a>)
        ensures
            import_record_entries(r.imports).len() == 0,
            r.exports@.len() == 0,
            r.reexports@.len() == 0,
            name_items(r.hoisted_funcs).len() == 0,
    {
        Analyzer { imports: import_records_new(), exports: Vec::new(), reexports: Vec::new(), hoisted_funcs: names_new() }
    }

    /// Get the names of exported symbols so that the live export
    /// analysis can detect which exports have assignment.
    pub fn var_export_names(&self) -> (r: Vec<String>)
        ensures
            names_view(r@) == var_export_names_of(exports_view(self.exports@)),
    {
        var_export_names_in(&self.exports)
    }

    /// Record a module item: the bindings of an import declaration, the
    /// exports and re-exports of an export declaration, and the name of an
    /// exported function declaration among the hoisted functions.
    pub fn visit_module_item(&mut self, n: &'a ModuleItem)
        ensures
            import_record_entries(final(self).imports) == item_imported(*n, import_record_entries(old(self).imports)),
            exports_view(final(self).exports@) == exports_view(old(self).exports@) + item_exports(*n),
            reexports_view(final(self).reexports@) == reexports_view(old(self).reexports@) + item_reexports(*n),
            name_items(final(self).hoisted_funcs) == match item_hoisted(*n) {
                Some(f) => inserted(name_items(old(self).hoisted_funcs), f),
                None => name_items(old(self).hoisted_funcs),
            },
    {
        if let ModuleItem::Export(ExportDecl::Decl(Decl::Fn(name, _))) = n {
            names_insert(&mut self.hoisted_funcs, name.clone());
        }
        if let ModuleItem::Import(d) = n {
            record_import_decl(&mut self.imports, d);
        }
        record_export_item(&mut self.exports, &mut self.reexports, n);
    }

    /// Record every item of a module, in order.
    pub fn visit_module(&mut self, module: &'a Module)
        ensures
            exports_view(final(self).exports@) == exports_view(old(self).exports@)
                + items_exports(module.body@),
            reexports_view(final(self).reexports@) == reexports_view(old(self).reexports@)
                + items_reexports(module.body@),
            import_record_entries(final(self).imports) == items_imported(
                module.body@,
                import_record_entries(old(self).imports),
            ),
            name_items(final(self).hoisted_funcs) == items_hoisted(module.body@, name_items(old(self).hoisted_funcs)),
    {
        let ghost e0 = exports_view(self.exports@);
        let ghost r0 = reexports_view(self.reexports@);
        let ghost i0 = import_record_entries(self.imports);
        let ghost h0 = name_items(self.hoisted_funcs);
        let mut i: usize = 0;
        while i < module.body.len()
            invariant
                i <= module.body@.len(),
                exports_view(self.exports@) == e0 + items_exports(module.body@.take(i as int)),
                reexports_view(self.reexports@) == r0 + items_reexports(
                    module.body@.take(i as int),
                ),
                import_record_entries(self.imports) == items_imported(
                    module.body@.take(i as int),
                    i0,
                ),
                name_items(self.hoisted_funcs) == items_hoisted(module.body@.take(i as int), h0),
            decreases module.body@.len() - i,
        {
            proof {
                let t = module.body@.take(i as int + 1);
                assert(t.drop_last() =~= module.body@.take(i as int));
                assert(t.last() == module.body@[i as int]);
            }
            self.visit_module_item(&module.body[i]);
            assert(e0 + items_exports(module.body@.take(i as int + 1)) =~= e0
                + items_exports(module.body@.take(i as int)) + item_exports(
                module.body@[i as int],
            ));
            assert(r0 + items_reexports(module.body@.take(i as int + 1)) =~= r0
                + items_reexports(module.body@.take(i as int)) + item_reexports(
                module.body@[i as int],
            ));
            i = i + 1;
        }
        assert(module.body@.take(module.body@.len() as int) =~= module.body@);
    }
}

/// The symbol an outermost expression refers to, if it is an update or an
/// assignment of an identifier, or an identifier; and whether it is the
/// identifier itself.
pub open spec fn root_symbol(e: Expr) -> Option<(Seq<char>, bool)> {
    match e {
        Expr::Update(arg) => match *arg {
            Expr::Ident(x) => Some((x@, false)),
            _ => None,
        },
        Expr::Assign(left, _) => match left {
            PatOrExpr::Pat(p) => match *p {
                Pat::Ident(x) => Some((x@, false)),
                _ => None,
            },
            PatOrExpr::Expr(l) => match *l {
                Expr::Ident(x) => Some((x@, false)),
                _ => None,
            },
        },
        Expr::Ident(x) => Some((x@, true)),
        _ => None,
    }
}

/// The live export an outermost expression makes: the exported name it
/// updates, assigns or refers to.
pub open spec fn root_live(e: Expr, exports: Seq<Seq<char>>) -> Seq<Seq<char>> {
    match root_symbol(e) {
        Some((x, _)) => if exports.contains(x) {
            seq![x]
        } else {
            Seq::empty()
        },
        None => Seq::empty(),
    }
}

/// The live exports outermost expressions make, in order.
pub open spec fn roots_live(roots: Seq<Expr>, exports: Seq<Seq<char>>) -> Seq<Seq<char>>
    decreases roots.len(),
{
    if roots.len() == 0 {
        Seq::empty()
    } else {
        roots_live(roots.drop_last(), exports) + root_live(roots.last(), exports)
    }
}

/// The set of exports referred to by an identifier that must be hoisted,
/// after outermost expressions in order.
pub open spec fn roots_hoisted(roots: Seq<Expr>, exports: Seq<Seq<char>>, set: Seq<Seq<char>>) -> Seq<Seq<char>>
    decreases roots.len(),
{
    if roots.len() == 0 {
        set
    } else {
        root_hoisted(roots.last(), exports, roots_hoisted(roots.drop_last(), exports, set))
    }
}

/// The set of exports to hoist after an outermost expression: an
/// identifier that names an export joins it.
pub open spec fn root_hoisted(e: Expr, exports: Seq<Seq<char>>, set: Seq<Seq<char>>) -> Seq<Seq<char>> {
    match root_symbol(e) {
        Some((x, true)) => if exports.contains(x) {
            inserted(set, x)
        } else {
            set
        },
        _ => set,
    }
}

/// The symbol an outermost expression refers to, and whether it is an
/// identifier itself.
fn symbol_of(e: &Expr) -> (r: Option<(&String, bool)>)
    ensures
        r matches Some((x, b)) ==> root_symbol(*e) == Some((x@, b)),
        r is None ==> root_symbol(*e) is None,
{
    match e {
        Expr::Update(arg) => match &**arg {
            Expr::Ident(x) => Some((x, false)),
            _ => None,
        },
        Expr::Assign(left, _) => match left {
            PatOrExpr::Pat(p) => match &**p {
                Pat::Ident(x) => Some((x, false)),
                _ => None,
            },
            PatOrExpr::Expr(l) => match &**l {
                Expr::Ident(x) => Some((x, false)),
                _ => None,
            },
        },
        Expr::Ident(x) => Some((x, true)),
        _ => None,
    }
}

/// Live export analysis is done as a separate pass from the
/// export analysis: it finds the exported names that the module updates,
/// assigns or refers to.
#[derive(Debug)]
pub struct LiveExportAnalysis {
    /// List of exported symbol names.
    pub exports: Vec<String>,
    /// List of exported symbol names that are considered live exports.
    pub live: Vec<String>,
    /// List of export references that should be hoisted during transformation.
    pub hoisted_refs: IndexSet<String>,
}

impl LiveExportAnalysis {
    /// Create a new live export analyzer.
    pub fn new() -> (r: LiveExportAnalysis)
        ensures
            r.exports@.len() == 0,
            r.live@.len() == 0,
            name_items(r.hoisted_refs).len() == 0,
    {
        LiveExportAnalysis { exports: Vec::new(), live: Vec::new(), hoisted_refs: names_new() }
    }

    /// Record a symbol as live when it is an exported name.
    fn detect_match(&mut self, sym: &String) -> (r: bool)
        ensures
            r <==> names_view(old(self).exports@).contains(sym@),
            final(self).exports@ == old(self).exports@,
            final(self).hoisted_refs == old(self).hoisted_refs,
            names_view(final(self).live@) == names_view(old(self).live@) + if r {
                seq![sym@]
            } else {
                Seq::empty()
            },
    {
        let ghost ex = names_view(self.exports@);
        let mut i: usize = 0;
        while i < self.exports.len()
            invariant
                i <= self.exports@.len(),
                ex == names_view(self.exports@),
                self.exports@ == old(self).exports@,
                self.live@ == old(self).live@,
                self.hoisted_refs == old(self).hoisted_refs,
                forall|j: int| 0 <= j < i ==> ex[j] != sym@,
            decreases self.exports@.len() - i,
        {
            if crate::text::str_eq(self.exports[i].as_str(), sym.as_str()) {
                assert(ex[i as int] == sym@);
                let ghost prev = self.live@;
                self.live.push(sym.clone());
                assert(names_view(self.live@) =~= names_view(prev) + seq![sym@]);
                return true;
            }
            i = i + 1;
        }
        assert(!ex.contains(sym@));
        assert(names_view(self.live@) =~= names_view(old(self).live@) + Seq::<Seq<char>>::empty());
        false
    }

    /// Visit an outermost expression.
    pub fn visit_expr(&mut self, n: &Expr)
        ensures
            final(self).exports@ == old(self).exports@,
            names_view(final(self).live@) == names_view(old(self).live@) + root_live(
                *n,
                names_view(old(self).exports@),
            ),
            name_items(final(self).hoisted_refs) == root_hoisted(
                *n,
                names_view(old(self).exports@),
                name_items(old(self).hoisted_refs),
            ),
    {
        let ghost ex = names_view(self.exports@);
        let ghost h0 = name_items(self.hoisted_refs);
        match symbol_of(n) {
            Some((x, is_ident)) => {
                let matched = self.detect_match(x);
                if matched && is_ident {
                    names_insert(&mut self.hoisted_refs, x.clone());
                }
            },
            None => {
                assert(names_view(self.live@) =~= names_view(old(self).live@) + root_live(*n, ex));
            },
        }
    }

    /// Visit the outermost expressions of every item of a module, in order.
    pub fn visit_module(&mut self, module: &Module)
        ensures
            final(self).exports@ == old(self).exports@,
            names_view(final(self).live@) == names_view(old(self).live@) + roots_live(
                items_roots(module.body@),
                names_view(old(self).exports@),
            ),
            name_items(final(self).hoisted_refs) == roots_hoisted(
                items_roots(module.body@),
                names_view(old(self).exports@),
                name_items(old(self).hoisted_refs),
            ),
    {
        let ghost ex = names_view(self.exports@);
        let ghost l0 = names_view(self.live@);
        let ghost h0 = name_items(self.hoisted_refs);
        let mut i: usize = 0;
        assert(items_roots(module.body@.take(0)) =~= Seq::<Expr>::empty());
        while i < module.body.len()
            invariant
                i <= module.body@.len(),
                self.exports@ == old(self).exports@,
                ex == names_view(self.exports@),
                names_view(self.live@) == l0 + roots_live(items_roots(module.body@.take(i as int)), ex),
                name_items(self.hoisted_refs) == roots_hoisted(items_roots(module.body@.take(i as int)), ex, h0),
            decreases module.body@.len() - i,
        {
            let roots = item_roots_of(&module.body[i]);
            let ghost done = items_roots(module.body@.take(i as int));
            let ghost rs = expr_derefs(roots@);
            let mut j: usize = 0;
            assert(done + rs.take(0) =~= done);
            while j < roots.len()
                invariant
                    j <= roots@.len(),
                    rs == expr_derefs(roots@),
                    self.exports@ == old(self).exports@,
                    ex == names_view(self.exports@),
                    names_view(self.live@) == l0 + roots_live(done + rs.take(j as int), ex),
                    name_items(self.hoisted_refs) == roots_hoisted(done + rs.take(j as int), ex, h0),
                decreases roots@.len() - j,
            {
                let ghost before_h = name_items(self.hoisted_refs);
                self.visit_expr(roots[j]);
                proof {
                    let u = done + rs.take(j as int + 1);
                    assert(u.drop_last() =~= done + rs.take(j as int));
                    assert(u.last() == *roots@[j as int]);
                }
                j = j + 1;
            }
            proof {
                assert(rs.take(rs.len() as int) =~= rs);
                let t = module.body@.take(i as int + 1);
                assert(t.drop_last() =~= module.body@.take(i as int));
                assert(t.last() == module.body@[i as int]);
            }
            i = i + 1;
        }
        assert(module.body@.take(module.body@.len() as int) =~= module.body@);
    }
}

} // verus!
