//! Helper to analyze exports from a module.
use vstd::prelude::*;

use crate::ast::{Decl, ExportDecl, ExportSpecifier, Expr, Function, Module, ModuleItem, Pat, VarDecl, VarDeclarator};

verus! {

/// An export of a module, borrowed from its declaration.
#[derive(Debug)]
pub enum ExportRecord<'a> {
    /// `export var|let|const ...`
    VarDecl { var: &'a VarDecl },
    /// `export function name() {}`
    FnDecl { ident: &'a String, func: &'a Function },
    /// `export { a, b as c }`
    Named { specifiers: &'a Vec<ExportSpecifier> },
    /// `export default expr`
    DefaultExpr { expr: &'a Expr },
}

/// A re-export of another module.
#[derive(Debug)]
pub enum ReexportRecord<'a> {
    /// `export * from 'module'`
    All { source: String },
    /// `export { a, b as c } from 'module'`
    Named { source: String, specifiers: &'a Vec<ExportSpecifier> },
}

/// The view of an export record.
pub enum ExportRecordView {
    /// A variable declaration.
    VarDecl(VarDecl),
    /// A function declaration, by its name.
    FnDecl(Seq<char>),
    /// Named exports.
    Named(Seq<ExportSpecifier>),
    /// A default export of an expression.
    DefaultExpr,
}

/// The view of a re-export record.
pub enum ReexportRecordView {
    /// Everything a module exports.
    All(Seq<char>),
    /// Named exports of a module.
    Named(Seq<char>, Seq<ExportSpecifier>),
}

impl<'a> View for ExportRecord<'a> {
    type V = ExportRecordView;

    open spec fn view(&self) -> ExportRecordView {
        match self {
            ExportRecord::VarDecl { var } => ExportRecordView::VarDecl(**var),
            ExportRecord::FnDecl { ident, func: _ } => ExportRecordView::FnDecl(ident@),
            ExportRecord::Named { specifiers } => ExportRecordView::Named(specifiers@),
            ExportRecord::DefaultExpr { expr: _ } => ExportRecordView::DefaultExpr,
        }
    }
}

impl<'a> View for ReexportRecord<'a> {
    type V = ReexportRecordView;

    open spec fn view(&self) -> ReexportRecordView {
        match self {
            ReexportRecord::All { source } => ReexportRecordView::All(source@),
            ReexportRecord::Named { source, specifiers } => ReexportRecordView::Named(
                source@,
                specifiers@,
            ),
        }
    }
}

/// The views of export records.
pub open spec fn exports_view(rs: Seq<ExportRecord>) -> Seq<ExportRecordView> {
    rs.map_values(|r: ExportRecord| r@)
}

/// The views of re-export records.
pub open spec fn reexports_view(rs: Seq<ReexportRecord>) -> Seq<ReexportRecordView> {
    rs.map_values(|r: ReexportRecord| r@)
}

/// The exports a module item declares: variable and function declarations,
/// named exports without a source, and default expressions.
pub open spec fn item_exports(item: ModuleItem) -> Seq<ExportRecordView> {
    match item {
        ModuleItem::Export(d) => match d {
            ExportDecl::Named(None, specs) => seq![ExportRecordView::Named(specs@)],
            ExportDecl::Decl(Decl::Var(v)) => seq![ExportRecordView::VarDecl(v)],
            ExportDecl::Decl(Decl::Fn(name, _)) => seq![ExportRecordView::FnDecl(name@)],
            ExportDecl::DefaultExpr(_) => seq![ExportRecordView::DefaultExpr],
            _ => Seq::empty(),
        },
        _ => Seq::empty(),
    }
}

/// The re-exports a module item declares.
pub open spec fn item_reexports(item: ModuleItem) -> Seq<ReexportRecordView> {
    match item {
        ModuleItem::Export(d) => match d {
            ExportDecl::All(src) => seq![ReexportRecordView::All(src@)],
            ExportDecl::Named(Some(src), specs) => seq![ReexportRecordView::Named(src@, specs@)],
            _ => Seq::empty(),
        },
        _ => Seq::empty(),
    }
}

/// The exports module items declare, in order.
pub open spec fn items_exports(items: Seq<ModuleItem>) -> Seq<ExportRecordView>
    decreases items.len(),
{
    if items.len() == 0 {
        Seq::empty()
    } else {
        items_exports(items.drop_last()) + item_exports(items.last())
    }
}

/// The re-exports module items declare, in order.
pub open spec fn items_reexports(items: Seq<ModuleItem>) -> Seq<ReexportRecordView>
    decreases items.len(),
{
    if items.len() == 0 {
        Seq::empty()
    } else {
        items_reexports(items.drop_last()) + item_reexports(items.last())
    }
}

/// The names that declarators bind to a plain identifier, in order.
pub open spec fn ident_declarator_names(ds: Seq<VarDeclarator>) -> Seq<Seq<char>>
    decreases ds.len(),
{
    if ds.len() == 0 {
        Seq::empty()
    } else {
        ident_declarator_names(ds.drop_last()) + match ds.last().name {
            Pat::Ident(x) => seq![x@],
            _ => Seq::empty(),
        }
    }
}

/// The names of the exported variables that are plain identifiers, in
/// order: those an assignment can make live.
pub open spec fn var_export_names_of(rs: Seq<ExportRecordView>) -> Seq<Seq<char>>
    decreases rs.len(),
{
    if rs.len() == 0 {
        Seq::empty()
    } else {
        var_export_names_of(rs.drop_last()) + match rs.last() {
            ExportRecordView::VarDecl(v) => ident_declarator_names(v.decls@),
            _ => Seq::empty(),
        }
    }
}

/// The views of names.
pub open spec fn names_view(ns: Seq<String>) -> Seq<Seq<char>> {
    ns.map_values(|n: String| n@)
}

/// Record the exports and re-exports of a module item.
pub fn record_export_item<'a>(
    exports: &mut Vec<ExportRecord<'a>>,
    reexports: &mut Vec<ReexportRecord<'a>>,
    n: &'a ModuleItem,
)
    ensures
        exports_view(final(exports)@) == exports_view(old(exports)@) + item_exports(*n),
        reexports_view(final(reexports)@) == reexports_view(old(reexports)@) + item_reexports(*n),
{
    let ghost e0 = exports@;
    let ghost r0 = reexports@;
    if let ModuleItem::Export(d) = n {
        match d {
            ExportDecl::All(src) => {
                reexports.push(ReexportRecord::All { source: src.clone() });
            },
            ExportDecl::Named(src, specifiers) => match src {
                Some(src) => {
                    reexports.push(ReexportRecord::Named { source: src.clone(), specifiers });
                },
                None => {
                    exports.push(ExportRecord::Named { specifiers });
                },
            },
            ExportDecl::Decl(dc) => match dc {
                Decl::Var(var) => {
                    exports.push(ExportRecord::VarDecl { var });
                },
                Decl::Fn(ident, func) => {
                    exports.push(ExportRecord::FnDecl { ident, func });
                },
                _ => {},
            },
            ExportDecl::DefaultExpr(expr) => {
                exports.push(ExportRecord::DefaultExpr { expr });
            },
            _ => {},
        }
    }
    assert(exports_view(exports@) =~= exports_view(e0) + item_exports(*n));
    assert(reexports_view(reexports@) =~= reexports_view(r0) + item_reexports(*n));
}

/// The names of the exported variables of export records that are plain
/// identifiers, in order.
pub fn var_export_names_in(exports: &Vec<ExportRecord>) -> (r: Vec<String>)
    ensures
        names_view(r@) == var_export_names_of(exports_view(exports@)),
{
    let ghost rs = exports_view(exports@);
    let mut out: Vec<String> = Vec::new();
    let mut i: usize = 0;
    while i < exports.len()
        invariant
            i <= exports@.len(),
            rs == exports_view(exports@),
            names_view(out@) == var_export_names_of(rs.take(i as int)),
        decreases exports@.len() - i,
    {
        proof {
            let t = rs.take(i as int + 1);
            assert(t.drop_last() =~= rs.take(i as int));
            assert(t.last() == exports@[i as int]@);
        }
        if let ExportRecord::VarDecl { var } = &exports[i] {
            let ghost base = names_view(out@);
            let mut j: usize = 0;
            while j < var.decls.len()
                invariant
                    j <= var.decls@.len(),
                    names_view(out@) == base + ident_declarator_names(var.decls@.take(j as int)),
                decreases var.decls@.len() - j,
            {
                proof {
                    let t = var.decls@.take(j as int + 1);
                    assert(t.drop_last() =~= var.decls@.take(j as int));
                    assert(t.last() == var.decls@[j as int]);
                }
                let ghost prev = out@;
                if let Pat::Ident(x) = &var.decls[j].name {
                    out.push(x.clone());
                    assert(names_view(out@) =~= names_view(prev).push(x@));
                }
                assert(names_view(out@) =~= base + ident_declarator_names(var.decls@.take(j as int + 1)));
                j = j + 1;
            }
            assert(var.decls@.take(var.decls@.len() as int) =~= var.decls@);
        }
        assert(names_view(out@) =~= var_export_names_of(rs.take(i as int + 1)));
        i = i + 1;
    }
    assert(rs.take(rs.len() as int) =~= rs);
    out
}

/// Analysis of the exports and re-exports of modules.
#[derive(Debug)]
pub struct ExportAnalysis<'a> {
    /// The exports, in order.
    pub exports: Vec<ExportRecord<'a>>,
    /// The re-exports, in order.
    pub reexports: Vec<ReexportRecord<'a>>,
    /// The live exports.
    pub live: Vec<String>,
}

impl<'a> ExportAnalysis<'a> {
    /// An analysis with no exports.
    pub fn new() -> (r: ExportAnalysis<'a>)
        ensures
            r.exports@.len() == 0,
            r.reexports@.len() == 0,
            r.live@.len() == 0,
    {
        ExportAnalysis { exports: Vec::new(), reexports: Vec::new(), live: Vec::new() }
    }

    /// Get the names of exported symbols so that the live export
    /// analysis can detect which exports have assignment.
    pub fn var_export_names(&self) -> (r: Vec<String>)
        ensures
            names_view(r@) == var_export_names_of(exports_view(self.exports@)),
    {
        var_export_names_in(&self.exports)
    }

    /// Record the exports and re-exports of a module item.
    pub fn visit_module_item(&mut self, n: &'a ModuleItem)
        ensures
            exports_view(final(self).exports@) == exports_view(old(self).exports@) + item_exports(*n),
            reexports_view(final(self).reexports@) == reexports_view(old(self).reexports@) + item_reexports(*n),
            final(self).live@ == old(self).live@,
    {
        record_export_item(&mut self.exports, &mut self.reexports, n);
    }

    /// Record the exports and re-exports of every item of a module, in
    /// order.
    pub fn visit_module(&mut self, module: &'a Module)
        ensures
            exports_view(final(self).exports@) == exports_view(old(self).exports@) + items_exports(module.body@),
            reexports_view(final(self).reexports@) == reexports_view(old(self).reexports@) + items_reexports(
                module.body@,
            ),
            final(self).live@ == old(self).live@,
    {
        let ghost e0 = exports_view(self.exports@);
        let ghost r0 = reexports_view(self.reexports@);
        let mut i: usize = 0;
        while i < module.body.len()
            invariant
                i <= module.body@.len(),
                exports_view(self.exports@) == e0 + items_exports(module.body@.take(i as int)),
                reexports_view(self.reexports@) == r0 + items_reexports(module.body@.take(i as int)),
                self.live@ == old(self).live@,
            decreases module.body@.len() - i,
        {
            proof {
                let t = module.body@.take(i as int + 1);
                assert(t.drop_last() =~= module.body@.take(i as int));
                assert(t.last() == module.body@[i as int]);
            }
            self.visit_module_item(&module.body[i]);
            assert(e0 + items_exports(module.body@.take(i as int + 1)) =~= e0 + items_exports(
                module.body@.take(i as int),
            ) + item_exports(module.body@[i as int]));
            assert(r0 + items_reexports(module.body@.take(i as int + 1)) =~= r0 + items_reexports(
                module.body@.take(i as int),
            ) + item_reexports(module.body@[i as int]));
            i = i + 1;
        }
        assert(module.body@.take(module.body@.len() as int) =~= module.body@);
    }
}

} // verus!
