//! Parse static module record meta data.
use vstd::prelude::*;

use crate::analysis::exports::{
    exports_view, items_exports, items_reexports, names_view, reexports_view, var_export_names_of, ExportAnalysis,
    ExportRecord, ExportRecordView, ReexportRecord, ReexportRecordView,
};
use crate::analysis::imports::{items_imported, records_view, ImportAnalysis, ImportRecord, ImportRecordView};
use crate::analysis::live_exports::{items_live, LiveExportAnalysis};
use crate::source::{parse_source, parsed_module};
use crate::ast::{ExportSpecifier, Module, ObjectPatProp, Pat, PropName, VarDecl, VarDeclarator};
use crate::collections::{
    distinct_keys, entry_inserted, entry_value, import_record_entries, import_records_get_index, import_records_len,
    key_position, lemma_inserted_distinct, lemma_key_position,
};
use crate::static_module_record::table::{entry_removed, Table};
use crate::static_module_record::{
    opt_view, ImportKind, ImportName, ImportNameView, LiveExport, LiveExportView, RecordView, StaticModuleRecord,
};

verus! {

/// The names a pattern binds that the record lists: an identifier, the
/// keys of shorthand properties and the names of property values followed
/// by an identifier key, the elements of an array and the argument of a
/// rest element.
pub open spec fn record_pattern_names(p: Pat) -> Seq<Seq<char>>
    decreases p,
{
    match p {
        Pat::Ident(x) => seq![x@],
        Pat::Object(props) => record_props_names(props@),
        Pat::Array(elems) => record_elems_names(elems@),
        Pat::Rest(arg) => record_pattern_names(*arg),
        _ => Seq::empty(),
    }
}

/// The names the properties of an object pattern bind, in order.
pub open spec fn record_props_names(ps: Seq<ObjectPatProp>) -> Seq<Seq<char>>
    decreases ps,
{
    if ps.len() == 0 {
        Seq::empty()
    } else {
        record_props_names(ps.subrange(0, ps.len() - 1)) + match ps[ps.len() - 1] {
            ObjectPatProp::Assign(key, _) => seq![key@],
            ObjectPatProp::KeyValue(key, value) => record_pattern_names(*value) + match key {
                PropName::Ident(k) => seq![k@],
                PropName::Computed(_) | PropName::Other => Seq::empty(),
            },
            ObjectPatProp::Rest(_) => Seq::empty(),
        }
    }
}

/// The names the elements of an array pattern bind, in order.
pub open spec fn record_elems_names(es: Seq<Option<Pat>>) -> Seq<Seq<char>>
    decreases es,
{
    if es.len() == 0 {
        Seq::empty()
    } else {
        record_elems_names(es.subrange(0, es.len() - 1)) + match es[es.len() - 1] {
            Some(p) => record_pattern_names(p),
            None => Seq::empty(),
        }
    }
}

/// Whether a declarator binds an identifier or an object pattern.
pub open spec fn lists_names(p: Pat) -> bool {
    p is Ident || p is Object
}

/// The declarators that bind an identifier or an object pattern, by
/// index, with the names they bind.
pub open spec fn symbol_entries(ds: Seq<VarDeclarator>) -> Seq<(int, Seq<Seq<char>>)>
    decreases ds.len(),
{
    if ds.len() == 0 {
        Seq::empty()
    } else {
        symbol_entries(ds.drop_last()) + if lists_names(ds.last().name) {
            seq![(ds.len() - 1, record_pattern_names(ds.last().name))]
        } else {
            Seq::empty()
        }
    }
}

/// The names of symbol entries, one after the other.
pub open spec fn flat_names(es: Seq<(int, Seq<Seq<char>>)>) -> Seq<Seq<char>>
    decreases es.len(),
{
    if es.len() == 0 {
        Seq::empty()
    } else {
        flat_names(es.drop_last()) + es.last().1
    }
}

/// The views of symbol entries.
pub open spec fn symbol_entries_view(s: Seq<(usize, Vec<String>)>) -> Seq<(int, Seq<Seq<char>>)> {
    s.map_values(|e: (usize, Vec<String>)| (e.0 as int, names_view(e.1@)))
}

/// The import name of an import record; a side effect import has none.
pub open spec fn record_name(r: ImportRecordView) -> Option<ImportNameView> {
    match r {
        ImportRecordView::SideEffect => None,
        ImportRecordView::Named(name, alias) => Some(
            ImportNameView { name, alias: Some(alias), kind: ImportKind::Named },
        ),
        ImportRecordView::Default(name) => Some(ImportNameView { name, alias: None, kind: ImportKind::Default }),
        ImportRecordView::All(name) => Some(ImportNameView { name, alias: None, kind: ImportKind::All }),
    }
}

/// The import names of import records, in order.
pub open spec fn record_names(rs: Seq<ImportRecordView>) -> Seq<ImportNameView>
    decreases rs.len(),
{
    if rs.len() == 0 {
        Seq::empty()
    } else {
        record_names(rs.drop_last()) + match record_name(rs.last()) {
            Some(n) => seq![n],
            None => Seq::empty(),
        }
    }
}

/// The imports of a record: the import names of each module specifier's
/// records.
pub open spec fn imports_of(imp: Seq<(Seq<char>, Seq<ImportRecordView>)>) -> Seq<(Seq<char>, Seq<ImportNameView>)>
    decreases imp.len(),
{
    if imp.len() == 0 {
        Seq::empty()
    } else {
        entry_inserted(imports_of(imp.drop_last()), imp.last().0, record_names(imp.last().1))
    }
}

/// The name an export specifier exports: the exported name, or the
/// original one when it is not renamed.
pub open spec fn exported_name(orig: String, exported: Option<String>) -> Seq<char> {
    match exported {
        Some(e) => e@,
        None => orig@,
    }
}

/// The fixed exports after each name is exported as itself.
pub open spec fn self_exported(
    t: Seq<(Seq<char>, Seq<Seq<char>>)>,
    names: Seq<Seq<char>>,
) -> Seq<(Seq<char>, Seq<Seq<char>>)>
    decreases names.len(),
{
    if names.len() == 0 {
        t
    } else {
        let t1 = self_exported(t, names.drop_last());
        entry_inserted(t1, names.last(), seq![names.last()])
    }
}

/// The fixed exports after named export specifiers.
pub open spec fn specifiers_fixed(
    t: Seq<(Seq<char>, Seq<Seq<char>>)>,
    specs: Seq<ExportSpecifier>,
) -> Seq<(Seq<char>, Seq<Seq<char>>)>
    decreases specs.len(),
{
    if specs.len() == 0 {
        t
    } else {
        let t1 = specifiers_fixed(t, specs.drop_last());
        match specs.last() {
            ExportSpecifier::Named(orig, exported) => entry_inserted(t1, exported_name(orig, exported), seq![orig@]),
            ExportSpecifier::Other => t1,
        }
    }
}

/// The fixed exports after an export: a function by its name, each name a
/// variable declaration lists, `default` for a default expression, and the
/// names of named exports.
pub open spec fn export_fixed(
    t: Seq<(Seq<char>, Seq<Seq<char>>)>,
    r: ExportRecordView,
) -> Seq<(Seq<char>, Seq<Seq<char>>)> {
    match r {
        ExportRecordView::FnDecl(name) => entry_inserted(t, name, seq![name]),
        ExportRecordView::VarDecl(v) => self_exported(t, flat_names(symbol_entries(v.decls@))),
        ExportRecordView::DefaultExpr => entry_inserted(t, "default"@, seq!["default"@]),
        ExportRecordView::Named(specs) => specifiers_fixed(t, specs),
    }
}

/// The fixed exports after exports in order.
pub open spec fn exports_fixed(rs: Seq<ExportRecordView>) -> Seq<(Seq<char>, Seq<Seq<char>>)>
    decreases rs.len(),
{
    if rs.len() == 0 {
        Seq::empty()
    } else {
        export_fixed(exports_fixed(rs.drop_last()), rs.last())
    }
}

/// The live exports after each name is marked live as itself, assigned.
pub open spec fn lives_marked(names: Seq<Seq<char>>) -> Seq<(Seq<char>, LiveExportView)>
    decreases names.len(),
{
    if names.len() == 0 {
        Seq::empty()
    } else {
        entry_inserted(lives_marked(names.drop_last()), names.last(), LiveExportView { name: names.last(), assigned: true })
    }
}

/// The fixed exports after the live names are removed.
pub open spec fn names_removed(
    t: Seq<(Seq<char>, Seq<Seq<char>>)>,
    names: Seq<Seq<char>>,
) -> Seq<(Seq<char>, Seq<Seq<char>>)>
    decreases names.len(),
{
    if names.len() == 0 {
        t
    } else {
        entry_removed(names_removed(t, names.drop_last()), names.last())
    }
}

/// The import names of re-exported specifiers: each original name, with
/// the exported name as its alias.
pub open spec fn reexport_names(specs: Seq<ExportSpecifier>) -> Seq<ImportNameView>
    decreases specs.len(),
{
    if specs.len() == 0 {
        Seq::empty()
    } else {
        reexport_names(specs.drop_last()) + match specs.last() {
            ExportSpecifier::Named(orig, exported) => seq![
                ImportNameView { name: orig@, alias: opt_view(exported), kind: ImportKind::Named },
            ],
            ExportSpecifier::Other => Seq::empty(),
        }
    }
}

/// The live exports after re-exported specifiers: each exported name is
/// bound to its original name, not assigned here.
pub open spec fn specifiers_live(
    t: Seq<(Seq<char>, LiveExportView)>,
    specs: Seq<ExportSpecifier>,
) -> Seq<(Seq<char>, LiveExportView)>
    decreases specs.len(),
{
    if specs.len() == 0 {
        t
    } else {
        let t1 = specifiers_live(t, specs.drop_last());
        match specs.last() {
            ExportSpecifier::Named(orig, exported) => entry_inserted(t1, exported_name(orig, exported), LiveExportView { name: orig@, assigned: false }),
            ExportSpecifier::Other => t1,
        }
    }
}

/// The imports after re-exports: a module whose names are re-exported
/// imports those names, one all of whose exports are re-exported imports
/// none by name.
pub open spec fn reexports_imports(
    t: Seq<(Seq<char>, Seq<ImportNameView>)>,
    rs: Seq<ReexportRecordView>,
) -> Seq<(Seq<char>, Seq<ImportNameView>)>
    decreases rs.len(),
{
    if rs.len() == 0 {
        t
    } else {
        let t1 = reexports_imports(t, rs.drop_last());
        match rs.last() {
            ReexportRecordView::Named(src, specs) => entry_inserted(t1, src, reexport_names(specs)),
            ReexportRecordView::All(src) => entry_inserted(t1, src, Seq::empty()),
        }
    }
}

/// The live exports after re-exports.
pub open spec fn reexports_live(
    t: Seq<(Seq<char>, LiveExportView)>,
    rs: Seq<ReexportRecordView>,
) -> Seq<(Seq<char>, LiveExportView)>
    decreases rs.len(),
{
    if rs.len() == 0 {
        t
    } else {
        let t1 = reexports_live(t, rs.drop_last());
        match rs.last() {
            ReexportRecordView::Named(_, specs) => specifiers_live(t1, specs),
            ReexportRecordView::All(_) => t1,
        }
    }
}

/// The modules all of whose exports are re-exported, in order.
pub open spec fn reexports_alls(rs: Seq<ReexportRecordView>) -> Seq<Seq<char>>
    decreases rs.len(),
{
    if rs.len() == 0 {
        Seq::empty()
    } else {
        reexports_alls(rs.drop_last()) + match rs.last() {
            ReexportRecordView::All(src) => seq![src],
            ReexportRecordView::Named(_, _) => Seq::empty(),
        }
    }
}

/// The static module record of the imports, exports, re-exports and live
/// exports found.
pub open spec fn record_of(
    imp: Seq<(Seq<char>, Seq<ImportRecordView>)>,
    exps: Seq<ExportRecordView>,
    reexps: Seq<ReexportRecordView>,
    live: Seq<Seq<char>>,
) -> RecordView {
    RecordView {
        export_alls: reexports_alls(reexps),
        imports: reexports_imports(imports_of(imp), reexps),
        live_export_map: reexports_live(lives_marked(live), reexps),
        fixed_export_map: names_removed(exports_fixed(exps), live),
    }
}

/// The static module record of a module parsed on its own.
pub open spec fn module_record(m: Module) -> RecordView {
    let exps = items_exports(m.body@);
    record_of(
        items_imported(m.body@, Seq::empty()),
        exps,
        items_reexports(m.body@),
        items_live(m.body@, var_export_names_of(exps)),
    )
}

/// Collect the names a pattern binds that the record lists.
pub(crate) fn pattern_names(pat: &Pat, names: &mut Vec<String>)
    ensures
        names_view(final(names)@) == names_view(old(names)@) + record_pattern_names(*pat),
    decreases pat,
{
    let ghost start = names_view(names@);
    match pat {
        Pat::Ident(x) => {
            names.push(x.clone());
            assert(names_view(names@) =~= start + seq![x@]);
        },
        Pat::Object(props) => {
            assert(decreases_to!(*pat => *props));
            let mut i: usize = 0;
            while i < props.len()
                invariant
                    *pat == Pat::Object(*props),
                    decreases_to!(*pat => *props),
                    i <= props@.len(),
                    names_view(names@) == start + record_props_names(props@.take(i as int)),
                decreases props@.len() - i,
            {
                proof {
                    assert(decreases_to!(*props => props[i as int]));
                }
                let ghost before = names_view(names@);
                match &props[i] {
                    ObjectPatProp::Assign(key, _) => {
                        names.push(key.clone());
                        assert(names_view(names@) =~= before + seq![key@]);
                    },
                    ObjectPatProp::KeyValue(key, value) => {
                        pattern_names(value, names);
                        let ghost mid = names_view(names@);
                        if let PropName::Ident(k) = key {
                            names.push(k.clone());
                            assert(names_view(names@) =~= mid + seq![k@]);
                        }
                        assert(names_view(names@) =~= before + (record_pattern_names(**value) + match key {
                            PropName::Ident(k) => seq![k@],
                            PropName::Computed(_) | PropName::Other => Seq::<Seq<char>>::empty(),
                        }));
                    },
                    ObjectPatProp::Rest(_) => {},
                }
                proof {
                    let t = props@.take(i as int + 1);
                    assert(t.subrange(0, t.len() - 1) =~= props@.take(i as int));
                    assert(t[t.len() - 1] == props@[i as int]);
                    assert(names_view(names@) =~= start + record_props_names(t));
                }
                i = i + 1;
            }
            assert(props@.take(props@.len() as int) =~= props@);
        },
        Pat::Array(elems) => {
            assert(decreases_to!(*pat => *elems));
            let mut i: usize = 0;
            while i < elems.len()
                invariant
                    *pat == Pat::Array(*elems),
                    decreases_to!(*pat => *elems),
                    i <= elems@.len(),
                    names_view(names@) == start + record_elems_names(elems@.take(i as int)),
                decreases elems@.len() - i,
            {
                if let Some(p) = &elems[i] {
                    proof {
                        assert(decreases_to!(*elems => elems[i as int]));
                    }
                    pattern_names(p, names);
                }
                proof {
                    let t = elems@.take(i as int + 1);
                    assert(t.subrange(0, t.len() - 1) =~= elems@.take(i as int));
                    assert(t[t.len() - 1] == elems@[i as int]);
                    assert(names_view(names@) =~= start + record_elems_names(t));
                }
                i = i + 1;
            }
            assert(elems@.take(elems@.len() as int) =~= elems@);
        },
        Pat::Rest(arg) => pattern_names(arg, names),
        _ => {
            assert(names_view(names@) =~= start + record_pattern_names(*pat));
        },
    }
}

/// Find the symbol names in a variable declaration so that we can
/// check for existence in the fixed or live exports map(s): each
/// declarator that binds an identifier or an object pattern, by its index,
/// with the names it binds.
pub fn var_symbol_names(var: &VarDecl) -> (r: Vec<(usize, Vec<String>)>)
    ensures
        symbol_entries_view(r@) == symbol_entries(var.decls@),
{
    let mut out: Vec<(usize, Vec<String>)> = Vec::new();
    let mut i: usize = 0;
    assert(symbol_entries_view(out@) =~= symbol_entries(var.decls@.take(0)));
    while i < var.decls.len()
        invariant
            i <= var.decls@.len(),
            symbol_entries_view(out@) == symbol_entries(var.decls@.take(i as int)),
        decreases var.decls@.len() - i,
    {
        let decl = &var.decls[i];
        let keep = match &decl.name {
            Pat::Ident(_) => true,
            Pat::Object(_) => true,
            _ => false,
        };
        let ghost before = out@;
        proof {
            let t = var.decls@.take(i as int + 1);
            assert(t.drop_last() =~= var.decls@.take(i as int));
            assert(t.last() == *decl);
        }
        if keep {
            let mut names: Vec<String> = Vec::new();
            assert(names_view(names@) =~= Seq::<Seq<char>>::empty());
            pattern_names(&decl.name, &mut names);
            assert(names_view(names@) =~= record_pattern_names(decl.name));
            out.push((i, names));
            assert(symbol_entries_view(out@) =~= symbol_entries_view(before).push(
                (i as int, record_pattern_names(decl.name)),
            ));
        } else {
            assert(symbol_entries(var.decls@.take(i as int + 1)) =~= symbol_entries(var.decls@.take(i as int)));
        }
        i = i + 1;
    }
    assert(var.decls@.take(var.decls@.len() as int) =~= var.decls@);
    out
}

/// A vector of one name.
fn one_name(name: String) -> (r: Vec<String>)
    ensures
        r.deep_view() == seq![name@],
{
    let mut v: Vec<String> = Vec::new();
    v.push(name);
    assert(v.deep_view() =~= seq![v@[0]@]);
    v
}

/// Parses a module to a static module record.
pub struct Parser<'a> {
    importer: ImportAnalysis,
    exporter: ExportAnalysis<'a>,
    live_exports: LiveExportAnalysis,
}

impl<'a> Parser<'a> {
    /// The imports found so far.
    pub closed spec fn imported(&self) -> Seq<(Seq<char>, Seq<ImportRecordView>)> {
        import_record_entries(self.importer.imports)
    }

    /// The exports found so far.
    pub closed spec fn exported(&self) -> Seq<ExportRecordView> {
        exports_view(self.exporter.exports@)
    }

    /// The re-exports found so far.
    pub closed spec fn reexported(&self) -> Seq<ReexportRecordView> {
        reexports_view(self.exporter.reexports@)
    }

    /// The live exports found so far.
    pub closed spec fn live(&self) -> Seq<Seq<char>> {
        names_view(self.live_exports.live@)
    }

    /// Create a new parser.
    pub fn new() -> (r: Parser<'a>)
        ensures
            r.imported().len() == 0,
            r.exported().len() == 0,
            r.reexported().len() == 0,
            r.live().len() == 0,
    {
        Parser {
            importer: ImportAnalysis::new(),
            exporter: ExportAnalysis::new(),
            live_exports: LiveExportAnalysis::new(Vec::new()),
        }
    }

    /// Parse the source text of a module and build its static module
    /// record with a new parser: `None` exactly when the text does not
    /// parse.
    pub fn load(source: &str) -> (r: Option<StaticModuleRecord>)
        ensures
            r is None <==> parsed_module(source@) is None,
            r matches Some(rec) ==> rec@ == module_record(parsed_module(source@)->0),
    {
        let module = match parse_source(source) {
            Some(m) => m,
            None => return None,
        };
        let mut parser = Parser::new();
        assert(parser.imported() =~= Seq::<(Seq<char>, Seq<ImportRecordView>)>::empty());
        assert(parser.exported() =~= Seq::<ExportRecordView>::empty());
        assert(parser.reexported() =~= Seq::<ReexportRecordView>::empty());
        assert(parser.live() =~= Seq::<Seq<char>>::empty());
        let record = parser.parse(&module);
        assert(Seq::<ExportRecordView>::empty() + items_exports(module.body@) =~= items_exports(module.body@));
        assert(Seq::<ReexportRecordView>::empty() + items_reexports(module.body@) =~= items_reexports(
            module.body@,
        ));
        assert(Seq::<Seq<char>>::empty() + items_live(module.body@, var_export_names_of(items_exports(module.body@)))
            =~= items_live(module.body@, var_export_names_of(items_exports(module.body@))));
        Some(record)
    }

    /// Parse a module to a static module record.
    ///
    /// The imports, exports and re-exports of the module join those found
    /// before; the live exports are the assignments of the module to the
    /// names of the exported variables found so far.  The record is built
    /// from all that was found.
    pub fn parse(&mut self, module: &'a Module) -> (r: StaticModuleRecord)
        ensures
            final(self).imported() == items_imported(module.body@, old(self).imported()),
            final(self).exported() == old(self).exported() + items_exports(module.body@),
            final(self).reexported() == old(self).reexported() + items_reexports(module.body@),
            final(self).live() == old(self).live() + items_live(
                module.body@,
                var_export_names_of(final(self).exported()),
            ),
            r@ == record_of(final(self).imported(), final(self).exported(), final(self).reexported(), final(self).live()),
    {
        self.importer.visit_module(module);
        self.exporter.visit_module(module);
        self.live_exports.exports = self.exporter.var_export_names();
        self.live_exports.visit_module(module);

        let mut record = StaticModuleRecord {
            export_alls: Vec::new(),
            imports: Table::new(),
            live_export_map: Table::new(),
            fixed_export_map: Table::new(),
        };
        self.record_imports(&mut record.imports);
        self.record_fixed(&mut record.fixed_export_map);
        self.record_live(&mut record.live_export_map, &mut record.fixed_export_map);
        self.record_reexports(&mut record);
        record
    }

    /// Add the names imported from each module specifier.
    fn record_imports(&self, imports: &mut Table<Vec<ImportName>>)
        requires
            old(imports).keyed().len() == 0,
        ensures
            final(imports).keyed() == imports_of(self.imported()),
    {
        let ghost imp = self.imported();
        let n = import_records_len(&self.importer.imports);
        let mut i: usize = 0;
        assert(imports.keyed() =~= imports_of(imp.take(0)));
        while i < n
            invariant
                n == imp.len(),
                imp == self.imported(),
                i <= n,
                imports.keyed() == imports_of(imp.take(i as int)),
            decreases n - i,
        {
            let (key, symbols) = import_records_get_index(&self.importer.imports, i);
            let ghost rs = records_view(symbols@);
            let mut names: Vec<ImportName> = Vec::new();
            let mut j: usize = 0;
            assert(names.deep_view() =~= record_names(rs.take(0)));
            while j < symbols.len()
                invariant
                    j <= symbols@.len(),
                    rs == records_view(symbols@),
                    names.deep_view() == record_names(rs.take(j as int)),
                decreases symbols@.len() - j,
            {
                let ghost prev = names.deep_view();
                let name = match &symbols[j] {
                    ImportRecord::SideEffect => None,
                    ImportRecord::Named { name, alias } => Some(
                        ImportName::new(name.clone(), Some(alias.clone()), ImportKind::Named),
                    ),
                    ImportRecord::Default { name } => Some(ImportName::new(name.clone(), None, ImportKind::Default)),
                    ImportRecord::All { name } => Some(ImportName::new(name.clone(), None, ImportKind::All)),
                };
                proof {
                    let t = rs.take(j as int + 1);
                    assert(t.drop_last() =~= rs.take(j as int));
                    assert(t.last() == symbols@[j as int]@);
                }
                match name {
                    Some(x) => {
                        let ghost xv = x.deep_view();
                        assert(record_name(rs[j as int]) == Some(xv));
                        names.push(x);
                        assert(names.deep_view() =~= prev + seq![xv]);
                        assert(names.deep_view() =~= record_names(rs.take(j as int + 1)));
                    },
                    None => {
                        assert(names.deep_view() =~= record_names(rs.take(j as int + 1)));
                    },
                }
                j = j + 1;
            }
            assert(rs.take(rs.len() as int) =~= rs);
            imports.insert(key.clone(), names);
            proof {
                let t = imp.take(i as int + 1);
                assert(t.drop_last() =~= imp.take(i as int));
                assert(t.last() == imp[i as int]);
            }
            i = i + 1;
        }
        assert(imp.take(imp.len() as int) =~= imp);
    }

    /// Add the fixed exports.
    fn record_fixed(&self, fixed: &mut Table<Vec<String>>)
        requires
            old(fixed).keyed().len() == 0,
        ensures
            final(fixed).keyed() == exports_fixed(self.exported()),
    {
        let ghost rs = self.exported();
        let mut i: usize = 0;
        assert(fixed.keyed() =~= exports_fixed(rs.take(0)));
        while i < self.exporter.exports.len()
            invariant
                rs == self.exported(),
                i <= rs.len(),
                fixed.keyed() == exports_fixed(rs.take(i as int)),
            decreases rs.len() - i,
        {
            proof {
                let t = rs.take(i as int + 1);
                assert(t.drop_last() =~= rs.take(i as int));
                assert(t.last() == self.exporter.exports@[i as int]@);
            }
            match &self.exporter.exports[i] {
                ExportRecord::FnDecl { ident, func: _ } => {
                    fixed.insert((*ident).clone(), one_name((*ident).clone()));
                },
                ExportRecord::VarDecl { var } => {
                    let entries = var_symbol_names(var);
                    let ghost es = symbol_entries_view(entries@);
                    let ghost names = flat_names(es);
                    let ghost t0 = fixed.keyed();
                    let mut k: usize = 0;
                    assert(flat_names(es.take(0)) =~= Seq::<Seq<char>>::empty());
                    while k < entries.len()
                        invariant
                            k <= entries@.len(),
                            es == symbol_entries_view(entries@),
                            fixed.keyed() == self_exported(t0, flat_names(es.take(k as int))),
                        decreases entries@.len() - k,
                    {
                        let ws = &entries[k].1;
                        let ghost base = flat_names(es.take(k as int));
                        let mut m: usize = 0;
                        assert(base + names_view(ws@).take(0) =~= base);
                        while m < ws.len()
                            invariant
                                m <= ws@.len(),
                                fixed.keyed() == self_exported(t0, base + names_view(ws@).take(m as int)),
                            decreases ws@.len() - m,
                        {
                            fixed.insert(ws[m].clone(), one_name(ws[m].clone()));
                            proof {
                                let u = base + names_view(ws@).take(m as int + 1);
                                assert(u.drop_last() =~= base + names_view(ws@).take(m as int));
                                assert(u.last() == ws@[m as int]@);
                            }
                            m = m + 1;
                        }
                        proof {
                            assert(names_view(ws@).take(ws@.len() as int) =~= names_view(ws@));
                            let t = es.take(k as int + 1);
                            assert(t.drop_last() =~= es.take(k as int));
                            assert(t.last().1 == names_view(ws@));
                        }
                        k = k + 1;
                    }
                    assert(es.take(es.len() as int) =~= es);
                },
                ExportRecord::DefaultExpr { expr: _ } => {
                    fixed.insert("default".to_string(), one_name("default".to_string()));
                },
                ExportRecord::Named { specifiers } => {
                    let ghost specs = specifiers@;
                    let ghost t0 = fixed.keyed();
                    let mut k: usize = 0;
                    while k < specifiers.len()
                        invariant
                            k <= specs.len(),
                            specs == specifiers@,
                            fixed.keyed() == specifiers_fixed(t0, specs.take(k as int)),
                        decreases specs.len() - k,
                    {
                        proof {
                            let t = specs.take(k as int + 1);
                            assert(t.drop_last() =~= specs.take(k as int));
                            assert(t.last() == specs[k as int]);
                        }
                        if let ExportSpecifier::Named(orig, exported) = &specifiers[k] {
                            let key = match exported {
                                Some(e) => e.clone(),
                                None => orig.clone(),
                            };
                            fixed.insert(key, one_name(orig.clone()));
                        }
                        k = k + 1;
                    }
                    assert(specs.take(specs.len() as int) =~= specs);
                },
            }
            i = i + 1;
        }
        assert(rs.take(rs.len() as int) =~= rs);
    }

    /// Mark each live export, and take it out of the fixed exports.
    fn record_live(&self, live: &mut Table<LiveExport>, fixed: &mut Table<Vec<String>>)
        requires
            old(live).keyed().len() == 0,
        ensures
            final(live).keyed() == lives_marked(self.live()),
            final(fixed).keyed() == names_removed(old(fixed).keyed(), self.live()),
    {
        let ghost names = self.live();
        let ghost f0 = fixed.keyed();
        let mut i: usize = 0;
        assert(live.keyed() =~= lives_marked(names.take(0)));
        assert(names.take(0) =~= Seq::<Seq<char>>::empty());
        while i < self.live_exports.live.len()
            invariant
                names == self.live(),
                i <= names.len(),
                live.keyed() == lives_marked(names.take(i as int)),
                fixed.keyed() == names_removed(f0, names.take(i as int)),
            decreases names.len() - i,
        {
            let name = &self.live_exports.live[i];
            live.insert(name.clone(), LiveExport { name: name.clone(), assigned: true });
            fixed.remove(name.as_str());
            proof {
                let t = names.take(i as int + 1);
                assert(t.drop_last() =~= names.take(i as int));
                assert(t.last() == name@);
            }
            i = i + 1;
        }
        assert(names.take(names.len() as int) =~= names);
    }

    /// Add the re-exports: the names imported from re-exported modules,
    /// the live exports they bind, and the modules all of whose exports are
    /// re-exported.
    fn record_reexports(&self, record: &mut StaticModuleRecord)
        requires
            old(record).export_alls@.len() == 0,
        ensures
            final(record).imports.keyed() == reexports_imports(old(record).imports.keyed(), self.reexported()),
            final(record).live_export_map.keyed() == reexports_live(
                old(record).live_export_map.keyed(),
                self.reexported(),
            ),
            final(record).fixed_export_map.keyed() == old(record).fixed_export_map.keyed(),
            final(record)@.export_alls == reexports_alls(self.reexported()),
    {
        let ghost rs = self.reexported();
        let ghost i0 = record.imports.keyed();
        let ghost l0 = record.live_export_map.keyed();
        let mut i: usize = 0;
        assert(record@.export_alls =~= reexports_alls(rs.take(0)));
        while i < self.exporter.reexports.len()
            invariant
                rs == self.reexported(),
                i <= rs.len(),
                record.imports.keyed() == reexports_imports(i0, rs.take(i as int)),
                record.live_export_map.keyed() == reexports_live(l0, rs.take(i as int)),
                record.fixed_export_map.keyed() == old(record).fixed_export_map.keyed(),
                record@.export_alls == reexports_alls(rs.take(i as int)),
            decreases rs.len() - i,
        {
            proof {
                let t = rs.take(i as int + 1);
                assert(t.drop_last() =~= rs.take(i as int));
                assert(t.last() == self.exporter.reexports@[i as int]@);
            }
            let ghost alls = record.export_alls@;
            match &self.exporter.reexports[i] {
                ReexportRecord::Named { source, specifiers } => {
                    let ghost specs = specifiers@;
                    let mut words: Vec<ImportName> = Vec::new();
                    let ghost t0 = record.live_export_map.keyed();
                    let mut k: usize = 0;
                    assert(words.deep_view() =~= reexport_names(specs.take(0)));
                    while k < specifiers.len()
                        invariant
                            k <= specs.len(),
                            specs == specifiers@,
                            words.deep_view() == reexport_names(specs.take(k as int)),
                            record.live_export_map.keyed() == specifiers_live(t0, specs.take(k as int)),
                            record.imports.keyed() == reexports_imports(i0, rs.take(i as int)),
                            record.fixed_export_map.keyed() == old(record).fixed_export_map.keyed(),
                            record.export_alls@ == alls,
                        decreases specs.len() - k,
                    {
                        proof {
                            let t = specs.take(k as int + 1);
                            assert(t.drop_last() =~= specs.take(k as int));
                            assert(t.last() == specs[k as int]);
                        }
                        let ghost prev = words.deep_view();
                        if let ExportSpecifier::Named(orig, exported) = &specifiers[k] {
                            let alias = match exported {
                                Some(e) => Some(e.clone()),
                                None => None,
                            };
                            let key = match exported {
                                Some(e) => e.clone(),
                                None => orig.clone(),
                            };
                            let w = ImportName::new(orig.clone(), alias, ImportKind::Named);
                            let ghost wv = w.deep_view();
                            words.push(w);
                            assert(words.deep_view() =~= prev + seq![wv]);
                            record.live_export_map.insert(key, LiveExport { name: orig.clone(), assigned: false });
                        } else {
                            assert(words.deep_view() =~= prev);
                        }
                        k = k + 1;
                    }
                    assert(specs.take(specs.len() as int) =~= specs);
                    record.imports.insert(source.clone(), words);
                    assert(record@.export_alls =~= reexports_alls(rs.take(i as int + 1)));
                },
                ReexportRecord::All { source } => {
                    let empty: Vec<ImportName> = Vec::new();
                    assert(empty.deep_view() =~= Seq::<ImportNameView>::empty());
                    record.imports.insert(source.clone(), empty);
                    record.export_alls.push(source.clone());
                    assert(record@.export_alls =~= reexports_alls(rs.take(i as int + 1)));
                },
            }
            i = i + 1;
        }
        assert(rs.take(rs.len() as int) =~= rs);
    }
}

/// Removing a key keeps the keys distinct, leaves the key absent, and
/// leaves absent every key that was absent.
proof fn lemma_removed_distinct<V>(s: Seq<(Seq<char>, V)>, k: Seq<char>, n: Seq<char>)
    requires
        distinct_keys(s),
    ensures
        distinct_keys(entry_removed(s, k)),
        key_position(entry_removed(s, k), k) is None,
        key_position(s, n) is None ==> key_position(entry_removed(s, k), n) is None,
{
    lemma_key_position(s, k);
    lemma_key_position(s, n);
    let t = entry_removed(s, k);
    match key_position(s, k) {
        Some(p) => {
            assert forall|i: int| 0 <= i < t.len() implies #[trigger] t[i] == (if i < p {
                s[i]
            } else {
                s[i + 1]
            }) by {}
            assert forall|i: int, j: int| 0 <= i < j < t.len() implies #[trigger] t[i].0 != #[trigger] t[j].0 by {
                let a = if i < p { i } else { i + 1 };
                let b = if j < p { j } else { j + 1 };
                assert(t[i] == s[a]);
                assert(t[j] == s[b]);
                assert(s[a].0 != s[b].0);
            }
            lemma_key_position(t, k);
            if let Some(q) = key_position(t, k) {
                let a = if q < p { q } else { q + 1 };
                assert(t[q] == s[a]);
                assert(s[a].0 != s[p].0);
            }
            lemma_key_position(t, n);
            if key_position(s, n) is None {
                if let Some(q) = key_position(t, n) {
                    let a = if q < p { q } else { q + 1 };
                    assert(t[q] == s[a]);
                }
            }
        },
        None => {
            lemma_key_position(t, k);
        },
    }
}

/// The fixed exports named after themselves keep distinct keys.
proof fn lemma_self_exported_distinct(t: Seq<(Seq<char>, Seq<Seq<char>>)>, names: Seq<Seq<char>>)
    requires
        distinct_keys(t),
    ensures
        distinct_keys(self_exported(t, names)),
    decreases names.len(),
{
    if names.len() > 0 {
        lemma_self_exported_distinct(t, names.drop_last());
        lemma_inserted_distinct(self_exported(t, names.drop_last()), names.last(), seq![names.last()]);
    }
}

/// The fixed exports of named specifiers keep distinct keys.
proof fn lemma_specifiers_fixed_distinct(t: Seq<(Seq<char>, Seq<Seq<char>>)>, specs: Seq<ExportSpecifier>)
    requires
        distinct_keys(t),
    ensures
        distinct_keys(specifiers_fixed(t, specs)),
    decreases specs.len(),
{
    if specs.len() > 0 {
        lemma_specifiers_fixed_distinct(t, specs.drop_last());
        if let ExportSpecifier::Named(orig, exported) = specs.last() {
            lemma_inserted_distinct(specifiers_fixed(t, specs.drop_last()), exported_name(orig, exported), seq![orig@]);
        }
    }
}

/// The fixed exports of exports have distinct keys.
proof fn lemma_exports_fixed_distinct(rs: Seq<ExportRecordView>)
    ensures
        distinct_keys(exports_fixed(rs)),
    decreases rs.len(),
{
    if rs.len() > 0 {
        lemma_exports_fixed_distinct(rs.drop_last());
        let t = exports_fixed(rs.drop_last());
        match rs.last() {
            ExportRecordView::FnDecl(name) => lemma_inserted_distinct(t, name, seq![name]),
            ExportRecordView::VarDecl(v) => lemma_self_exported_distinct(t, flat_names(symbol_entries(v.decls@))),
            ExportRecordView::DefaultExpr => lemma_inserted_distinct(t, "default"@, seq!["default"@]),
            ExportRecordView::Named(specs) => lemma_specifiers_fixed_distinct(t, specs),
        }
    }
}

/// Removing names keeps the keys distinct and leaves each of them absent.
proof fn lemma_names_removed(t: Seq<(Seq<char>, Seq<Seq<char>>)>, names: Seq<Seq<char>>)
    requires
        distinct_keys(t),
    ensures
        distinct_keys(names_removed(t, names)),
        forall|i: int| 0 <= i < names.len() ==> key_position(names_removed(t, names), #[trigger] names[i]) is None,
    decreases names.len(),
{
    if names.len() > 0 {
        let d = names.drop_last();
        lemma_names_removed(t, d);
        let t1 = names_removed(t, d);
        assert forall|i: int| 0 <= i < names.len() implies key_position(names_removed(t, names), #[trigger] names[i])
            is None by {
            lemma_removed_distinct(t1, names.last(), names[i]);
            if i < names.len() - 1 {
                assert(d[i] == names[i]);
            }
        }
        lemma_removed_distinct(t1, names.last(), names.last());
    }
}

/// A name the module assigns to is a live export and never a fixed one:
/// the fixed exports of a record hold no entry for any live name.
pub proof fn lemma_live_exports_not_fixed(
    imp: Seq<(Seq<char>, Seq<ImportRecordView>)>,
    exps: Seq<ExportRecordView>,
    reexps: Seq<ReexportRecordView>,
    live: Seq<Seq<char>>,
)
    ensures
        forall|i: int|
            0 <= i < live.len() ==> entry_value(record_of(imp, exps, reexps, live).fixed_export_map, #[trigger] live[i])
                is None,
{
    lemma_exports_fixed_distinct(exps);
    lemma_names_removed(exports_fixed(exps), live);
}

} // verus!
