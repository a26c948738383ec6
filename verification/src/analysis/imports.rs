//! Helper to analyze imports from a module.
use vstd::prelude::*;

use indexmap::IndexMap;

use crate::ast::{ImportDecl, ImportSpecifier, Module, ModuleItem};
use crate::collections::{
    distinct_keys, entry_inserted, entry_value, import_record_entries, import_records_insert, import_records_new,
    lemma_entry_reinserted, lemma_inserted_distinct,
};

verus! {

/// A binding of an import declaration.
#[derive(Debug)]
pub enum ImportRecord {
    /// A side effect import, `import 'module'`, binds nothing.
    SideEffect,
    /// `import * as name from ...`
    All { name: String },
    /// `import name from ...`
    Default { name: String },
    /// `import { name as alias } from ...`: the imported name and the local
    /// name (the same when not renamed).
    Named { name: String, alias: String },
}

/// The view of an import record.
pub enum ImportRecordView {
    /// A side effect import.
    SideEffect,
    /// A namespace import and its local name.
    All(Seq<char>),
    /// A default import and its local name.
    Default(Seq<char>),
    /// A named import: the imported name and the local name.
    Named(Seq<char>, Seq<char>),
}

impl View for ImportRecord {
    type V = ImportRecordView;

    open spec fn view(&self) -> ImportRecordView {
        match self {
            ImportRecord::SideEffect => ImportRecordView::SideEffect,
            ImportRecord::All { name } => ImportRecordView::All(name@),
            ImportRecord::Default { name } => ImportRecordView::Default(name@),
            ImportRecord::Named { name, alias } => ImportRecordView::Named(name@, alias@),
        }
    }
}

/// The views of import records.
pub open spec fn records_view(rs: Seq<ImportRecord>) -> Seq<ImportRecordView> {
    rs.map_values(|r: ImportRecord| r@)
}

/// The record of an import specifier: a named import records the name it
/// imports (its local name when not renamed) and its local name.
pub open spec fn specifier_record(s: ImportSpecifier) -> ImportRecordView {
    match s {
        ImportSpecifier::Namespace(l) => ImportRecordView::All(l@),
        ImportSpecifier::Default(l) => ImportRecordView::Default(l@),
        ImportSpecifier::Named(l, imported) => ImportRecordView::Named(
            match imported {
                Some(i) => i@,
                None => l@,
            },
            l@,
        ),
    }
}

/// The records of an import declaration: one per specifier, in order, or
/// a single side effect record when it has none.
pub open spec fn decl_records(d: ImportDecl) -> Seq<ImportRecordView> {
    if d.specifiers@.len() == 0 {
        seq![ImportRecordView::SideEffect]
    } else {
        d.specifiers@.map_values(|s: ImportSpecifier| specifier_record(s))
    }
}

/// The entries after the records of an import declaration are appended to
/// those of its module specifier (a new entry, last, for a new specifier).
pub open spec fn decl_imported(
    entries: Seq<(Seq<char>, Seq<ImportRecordView>)>,
    d: ImportDecl,
) -> Seq<(Seq<char>, Seq<ImportRecordView>)> {
    let before = match entry_value(entries, d.src@) {
        Some(rs) => rs,
        None => Seq::empty(),
    };
    entry_inserted(entries, d.src@, before + decl_records(d))
}

/// The entries after the import declarations among module items are
/// recorded, in order.
pub open spec fn items_imported(
    items: Seq<ModuleItem>,
    entries: Seq<(Seq<char>, Seq<ImportRecordView>)>,
) -> Seq<(Seq<char>, Seq<ImportRecordView>)>
    decreases items.len(),
{
    if items.len() == 0 {
        entries
    } else {
        let e = items_imported(items.drop_last(), entries);
        match items.last() {
            ModuleItem::Import(d) => decl_imported(e, d),
            _ => e,
        }
    }
}

/// Each module specifier has one entry: recording the import declarations
/// of module items keeps the specifiers of the entries distinct.
pub proof fn lemma_imports_distinct(items: Seq<ModuleItem>, entries: Seq<(Seq<char>, Seq<ImportRecordView>)>)
    requires
        distinct_keys(entries),
    ensures
        distinct_keys(items_imported(items, entries)),
    decreases items.len(),
{
    if items.len() > 0 {
        lemma_imports_distinct(items.drop_last(), entries);
        if let ModuleItem::Import(d) = items.last() {
            let e = items_imported(items.drop_last(), entries);
            let before = match entry_value(e, d.src@) {
                Some(rs) => rs,
                None => Seq::empty(),
            };
            lemma_inserted_distinct(e, d.src@, before + decl_records(d));
        }
    }
}

/// Record the bindings of an import declaration in a map from module
/// specifiers to import records.
pub fn record_import_decl(imports: &mut IndexMap<String, Vec<ImportRecord>>, n: &ImportDecl)
    ensures
        import_record_entries(*final(imports)) == decl_imported(import_record_entries(*old(imports)), *n),
{
    let ghost entries = import_record_entries(*imports);
    let empty: Vec<ImportRecord> = Vec::new();
    assert(records_view(empty@) =~= Seq::<ImportRecordView>::empty());
    let previous = import_records_insert(imports, n.src.clone(), empty);
    let mut list = match previous {
        Some(v) => v,
        None => Vec::new(),
    };
    let ghost before = records_view(list@);
    assert(before == match entry_value(entries, n.src@) {
        Some(rs) => rs,
        None => Seq::<ImportRecordView>::empty(),
    });
    let ghost added = decl_records(*n);
    if n.specifiers.len() == 0 {
        let ghost prev = list@;
        list.push(ImportRecord::SideEffect);
        assert(records_view(list@) =~= records_view(prev).push(ImportRecordView::SideEffect));
        assert(records_view(list@) =~= before + added);
    } else {
        let mut i: usize = 0;
        while i < n.specifiers.len()
            invariant
                i <= n.specifiers@.len(),
                n.specifiers@.len() > 0,
                added == decl_records(*n),
                records_view(list@) == before + added.take(i as int),
            decreases n.specifiers@.len() - i,
        {
            let record = match &n.specifiers[i] {
                ImportSpecifier::Namespace(l) => ImportRecord::All { name: l.clone() },
                ImportSpecifier::Default(l) => ImportRecord::Default { name: l.clone() },
                ImportSpecifier::Named(l, imported) => ImportRecord::Named {
                    name: match imported {
                        Some(x) => x.clone(),
                        None => l.clone(),
                    },
                    alias: l.clone(),
                },
            };
            assert(record@ == specifier_record(n.specifiers@[i as int]));
            assert(added[i as int] == specifier_record(n.specifiers@[i as int]));
            let ghost prev = list@;
            list.push(record);
            assert(records_view(list@) =~= records_view(prev).push(record@));
            assert(records_view(list@) =~= before + added.take(i as int + 1));
            i = i + 1;
        }
        assert(added.take(added.len() as int) =~= added);
    }
    proof {
        lemma_entry_reinserted(entries, n.src@, Seq::<ImportRecordView>::empty(), records_view(list@));
    }
    import_records_insert(imports, n.src.clone(), list);
}

/// Analysis of the imports of modules: the records of the bindings of each
/// module specifier, the specifiers in the order first met.
#[derive(Debug)]
pub struct ImportAnalysis {
    /// The records of the bindings of each module specifier.
    pub imports: IndexMap<String, Vec<ImportRecord>>,
}

impl ImportAnalysis {
    /// An analysis with no imports.
    pub fn new() -> (r: ImportAnalysis)
        ensures
            import_record_entries(r.imports) == Seq::<(Seq<char>, Seq<ImportRecordView>)>::empty(),
    {
        ImportAnalysis { imports: import_records_new() }
    }

    /// Record the bindings of an import declaration.
    pub fn visit_import_decl(&mut self, n: &ImportDecl)
        ensures
            import_record_entries(final(self).imports) == decl_imported(
                import_record_entries(old(self).imports),
                *n,
            ),
    {
        record_import_decl(&mut self.imports, n);
    }

    /// Record the bindings of every import declaration of a module, in
    /// order.
    pub fn visit_module(&mut self, module: &Module)
        ensures
            import_record_entries(final(self).imports) == items_imported(
                module.body@,
                import_record_entries(old(self).imports),
            ),
    {
        let ghost start = import_record_entries(self.imports);
        let mut i: usize = 0;
        while i < module.body.len()
            invariant
                i <= module.body@.len(),
                import_record_entries(self.imports) == items_imported(module.body@.take(i as int), start),
            decreases module.body@.len() - i,
        {
            proof {
                let t = module.body@.take(i as int + 1);
                assert(t.drop_last() =~= module.body@.take(i as int));
                assert(t.last() == module.body@[i as int]);
            }
            if let ModuleItem::Import(d) = &module.body[i] {
                self.visit_import_decl(d);
            }
            i = i + 1;
        }
        assert(module.body@.take(module.body@.len() as int) =~= module.body@);
    }
}

} // verus!
