//! Static module record: what a module imports and exports, in the form
//! a module loader reads.
use vstd::prelude::*;

pub mod analyzer;
pub mod parser;
pub mod table;
pub mod transform;

use crate::static_module_record::table::Table;

verus! {

/// The kind of an imported name.
#[derive(Debug, Clone, Copy, PartialEq, Eq)]
pub enum ImportKind {
    /// `import { name } from ...`
    Named,
    /// `import name from ...`
    Default,
    /// `import * as name from ...`
    All,
}

/// Import specifier that may be aliased.
#[derive(Debug)]
pub struct ImportName {
    name: String,
    alias: Option<String>,
    kind: ImportKind,
}

/// The view of an import name.
pub struct ImportNameView {
    /// The imported name.
    pub name: Seq<char>,
    /// The alias, where there is one.
    pub alias: Option<Seq<char>>,
    /// The kind of import.
    pub kind: ImportKind,
}

/// The view of an optional name.
pub open spec fn opt_view(s: Option<String>) -> Option<Seq<char>> {
    match s {
        Some(x) => Some(x@),
        None => None,
    }
}

impl DeepView for ImportName {
    type V = ImportNameView;

    closed spec fn deep_view(&self) -> ImportNameView {
        ImportNameView { name: self.name@, alias: opt_view(self.alias), kind: self.kind }
    }
}

impl ImportName {
    /// An import of a name, with its alias if it has one.
    pub fn new(name: String, alias: Option<String>, kind: ImportKind) -> (r: ImportName)
        ensures
            r.deep_view() == (ImportNameView { name: name@, alias: opt_view(alias), kind }),
    {
        ImportName { name, alias, kind }
    }

    /// The text an import name is written as in a static module record:
    /// the imported name.
    pub fn as_str(&self) -> (r: &str)
        ensures
            r@ == self.deep_view().name,
    {
        self.name.as_str()
    }

    /// The alias, where there is one.
    pub fn alias(&self) -> (r: Option<&String>)
        ensures
            r matches Some(a) ==> self.deep_view().alias == Some(a@),
            r is None ==> self.deep_view().alias is None,
    {
        match &self.alias {
            Some(a) => Some(a),
            None => None,
        }
    }

    /// The kind of import.
    pub fn kind(&self) -> (r: ImportKind)
        ensures
            r == self.deep_view().kind,
    {
        self.kind
    }
}

/// A live export: the name it is bound to, and whether the module assigns
/// to it.
#[derive(Debug)]
pub struct LiveExport {
    /// The name the export is bound to.
    pub name: String,
    /// Whether the module assigns to it.
    pub assigned: bool,
}

/// The view of a live export.
pub struct LiveExportView {
    /// The name the export is bound to.
    pub name: Seq<char>,
    /// Whether the module assigns to it.
    pub assigned: bool,
}

impl DeepView for LiveExport {
    type V = LiveExportView;

    open spec fn deep_view(&self) -> LiveExportView {
        LiveExportView { name: self.name@, assigned: self.assigned }
    }
}

/// The view of a static module record.
pub struct RecordView {
    /// The specifiers of the modules all of whose exports are re-exported.
    pub export_alls: Seq<Seq<char>>,
    /// The names imported from each module specifier.
    pub imports: Seq<(Seq<char>, Seq<ImportNameView>)>,
    /// Each live export, with the name it is bound to and whether it is
    /// assigned in the module.
    pub live_export_map: Seq<(Seq<char>, LiveExportView)>,
    /// Each fixed export, with the names it is bound to.
    pub fixed_export_map: Seq<(Seq<char>, Seq<Seq<char>>)>,
}

/// Static module record.
#[derive(Debug)]
pub struct StaticModuleRecord {
    /// All exports, eg: `export * from './foo.js';`
    pub export_alls: Vec<String>,
    /// All the imports for the module.
    pub imports: Table<Vec<ImportName>>,
    /// Map of live exports.
    pub live_export_map: Table<LiveExport>,
    /// Map of fixed exports.
    pub fixed_export_map: Table<Vec<String>>,
}

impl View for StaticModuleRecord {
    type V = RecordView;

    open spec fn view(&self) -> RecordView {
        RecordView {
            export_alls: self.export_alls@.map_values(|s: String| s@),
            imports: self.imports.keyed(),
            live_export_map: self.live_export_map.keyed(),
            fixed_export_map: self.fixed_export_map.keyed(),
        }
    }
}

/// The names imported from each module specifier, one after the other.
pub open spec fn decl_names(imports: Seq<(Seq<char>, Seq<ImportNameView>)>) -> Seq<Seq<char>>
    decreases imports.len(),
{
    if imports.len() == 0 {
        Seq::empty()
    } else {
        decl_names(imports.drop_last()) + imports.last().1.map_values(|n: ImportNameView| n.name)
    }
}

impl StaticModuleRecord {
    /// Get the list of import declarations.
    ///
    /// This is used by the transform to set up the locally
    /// scoped variable names.
    pub fn decls(&self) -> (r: Vec<String>)
        ensures
            r@.map_values(|s: String| s@) == decl_names(self@.imports),
    {
        let ghost imports = self@.imports;
        let mut out: Vec<String> = Vec::new();
        let mut i: usize = 0;
        while i < self.imports.len()
            invariant
                imports == self.imports.keyed(),
                i <= imports.len(),
                out@.map_values(|s: String| s@) == decl_names(imports.take(i as int)),
            decreases imports.len() - i,
        {
            let (_, names) = self.imports.get_index(i);
            let ghost base = out@.map_values(|s: String| s@);
            let ghost nv = names.deep_view();
            let mut j: usize = 0;
            while j < names.len()
                invariant
                    j <= names@.len(),
                    nv == names.deep_view(),
                    out@.map_values(|s: String| s@) == base + nv.take(j as int).map_values(
                        |n: ImportNameView| n.name,
                    ),
                decreases names@.len() - j,
            {
                let ghost prev = out@;
                let name = names[j].as_str();
                out.push(name.to_string());
                assert(nv[j as int] == names@[j as int].deep_view());
                assert(out@.map_values(|s: String| s@) =~= prev.map_values(|s: String| s@).push(name@));
                assert(nv.take(j as int + 1).map_values(|n: ImportNameView| n.name) =~= nv.take(j as int).map_values(
                    |n: ImportNameView| n.name,
                ).push(nv[j as int].name));
                j = j + 1;
            }
            proof {
                assert(nv.take(nv.len() as int) =~= nv);
                let t = imports.take(i as int + 1);
                assert(t.drop_last() =~= imports.take(i as int));
                assert(t.last() == imports[i as int]);
            }
            i = i + 1;
        }
        assert(imports.take(imports.len() as int) =~= imports);
        out
    }
}

} // verus!
