//! Build a package policy from the analysis of the modules of each package.
use vstd::prelude::*;

use indexmap::IndexSet;

use crate::analysis::dependencies::{is_package_specifier, package_specifier};
use crate::ast::Module;
use crate::collections::{
    inserted, name_items, names_get, names_insert, names_len, names_new, path_items, paths_get, paths_insert,
    paths_len, paths_new,
};
use crate::helpers::{normalize_specifier, normalized_specifier};
use crate::module::graph::VisitedDependency;
use crate::policy::analysis::globals_scope::{
    lemma_insert_all_concat, lemma_insert_all_to_set, lemma_scope_globals_tree, module_state, tree_globals, GlobalAnalysis,
    GlobalOptions,
};
use crate::policy::analysis::scope_builder::builder_wf;
use crate::policy::analysis::{
    copy_words, flatten, flattened, insert_all, join_words, joined, joined_all, words_view,
};
use crate::policy::{PackagePolicy, PolicyAccess, PolicyGroup};

verus! {

/// The map that gives each key of a list the flag `true`.
pub open spec fn flag_map(keys: Seq<Seq<char>>) -> Map<Seq<char>, bool> {
    Map::new(|k: Seq<char>| keys.contains(k), |k: Seq<char>| true)
}

/// A group granting each key of a list.
fn grant_all(keys: &IndexSet<String>) -> (r: PolicyGroup)
    ensures
        r@ == flag_map(name_items(*keys)),
{
    let mut group = PolicyGroup::new();
    let n = names_len(keys);
    let mut i: usize = 0;
    while i < n
        invariant
            n == name_items(*keys).len(),
            i <= n,
            group@ == flag_map(name_items(*keys).take(i as int)),
        decreases n - i,
    {
        let key = names_get(keys, i);
        group.insert(key.as_str(), PolicyAccess::new(true));
        proof {
            let t = name_items(*keys).take(i as int + 1);
            assert(t =~= name_items(*keys).take(i as int).push(key@));
            assert forall|k: Seq<char>| #[trigger] t.contains(k) <==> (name_items(*keys).take(i as int).contains(k) || k == key@) by {
                crate::policy::analysis::lemma_push_contains(name_items(*keys).take(i as int), key@, k);
            }
            assert(group@ =~= flag_map(t));
        }
        i = i + 1;
    }
    assert(name_items(*keys).take(n as int) =~= name_items(*keys));
    group
}

/// Insert every item of one set of paths into another.
fn union_paths(acc: &mut IndexSet<Vec<String>>, other: &IndexSet<Vec<String>>)
    ensures
        path_items(*final(acc)) == insert_all(path_items(*old(acc)), path_items(*other)),
{
    let n = paths_len(other);
    let mut i: usize = 0;
    while i < n
        invariant
            n == path_items(*other).len(),
            i <= n,
            path_items(*acc) == insert_all(path_items(*old(acc)), path_items(*other).take(i as int)),
        decreases n - i,
    {
        let words = paths_get(other, i);
        paths_insert(acc, copy_words(words));
        proof {
            assert(path_items(*other).take(i as int + 1).drop_last() =~= path_items(*other).take(i as int));
        }
        i = i + 1;
    }
    assert(path_items(*other).take(n as int) =~= path_items(*other));
}

/// Insert every item of one set of names into another.
fn union_names(acc: &mut IndexSet<String>, other: &IndexSet<String>)
    ensures
        name_items(*final(acc)) == insert_all(name_items(*old(acc)), name_items(*other)),
{
    let n = names_len(other);
    let mut i: usize = 0;
    while i < n
        invariant
            n == name_items(*other).len(),
            i <= n,
            name_items(*acc) == insert_all(name_items(*old(acc)), name_items(*other).take(i as int)),
        decreases n - i,
    {
        let name = names_get(other, i);
        names_insert(acc, name.clone());
        proof {
            assert(name_items(*other).take(i as int + 1).drop_last() =~= name_items(*other).take(i as int));
        }
        i = i + 1;
    }
    assert(name_items(*other).take(n as int) =~= name_items(*other));
}

/// The analysis of one module of a package: the globals and builtin paths it
/// uses, and the packages it depends on.
pub struct ModuleAnalysis {
    /// Global symbol paths.
    pub globals: IndexSet<Vec<String>>,
    /// Builtin package paths.
    pub builtin: IndexSet<Vec<String>>,
    /// Dependent packages (normalized specifiers).
    pub packages: IndexSet<String>,
}

/// The dependent packages of a module of package `spec`: the normalized
/// specifiers of its dependencies that name packages, other than the
/// package itself, in order.
pub open spec fn dependent_packages(spec: Seq<char>, deps: Seq<Seq<char>>) -> Seq<Seq<char>>
    decreases deps.len(),
{
    if deps.len() == 0 {
        Seq::empty()
    } else {
        let d = deps.last();
        if spec != normalized_specifier(d) && package_specifier(d) {
            dependent_packages(spec, deps.drop_last()).push(normalized_specifier(d))
        } else {
            dependent_packages(spec, deps.drop_last())
        }
    }
}

/// Analyze a module of package `spec` given its dependency specifiers: the
/// globals and builtins of its scope tree, and its dependent packages
/// (some packages such as `@babel/runtime` list themselves as a
/// dependency, so the package's own name is left out).
pub fn analyze_module(spec: &str, module: &Module, dependencies: &Vec<String>) -> (r: ModuleAnalysis)
    ensures
        name_items(r.packages) == insert_all(
            Seq::empty(),
            dependent_packages(spec@, crate::analysis::builtins::string_views(dependencies@)),
        ),
        forall|j: int|
            0 <= j < path_items(r.builtin).len() ==> (#[trigger] path_items(r.builtin)[j]).len() > 0
                && crate::analysis::dependencies::latest_core_package(path_items(r.builtin)[j][0]),
        path_items(r.globals) == insert_all(Seq::empty(), tree_globals(module_state(module.body@).scope, Set::empty())),
        path_items(r.builtin) == module_state(module.body@).builtins,
{
    let mut globals_scope = GlobalAnalysis::new(GlobalOptions::default());
    globals_scope.visit_module(module);
    let globals = globals_scope.compute_globals();
    let builtin = globals_scope.compute_builtins();
    proof {
        lemma_scope_globals_tree(globals_scope.root, Set::empty());
    }
    let ghost deps = crate::analysis::builtins::string_views(dependencies@);
    let mut packages = names_new();
    let spec_owned = spec.to_owned();
    let mut i: usize = 0;
    while i < dependencies.len()
        invariant
            i <= dependencies@.len(),
            deps == crate::analysis::builtins::string_views(dependencies@),
            spec_owned@ == spec@,
            name_items(packages) == insert_all(Seq::empty(), dependent_packages(spec@, deps.take(i as int))),
        decreases dependencies@.len() - i,
    {
        let dep = &dependencies[i];
        let normalized = normalize_specifier(dep.as_str());
        proof {
            let t = deps.take(i as int + 1);
            assert(t.drop_last() =~= deps.take(i as int));
            assert(t.last() == dep@);
        }
        if !(spec_owned == normalized) && is_package_specifier(dep.as_str()) {
            names_insert(&mut packages, normalized);
            proof {
                let t = deps.take(i as int + 1);
                assert(dependent_packages(spec@, t).drop_last() =~= dependent_packages(spec@, deps.take(i as int)));
            }
        }
        i = i + 1;
    }
    assert(deps.take(dependencies@.len() as int) =~= deps);
    ModuleAnalysis { globals, builtin, packages }
}

/// The union of the global paths of module analyses, in order.
pub open spec fn all_globals(data: Seq<ModuleAnalysis>) -> Seq<Seq<Seq<char>>>
    decreases data.len(),
{
    if data.len() == 0 {
        Seq::empty()
    } else {
        all_globals(data.drop_last()) + path_items(data.last().globals)
    }
}

/// The union of the builtin paths of module analyses, in order.
pub open spec fn all_builtins(data: Seq<ModuleAnalysis>) -> Seq<Seq<Seq<char>>>
    decreases data.len(),
{
    if data.len() == 0 {
        Seq::empty()
    } else {
        all_builtins(data.drop_last()) + path_items(data.last().builtin)
    }
}

/// The union of the dependent packages of module analyses, in order.
pub open spec fn all_packages(data: Seq<ModuleAnalysis>) -> Seq<Seq<char>>
    decreases data.len(),
{
    if data.len() == 0 {
        Seq::empty()
    } else {
        all_packages(data.drop_last()) + name_items(data.last().packages)
    }
}

/// The policy of a package from the analyses of its modules: every global
/// and builtin path, flattened into its shortest parent and joined with
/// dots, and every dependent package, each granted.
pub open spec fn package_policy_view(data: Seq<ModuleAnalysis>) -> (Map<Seq<char>, bool>, Map<Seq<char>, bool>, Map<Seq<char>, bool>) {
    (
        flag_map(joined_all(flattened(insert_all(Seq::empty(), all_globals(data))))),
        flag_map(joined_all(flattened(insert_all(Seq::empty(), all_builtins(data))))),
        flag_map(all_packages(data)),
    )
}

/// Aggregate the analyses of the modules of a package into its policy.
pub fn merge_analyses(data: &Vec<ModuleAnalysis>) -> (r: PackagePolicy)
    ensures
        !r@.native,
        r@.env == crate::policy::EnvPolicy::Frozen,
        r@.globals == package_policy_view(data@).0,
        r@.builtin == package_policy_view(data@).1,
        r@.packages == package_policy_view(data@).2,
{
    let mut analysis = PackagePolicy::new();
    let mut pkg_globals = paths_new();
    let mut pkg_builtin = paths_new();
    let mut pkg_packages = names_new();
    let mut i: usize = 0;
    while i < data.len()
        invariant
            i <= data@.len(),
            path_items(pkg_globals) == insert_all(Seq::empty(), all_globals(data@.take(i as int))),
            path_items(pkg_builtin) == insert_all(Seq::empty(), all_builtins(data@.take(i as int))),
            name_items(pkg_packages) == insert_all(Seq::empty(), all_packages(data@.take(i as int))),
            analysis@ == crate::policy::empty_package(),
        decreases data@.len() - i,
    {
        let item = &data[i];
        proof {
            let t = data@.take(i as int + 1);
            assert(t.drop_last() =~= data@.take(i as int));
            assert(t.last() == *item);
            lemma_insert_all_concat(Seq::empty(), all_globals(data@.take(i as int)), path_items(item.globals));
            lemma_insert_all_concat(Seq::empty(), all_builtins(data@.take(i as int)), path_items(item.builtin));
            lemma_insert_all_concat(Seq::empty(), all_packages(data@.take(i as int)), name_items(item.packages));
        }
        union_paths(&mut pkg_globals, &item.globals);
        union_paths(&mut pkg_builtin, &item.builtin);
        union_names(&mut pkg_packages, &item.packages);
        i = i + 1;
    }
    assert(data@.take(data@.len() as int) =~= data@);
    let pkg_globals = flatten(pkg_globals);
    let pkg_builtin = flatten(pkg_builtin);
    let globals_keys = crate::policy::analysis::join_keys(pkg_globals);
    let builtin_keys = crate::policy::analysis::join_keys(pkg_builtin);
    let mut globals_map = grant_all(&globals_keys);
    let mut builtin_map = grant_all(&builtin_keys);
    let mut packages_map = grant_all(&pkg_packages);
    proof {
        let g = flattened(insert_all(Seq::empty(), all_globals(data@)));
        let b = flattened(insert_all(Seq::empty(), all_builtins(data@)));
        lemma_flag_map_insert_all(joined_all(insert_all(Seq::empty(), g)));
        lemma_flag_map_insert_all(joined_all(insert_all(Seq::empty(), b)));
        lemma_flag_map_insert_all(all_packages(data@));
        lemma_joined_insert_all(g);
        lemma_joined_insert_all(b);
    }
    analysis.globals.append(&mut globals_map);
    analysis.builtin.append(&mut builtin_map);
    analysis.packages.append(&mut packages_map);
    proof {
        crate::policy::lemma_group_merge_empty(globals_map@);
    }
    analysis
}

/// Granting the items inserted into a set grants the inserted sequence.
proof fn lemma_flag_map_insert_all(s: Seq<Seq<char>>)
    ensures
        flag_map(insert_all(Seq::empty(), s)) == flag_map(s),
{
    assert forall|k: Seq<char>| insert_all(Seq::empty(), s).contains(k) <==> s.contains(k) by {
        crate::policy::analysis::lemma_insert_all_contains(Seq::empty(), s, k);
    }
    assert(flag_map(insert_all(Seq::empty(), s)) =~= flag_map(s));
}

/// Joining the paths inserted into a set gives the same keys as joining the
/// inserted sequence.
proof fn lemma_joined_insert_all(s: Seq<Seq<Seq<char>>>)
    ensures
        flag_map(joined_all(insert_all(Seq::empty(), s))) == flag_map(joined_all(s)),
{
    assert forall|k: Seq<char>| joined_all(insert_all(Seq::empty(), s)).contains(k) <==> joined_all(s).contains(k) by {
        let u = insert_all(Seq::empty(), s);
        if joined_all(u).contains(k) {
            let i = choose|i: int| 0 <= i < joined_all(u).len() && joined_all(u)[i] == k;
            crate::policy::analysis::lemma_insert_all_contains(Seq::empty(), s, u[i]);
            assert(u.contains(u[i]));
            let j = choose|j: int| 0 <= j < s.len() && s[j] == u[i];
            assert(joined_all(s)[j] == k);
        }
        if joined_all(s).contains(k) {
            let j = choose|j: int| 0 <= j < joined_all(s).len() && joined_all(s)[j] == k;
            crate::policy::analysis::lemma_insert_all_contains(Seq::empty(), s, s[j]);
            assert(s.contains(s[j]));
            let i = choose|i: int| 0 <= i < u.len() && u[i] == s[j];
            assert(joined_all(u)[i] == k);
        }
    }
    assert(flag_map(joined_all(insert_all(Seq::empty(), s))) =~= flag_map(joined_all(s)));
}

/// Whether a list of strings holds one with the given characters.
pub open spec fn holds(s: Seq<String>, x: Seq<char>) -> bool {
    exists|j: int| 0 <= j < s.len() && (#[trigger] s[j])@ == x
}

/// Whether a string is in a list of strings.
fn contains_string(s: &Vec<String>, x: &String) -> (r: bool)
    ensures
        r <==> holds(s@, x@),
{
    let mut i: usize = 0;
    while i < s.len()
        invariant
            i <= s@.len(),
            forall|j: int| 0 <= j < i ==> (#[trigger] s@[j])@ != x@,
        decreases s@.len() - i,
    {
        if s[i] == *x {
            return true;
        }
        i = i + 1;
    }
    false
}

/// Add a string to a list of strings unless it is there.
fn add_string(s: &mut Vec<String>, x: String)
    ensures
        forall|y: Seq<char>| holds(final(s)@, y) <==> (holds(old(s)@, y) || y == x@),
{
    if !contains_string(s, &x) {
        let ghost before = s@;
        let ghost xv = x@;
        s.push(x);
        proof {
            assert forall|y: Seq<char>| holds(s@, y) <==> (holds(before, y) || y == xv) by {
                if holds(before, y) {
                    let j = choose|j: int| 0 <= j < before.len() && (#[trigger] before[j])@ == y;
                    assert(s@[j] == before[j]);
                }
                if y == xv {
                    assert(s@[before.len() as int]@ == y);
                }
                if holds(s@, y) {
                    let j = choose|j: int| 0 <= j < s@.len() && (#[trigger] s@[j])@ == y;
                    if j < before.len() {
                        assert(before[j] == s@[j]);
                    }
                }
            }
        }
    }
}

/// The modules found below the base directory of a package, grouped by the
/// specifier the package was imported with.
pub struct PackageBucket {
    /// The import specifier.
    pub spec: String,
    /// The base directory of the package.
    pub base: String,
    /// The paths of the modules of the package.
    pub modules: Vec<String>,
}

/// Whether some bucket has a specifier and base.
pub open spec fn has_bucket(bs: Seq<PackageBucket>, spec: Seq<char>, base: Seq<char>) -> bool {
    exists|i: int| 0 <= i < bs.len() && (#[trigger] bs[i]).spec@ == spec && bs[i].base@ == base
}

/// Whether some bucket with a specifier and base holds a module.
pub open spec fn bucket_holds(bs: Seq<PackageBucket>, spec: Seq<char>, base: Seq<char>, m: Seq<char>) -> bool {
    exists|i: int|
        0 <= i < bs.len() && (#[trigger] bs[i]).spec@ == spec && bs[i].base@ == base && holds(bs[i].modules@, m)
}

/// The specifier and base of each bucket differ from those of the others.
pub open spec fn buckets_unique(bs: Seq<PackageBucket>) -> bool {
    forall|i: int, j: int|
        0 <= i < bs.len() && 0 <= j < bs.len() && i != j ==> !((#[trigger] bs[i]).spec@ == (#[trigger] bs[j]).spec@
            && bs[i].base@ == bs[j].base@)
}

/// Whether path `base` is a leading part of path `p`, ending at a component
/// boundary of `p` (paths written with `/` separators).
pub open spec fn component_prefix(base: Seq<char>, p: Seq<char>) -> bool {
    crate::text::has_prefix(p, base) && (p.len() == base.len() || p[base.len() as int] == '/' || (base.len() > 0
        && base[base.len() - 1] == '/'))
}

/// Whether path `base` is a leading part of path `p`, at a component boundary.
fn is_component_prefix(base: &String, p: &String) -> (r: bool)
    ensures
        r <==> component_prefix(base@, p@),
{
    let b = crate::text::to_chars(base.as_str());
    let q = crate::text::to_chars(p.as_str());
    if !crate::text::starts_with(p.as_str(), base.as_str()) {
        return false;
    }
    q.len() == b.len() || q[b.len()] == '/' || (b.len() > 0 && b[b.len() - 1] == '/')
}

/// A group of the modules of one package, by normalized specifier.
pub struct PackageGroup {
    /// The normalized specifier of the package.
    pub spec: String,
    /// The paths of the modules of the package.
    pub modules: Vec<String>,
}

/// Whether some group with a specifier holds a module.
pub open spec fn group_holds(gs: Seq<PackageGroup>, spec: Seq<char>, m: Seq<char>) -> bool {
    exists|i: int| 0 <= i < gs.len() && (#[trigger] gs[i]).spec@ == spec && holds(gs[i].modules@, m)
}

/// Errors in building a policy.
#[derive(Debug)]
pub enum PolicyError {
    /// The base directory of a dependent package could not be found from
    /// its specifier and resolved path.
    ModuleBase(String),
}

/// The specifier and resolved path of a dependency.
pub open spec fn dependency_view(d: VisitedDependency) -> (Seq<char>, Option<Seq<char>>) {
    (
        d.spec@,
        match d.path {
            Some(p) => Some(p@),
            None => None,
        },
    )
}

/// The characters of a resolved path, if there is one.
pub open spec fn path_view(path: Option<&str>) -> Option<Seq<char>> {
    match path {
        Some(p) => Some(p@),
        None => None,
    }
}

/// The specifier and base directory of each bucket, in order.
pub open spec fn bucket_keys(bs: Seq<PackageBucket>) -> Seq<(Seq<char>, Seq<char>)> {
    bs.map_values(|b: PackageBucket| (b.spec@, b.base@))
}

/// The bucket a dependency asks for: a dependency that names a package and
/// resolved to a file gets its specifier and the base directory of the
/// package, when that directory is found.
pub open spec fn dependency_key(spec: Seq<char>, path: Option<Seq<char>>) -> Option<(Seq<char>, Seq<char>)> {
    if package_specifier(spec) && path is Some {
        match crate::module::base::base_directory(spec, path.unwrap()) {
            Some(b) => Some((spec, b)),
            None => None,
        }
    } else {
        None
    }
}

/// Whether a dependency names a package and resolved to a file whose
/// package base directory cannot be found.
pub open spec fn dependency_fails(spec: Seq<char>, path: Option<Seq<char>>) -> bool {
    package_specifier(spec) && path is Some && crate::module::base::base_directory(spec, path.unwrap()) is None
}

/// The keys after asking for one more: a new key goes at the end.
pub open spec fn add_key(keys: Seq<(Seq<char>, Seq<char>)>, k: Option<(Seq<char>, Seq<char>)>) -> Seq<
    (Seq<char>, Seq<char>),
> {
    match k {
        Some(k) => if keys.contains(k) {
            keys
        } else {
            keys.push(k)
        },
        None => keys,
    }
}

/// The bucket keys after a list of dependencies.
pub open spec fn keys_after(keys: Seq<(Seq<char>, Seq<char>)>, deps: Seq<VisitedDependency>) -> Seq<
    (Seq<char>, Seq<char>),
>
    decreases deps.len(),
{
    if deps.len() == 0 {
        keys
    } else {
        let d = dependency_view(deps.last());
        add_key(keys_after(keys, deps.drop_last()), dependency_key(d.0, d.1))
    }
}

/// Generate a policy.
///
/// This needs to determine a base path for each module so that we
/// can group modules to the package that they belong to in order
/// to convert a list of all modules into a collection of packages.
pub struct PolicyBuilder {
    /// The entry point module.
    entry: String,
    /// Package buckets keyed by the module specifier and the base path
    /// for the package, holding the modules inside the base path.
    package_buckets: Vec<PackageBucket>,
    /// Package buckets after grouping multiple versions of the same package.
    package_groups: Vec<PackageGroup>,
    /// Cumulative analysis for a package by merging the analysis for
    /// each module in the package.
    package_analysis: crate::policy::Policy,
}

impl PolicyBuilder {
    /// No two groups share a specifier.
    #[verifier::type_invariant]
    closed spec fn wf(self) -> bool {
        groups_unique(self.package_groups@)
    }

    /// The path of the entry point module.
    pub closed spec fn entry_path(&self) -> Seq<char> {
        self.entry@
    }

    /// The package buckets, keyed by specifier and base directory.
    pub closed spec fn buckets(&self) -> Seq<PackageBucket> {
        self.package_buckets@
    }

    /// The package groups, keyed by normalized specifier.
    pub closed spec fn groups(&self) -> Seq<PackageGroup> {
        self.package_groups@
    }

    /// The policy gathered so far.
    pub closed spec fn analysis(&self) -> Map<Seq<char>, crate::policy::PackagePolicyView> {
        self.package_analysis@
    }

    /// Create a package builder.
    pub fn new(entry: &str) -> (r: PolicyBuilder)
        ensures
            r.entry_path() == entry@,
            r.buckets().len() == 0,
            r.groups().len() == 0,
            r.analysis() == Map::<Seq<char>, crate::policy::PackagePolicyView>::empty(),
    {
        PolicyBuilder {
            entry: entry.to_owned(),
            package_buckets: Vec::new(),
            package_groups: Vec::new(),
            package_analysis: crate::policy::Policy::new(),
        }
    }
}

/// Record a dependency met while visiting the module graph: a dependency
/// that names a package and resolved to a file gets a bucket for its
/// specifier and the package's base directory; it is an error when that
/// directory cannot be found.
fn add_dependency(buckets: &mut Vec<PackageBucket>, spec: &str, path: Option<&str>) -> (r: Result<(), PolicyError>)
    ensures
        r is Err <==> dependency_fails(spec@, path_view(path)),
        r is Err ==> final(buckets)@ == old(buckets)@,
        r is Ok ==> bucket_keys(final(buckets)@) == add_key(
            bucket_keys(old(buckets)@),
            dependency_key(spec@, path_view(path)),
        ),
        final(buckets)@.len() >= old(buckets)@.len(),
        forall|i: int|
            0 <= i < old(buckets)@.len() ==> (#[trigger] final(buckets)@[i]).modules
                == old(buckets)@[i].modules,
        forall|i: int|
            old(buckets)@.len() <= i < final(buckets)@.len() ==> (
            #[trigger] final(buckets)@[i]).modules@.len() == 0,
{
    let ghost pv = path_view(path);
    if is_package_specifier(spec) {
        if let Some(p) = path {
            assert(pv == Some(p@));
            match crate::module::base::module_base_directory(spec, p) {
                Some(base) => {
                    let ghost keys = bucket_keys(buckets@);
                    let mut i: usize = 0;
                    let spec_owned = spec.to_owned();
                    while i < buckets.len()
                        invariant
                            i <= buckets@.len(),
                            *buckets == *old(buckets),
                            keys == bucket_keys(buckets@),
                            package_specifier(spec@),
                            path == Some(p),
                            pv == Some(p@),
                            crate::module::base::base_directory(spec@, p@) == Some(base@),
                            spec_owned@ == spec@,
                            forall|k: int| 0 <= k < i ==> keys[k] != (spec@, base@),
                        decreases buckets@.len() - i,
                    {
                        if buckets[i].spec == spec_owned && buckets[i].base == base {
                            assert(keys[i as int] == (spec@, base@));
                            assert(keys.contains((spec@, base@)));
                            return Ok(());
                        }
                        i = i + 1;
                    }
                    assert(!keys.contains((spec@, base@)));
                    let bucket = PackageBucket { spec: spec_owned, base, modules: Vec::new() };
                    buckets.push(bucket);
                    assert(bucket_keys(buckets@) =~= keys.push((spec@, base@)));
                    Ok(())
                },
                None => Err(PolicyError::ModuleBase(spec.to_owned())),
            }
        } else {
            Ok(())
        }
    } else {
        Ok(())
    }
}

/// The first key whose base is the deepest (longest) base that is a
/// component prefix of a path, among the first `n` keys.
pub open spec fn deepest_upto(keys: Seq<(Seq<char>, Seq<char>)>, p: Seq<char>, n: int) -> Option<int>
    decreases n,
{
    if n <= 0 {
        None
    } else {
        let prev = deepest_upto(keys, p, n - 1);
        if component_prefix(keys[n - 1].1, p) && (prev is None || keys[n - 1].1.len() > keys[prev->0].1.len()) {
            Some(n - 1)
        } else {
            prev
        }
    }
}

/// The bucket a module path belongs to: the first bucket with the deepest
/// base directory that contains it.
pub open spec fn deepest_bucket(keys: Seq<(Seq<char>, Seq<char>)>, p: Seq<char>) -> Option<int> {
    deepest_upto(keys, p, keys.len() as int)
}

/// The deepest bucket contains the path, and no bucket containing the path
/// has a deeper base; there is none exactly when no bucket contains the path.
pub proof fn lemma_deepest_upto(keys: Seq<(Seq<char>, Seq<char>)>, p: Seq<char>, n: int)
    requires
        0 <= n <= keys.len(),
    ensures
        deepest_upto(keys, p, n) matches Some(i) ==> 0 <= i < n && component_prefix(keys[i].1, p) && forall|j: int|
            0 <= j < n && component_prefix(#[trigger] keys[j].1, p) ==> keys[j].1.len() <= keys[i].1.len(),
        deepest_upto(keys, p, n) is None ==> forall|j: int| 0 <= j < n ==> !component_prefix(#[trigger] keys[j].1, p),
    decreases n,
{
    if n > 0 {
        lemma_deepest_upto(keys, p, n - 1);
    }
}

/// Whether the modules of two bucket lists agree except that one bucket
/// gained a module.
pub open spec fn buckets_gain(a: Seq<PackageBucket>, b: Seq<PackageBucket>, at: Option<int>, m: Seq<char>) -> bool {
    &&& a.len() == b.len()
    &&& forall|i: int| 0 <= i < a.len() ==> (#[trigger] b[i]).spec == a[i].spec && b[i].base == a[i].base
    &&& forall|i: int, y: Seq<char>|
        #![trigger holds(b[i].modules@, y)]
        0 <= i < a.len() ==> (holds(b[i].modules@, y) <==> (holds(a[i].modules@, y) || (at == Some(i) && y == m)))
}

/// One step of flattening keeps the modules each (normalized specifier,
/// base) pair holds: the bucket at `k` of `t` gained the modules of bucket
/// `i` of `old_bs`, either into an existing bucket (`found`) or a new one.
proof fn lemma_flatten_step(
    old_bs: Seq<PackageBucket>,
    i: int,
    before: Seq<PackageBucket>,
    mid: Seq<PackageBucket>,
    t: Seq<PackageBucket>,
    k: int,
    found: bool,
    key: Seq<char>,
)
    requires
        0 <= i < old_bs.len(),
        key == normalized_specifier(old_bs[i].spec@),
        forall|s: Seq<char>, b: Seq<char>, m: Seq<char>|
            bucket_holds(before, s, b, m) <==> exists|j: int|
                0 <= j < i && normalized_specifier((#[trigger] old_bs[j]).spec@) == s && old_bs[j].base@ == b
                    && holds(old_bs[j].modules@, m),
        0 <= k < mid.len(),
        found ==> mid == before,
        !found ==> mid.len() == before.len() + 1 && k == before.len() && mid.drop_last() == before && mid[k].modules@.len() == 0,
        mid[k].spec@ == key,
        mid[k].base@ == old_bs[i].base@,
        t.len() == mid.len(),
        forall|x: int| 0 <= x < t.len() && x != k ==> t[x] == mid[x],
        t[k].spec == mid[k].spec,
        t[k].base == mid[k].base,
        forall|y: Seq<char>| holds(t[k].modules@, y) <==> (holds(mid[k].modules@, y) || holds(old_bs[i].modules@, y)),
    ensures
        forall|s: Seq<char>, b: Seq<char>, m: Seq<char>|
            bucket_holds(t, s, b, m) <==> exists|j: int|
                0 <= j < i + 1 && normalized_specifier((#[trigger] old_bs[j]).spec@) == s && old_bs[j].base@ == b
                    && holds(old_bs[j].modules@, m),
{
    assert forall|s: Seq<char>, b: Seq<char>, m: Seq<char>|
        bucket_holds(t, s, b, m) implies exists|j: int|
            0 <= j < i + 1 && normalized_specifier((#[trigger] old_bs[j]).spec@) == s && old_bs[j].base@ == b
                && holds(old_bs[j].modules@, m) by {
        let x = choose|x: int| 0 <= x < t.len() && (#[trigger] t[x]).spec@ == s && t[x].base@ == b && holds(t[x].modules@, m);
        if x == k {
            if holds(old_bs[i].modules@, m) {
                assert(normalized_specifier(old_bs[i].spec@) == s);
            } else {
                assert(holds(mid[k].modules@, m));
                if !found {
                    let w = choose|w: int| 0 <= w < mid[k].modules@.len() && (#[trigger] mid[k].modules@[w])@ == m;
                    assert(false);
                }
                assert(mid[k] == before[k]);
                assert(bucket_holds(before, s, b, m));
            }
        } else {
            if !found {
                assert(t[x] == mid[x]);
                assert(mid[x] == before[x]);
            }
            assert(t[x] == before[x]);
            assert(bucket_holds(before, s, b, m));
        }
    }
    assert forall|s: Seq<char>, b: Seq<char>, m: Seq<char>|
        (exists|j: int|
            0 <= j < i + 1 && normalized_specifier((#[trigger] old_bs[j]).spec@) == s && old_bs[j].base@ == b
                && holds(old_bs[j].modules@, m)) implies bucket_holds(t, s, b, m) by {
        let j = choose|j: int|
            0 <= j < i + 1 && normalized_specifier((#[trigger] old_bs[j]).spec@) == s && old_bs[j].base@ == b
                && holds(old_bs[j].modules@, m);
        if j < i {
            assert(bucket_holds(before, s, b, m));
            let x = choose|x: int|
                0 <= x < before.len() && (#[trigger] before[x]).spec@ == s && before[x].base@ == b && holds(before[x].modules@, m);
            if x == k {
                assert(found);
                assert(mid[k] == before[x]);
                assert(holds(t[k].modules@, m));
            } else {
                if !found {
                    assert(mid[x] == before[x]);
                }
                assert(t[x] == before[x]);
            }
        } else {
            assert(j == i);
            assert(holds(t[k].modules@, m));
            assert(t[k].spec@ == s && t[k].base@ == b);
        }
    }
}

/// Put a module path in the bucket of the package it belongs to: the
/// first bucket with the deepest base directory that contains the path.
fn assign_module(buckets: &mut Vec<PackageBucket>, path: &String)
    ensures
        buckets_gain(
            old(buckets)@,
            final(buckets)@,
            deepest_bucket(bucket_keys(old(buckets)@), path@),
            path@,
        ),
{
    let ghost bs = buckets@;
    let ghost keys = bucket_keys(bs);
    let mut best: Option<usize> = None;
    let mut i: usize = 0;
    while i < buckets.len()
        invariant
            i <= bs.len(),
            bs == buckets@,
            keys == bucket_keys(bs),
            best matches Some(k) ==> k < i && deepest_upto(keys, path@, i as int) == Some(k as int),
            best is None ==> deepest_upto(keys, path@, i as int) is None,
        decreases bs.len() - i,
    {
        let base = &buckets[i].base;
        if is_component_prefix(base, path) {
            match best {
                None => {
                    best = Some(i);
                },
                Some(k) => {
                    let deeper = crate::text::to_chars(base.as_str()).len() > crate::text::to_chars(
                        buckets[k].base.as_str(),
                    ).len();
                    if deeper {
                        best = Some(i);
                    }
                },
            }
        }
        i = i + 1;
    }
    match best {
        Some(k) => {
            let mut bucket = buckets.remove(k);
            add_string(&mut bucket.modules, path.clone());
            buckets.insert(k, bucket);
            proof {
                assert forall|j: int| 0 <= j < bs.len() implies (#[trigger] buckets@[j]).spec == bs[j].spec
                    && buckets@[j].base == bs[j].base by {
                    if j != k {
                        assert(buckets@[j] == bs[j]);
                    }
                }
                assert forall|j: int, y: Seq<char>| 0 <= j < bs.len() implies (#[trigger] holds(buckets@[j].modules@, y)
                    <==> (holds(bs[j].modules@, y) || (Some(k as int) == Some(j) && y == path@))) by {
                    if j != k {
                        assert(buckets@[j] == bs[j]);
                    }
                }
            }
        },
        None => {},
    }
}

impl PolicyBuilder {
    /// Flatten package nested paths so that the modules are grouped
    /// with the parent package: buckets are keyed by the normalized
    /// specifier and the base, the modules of merged buckets joined.
    #[verifier::rlimit(40)]
    fn flatten(self) -> (r: PolicyBuilder)
        ensures
            r.entry == self.entry,
            r.package_groups@ == self.package_groups@,
            r.package_analysis == self.package_analysis,
            buckets_unique(r.package_buckets@),
            forall|s: Seq<char>, b: Seq<char>|
                has_bucket(r.package_buckets@, s, b) <==> exists|i: int|
                    0 <= i < self.package_buckets@.len() && normalized_specifier(
                        (#[trigger] self.package_buckets@[i]).spec@,
                    ) == s && self.package_buckets@[i].base@ == b,
            forall|s: Seq<char>, b: Seq<char>, m: Seq<char>|
                bucket_holds(r.package_buckets@, s, b, m) <==> exists|i: int|
                    0 <= i < self.package_buckets@.len() && normalized_specifier(
                        (#[trigger] self.package_buckets@[i]).spec@,
                    ) == s && self.package_buckets@[i].base@ == b && holds(self.package_buckets@[i].modules@, m),
    {
        proof {
            use_type_invariant(&self);
        }
        let ghost old_bs = self.package_buckets@;
        let mut tmp: Vec<PackageBucket> = Vec::new();
        let mut i: usize = 0;
        while i < self.package_buckets.len()
            invariant
                i <= old_bs.len(),
                old_bs == self.package_buckets@,
                buckets_unique(tmp@),
                forall|s: Seq<char>, b: Seq<char>|
                    has_bucket(tmp@, s, b) <==> exists|j: int|
                        0 <= j < i && normalized_specifier((#[trigger] old_bs[j]).spec@) == s && old_bs[j].base@ == b,
                forall|s: Seq<char>, b: Seq<char>, m: Seq<char>|
                    bucket_holds(tmp@, s, b, m) <==> exists|j: int|
                        0 <= j < i && normalized_specifier((#[trigger] old_bs[j]).spec@) == s && old_bs[j].base@ == b
                            && holds(old_bs[j].modules@, m),
            decreases old_bs.len() - i,
        {
            let bucket = &self.package_buckets[i];
            let key = normalize_specifier(bucket.spec.as_str());
            let ghost before = tmp@;
            let mut found: Option<usize> = None;
            let mut j: usize = 0;
            while j < tmp.len()
                invariant
                    j <= tmp@.len(),
                    tmp@ == before,
                    found matches Some(k) ==> k < tmp@.len() && tmp@[k as int].spec@ == key@ && tmp@[k as int].base@ == bucket.base@,
                    found is None ==> forall|k: int| 0 <= k < j ==> !((#[trigger] tmp@[k]).spec@ == key@ && tmp@[k].base@ == bucket.base@),
                decreases tmp@.len() - j,
            {
                if found.is_none() && tmp[j].spec == key && tmp[j].base == bucket.base {
                    found = Some(j);
                }
                j = j + 1;
            }
            let k = match found {
                Some(k) => k,
                None => {
                    tmp.push(PackageBucket { spec: key, base: bucket.base.clone(), modules: Vec::new() });
                    tmp.len() - 1
                },
            };
            let ghost mid = tmp@;
            let mut entry = tmp.remove(k);
            let mut p: usize = 0;
            while p < bucket.modules.len()
                invariant
                    p <= bucket.modules@.len(),
                    forall|y: Seq<char>| holds(entry.modules@, y) <==> (holds(mid[k as int].modules@, y) || exists|q: int| 0 <= q < p && (#[trigger] bucket.modules@[q])@ == y),
                    entry.spec == mid[k as int].spec,
                    entry.base == mid[k as int].base,
                decreases bucket.modules@.len() - p,
            {
                add_string(&mut entry.modules, bucket.modules[p].clone());
                p = p + 1;
            }
            tmp.insert(k, entry);
            proof {
                let t = tmp@;
                assert forall|x: int| 0 <= x < t.len() && x != k implies t[x] == mid[x] by {}
                assert forall|y: Seq<char>| holds(t[k as int].modules@, y) <==> (holds(mid[k as int].modules@, y) || holds(bucket.modules@, y)) by {
                    if holds(bucket.modules@, y) {
                        let q = choose|q: int| 0 <= q < bucket.modules@.len() && (#[trigger] bucket.modules@[q])@ == y;
                    }
                }
                assert(buckets_unique(t)) by {
                    assert forall|x: int, z: int| 0 <= x < t.len() && 0 <= z < t.len() && x != z implies !((#[trigger] t[x]).spec@ == (#[trigger] t[z]).spec@ && t[x].base@ == t[z].base@) by {
                        if found is None {
                            if x == k && z < before.len() {
                                assert(mid[z] == before[z]);
                            } else if z == k && x < before.len() {
                                assert(mid[x] == before[x]);
                            } else {
                                assert(mid[x] == before[x] && mid[z] == before[z]);
                            }
                        } else {
                            assert(mid == before);
                        }
                    }
                }
                assert forall|s: Seq<char>, b: Seq<char>| has_bucket(t, s, b) <==> exists|j: int|
                    0 <= j < i + 1 && normalized_specifier((#[trigger] old_bs[j]).spec@) == s && old_bs[j].base@ == b by {
                    if has_bucket(t, s, b) {
                        let x = choose|x: int| 0 <= x < t.len() && (#[trigger] t[x]).spec@ == s && t[x].base@ == b;
                        if x != k || found is Some {
                            if x < before.len() {
                                assert(t[x].spec == before[x].spec && t[x].base == before[x].base);
                                assert(has_bucket(before, s, b));
                            }
                        }
                    }
                    if exists|j: int| 0 <= j < i + 1 && normalized_specifier((#[trigger] old_bs[j]).spec@) == s && old_bs[j].base@ == b {
                        let j = choose|j: int| 0 <= j < i + 1 && normalized_specifier((#[trigger] old_bs[j]).spec@) == s && old_bs[j].base@ == b;
                        if j < i {
                            assert(has_bucket(before, s, b));
                            let x = choose|x: int| 0 <= x < before.len() && (#[trigger] before[x]).spec@ == s && before[x].base@ == b;
                            assert(t[x].spec == before[x].spec && t[x].base == before[x].base);
                        } else {
                            assert(t[k as int].spec@ == s);
                        }
                    }
                }
                if found is None {
                    assert(mid.drop_last() =~= before);
                }
                lemma_flatten_step(old_bs, i as int, before, mid, t, k as int, found is Some, key@);
            }
            i = i + 1;
        }
        PolicyBuilder {
            entry: self.entry,
            package_buckets: tmp,
            package_groups: self.package_groups,
            package_analysis: self.package_analysis,
        }
    }
}

/// Whether some group has a specifier.
pub open spec fn has_group(gs: Seq<PackageGroup>, spec: Seq<char>) -> bool {
    exists|i: int| 0 <= i < gs.len() && (#[trigger] gs[i]).spec@ == spec
}

/// The specifier of each group differs from those of the others.
pub open spec fn groups_unique(gs: Seq<PackageGroup>) -> bool {
    forall|i: int, j: int|
        0 <= i < gs.len() && 0 <= j < gs.len() && i != j ==> (#[trigger] gs[i]).spec@ != (#[trigger] gs[j]).spec@
}

/// Merge the modules of a bucket into the group of its specifier, making
/// the group when there is none.
fn merge_group(gs: &mut Vec<PackageGroup>, spec: &String, modules: &Vec<String>)
    requires
        groups_unique(old(gs)@),
    ensures
        groups_unique(final(gs)@),
        forall|s: Seq<char>| has_group(final(gs)@, s) <==> (has_group(old(gs)@, s) || s == spec@),
        forall|s: Seq<char>, m: Seq<char>|
            group_holds(final(gs)@, s, m) <==> (group_holds(old(gs)@, s, m) || (s == spec@ && holds(modules@, m))),
{
    let ghost before = gs@;
    let mut found: Option<usize> = None;
    let mut j: usize = 0;
    while j < gs.len()
        invariant
            j <= gs@.len(),
            gs@ == before,
            found matches Some(k) ==> k < gs@.len() && gs@[k as int].spec@ == spec@,
            found is None ==> forall|k: int| 0 <= k < j ==> (#[trigger] gs@[k]).spec@ != spec@,
        decreases gs@.len() - j,
    {
        if found.is_none() && gs[j].spec == *spec {
            found = Some(j);
        }
        j = j + 1;
    }
    let k = match found {
        Some(k) => k,
        None => {
            gs.push(PackageGroup { spec: spec.clone(), modules: Vec::new() });
            gs.len() - 1
        },
    };
    let ghost mid = gs@;
    proof {
        if found is None {
            assert(mid.drop_last() =~= before);
            assert(groups_unique(mid)) by {
                assert forall|x: int, z: int| 0 <= x < mid.len() && 0 <= z < mid.len() && x != z implies (#[trigger] mid[x]).spec@
                    != (#[trigger] mid[z]).spec@ by {
                    if x < before.len() && z < before.len() {
                        assert(mid[x] == before[x] && mid[z] == before[z]);
                    } else if x < before.len() {
                        assert(mid[x] == before[x]);
                    } else {
                        assert(mid[z] == before[z]);
                    }
                }
            }
        }
    }
    let mut entry = gs.remove(k);
    let mut p: usize = 0;
    while p < modules.len()
        invariant
            p <= modules@.len(),
            0 <= k < mid.len(),
            forall|y: Seq<char>|
                holds(entry.modules@, y) <==> (holds(mid[k as int].modules@, y) || exists|q: int|
                    0 <= q < p && (#[trigger] modules@[q])@ == y),
            entry.spec == mid[k as int].spec,
        decreases modules@.len() - p,
    {
        add_string(&mut entry.modules, modules[p].clone());
        p = p + 1;
    }
    gs.insert(k, entry);
    proof {
        let t = gs@;
        assert forall|x: int| 0 <= x < t.len() && x != k implies t[x] == mid[x] by {}
        assert forall|y: Seq<char>| holds(t[k as int].modules@, y) <==> (holds(mid[k as int].modules@, y) || holds(modules@, y)) by {
            if holds(modules@, y) {
                let q = choose|q: int| 0 <= q < modules@.len() && (#[trigger] modules@[q])@ == y;
            }
        }
        assert(groups_unique(t)) by {
            assert forall|x: int, z: int| 0 <= x < t.len() && 0 <= z < t.len() && x != z implies (#[trigger] t[x]).spec@
                != (#[trigger] t[z]).spec@ by {
                if x != k && z != k {
                    assert(t[x] == mid[x] && t[z] == mid[z]);
                } else if x != k {
                    assert(t[x] == mid[x]);
                } else {
                    assert(t[z] == mid[z]);
                }
            }
        }
        assert forall|s: Seq<char>| has_group(t, s) <==> (has_group(before, s) || s == spec@) by {
            if has_group(t, s) {
                let x = choose|x: int| 0 <= x < t.len() && (#[trigger] t[x]).spec@ == s;
                if x != k {
                    assert(t[x] == mid[x]);
                    if found is None {
                        assert(mid[x] == before[x]);
                    }
                    assert(has_group(before, s));
                }
            }
            if has_group(before, s) {
                let x = choose|x: int| 0 <= x < before.len() && (#[trigger] before[x]).spec@ == s;
                if x != k {
                    assert(t[x] == mid[x]);
                    assert(mid[x] == before[x]);
                } else {
                    assert(t[k as int].spec@ == s);
                }
            }
            if s == spec@ {
                assert(t[k as int].spec@ == s);
            }
        }
        assert forall|s: Seq<char>, m: Seq<char>|
            group_holds(t, s, m) <==> (group_holds(before, s, m) || (s == spec@ && holds(modules@, m))) by {
            if group_holds(t, s, m) {
                let x = choose|x: int| 0 <= x < t.len() && (#[trigger] t[x]).spec@ == s && holds(t[x].modules@, m);
                if x != k {
                    assert(t[x] == mid[x]);
                    if found is None {
                        assert(mid[x] == before[x]);
                    }
                    assert(group_holds(before, s, m));
                } else if !holds(modules@, m) {
                    assert(holds(mid[k as int].modules@, m));
                    if found is None {
                        let w = choose|w: int| 0 <= w < mid[k as int].modules@.len() && (#[trigger] mid[k as int].modules@[w])@ == m;
                        assert(false);
                    }
                    assert(mid[k as int] == before[k as int]);
                    assert(group_holds(before, s, m));
                }
            }
            if group_holds(before, s, m) {
                let x = choose|x: int| 0 <= x < before.len() && (#[trigger] before[x]).spec@ == s && holds(before[x].modules@, m);
                assert(mid[x] == before[x]);
                if x != k {
                    assert(t[x] == mid[x]);
                } else {
                    assert(holds(t[k as int].modules@, m));
                }
            }
            if s == spec@ && holds(modules@, m) {
                assert(holds(t[k as int].modules@, m));
                assert(t[k as int].spec@ == s);
            }
        }
    }
}

impl PolicyBuilder {
    /// Merge packages with the same specifier.
    ///
    /// The npm package manager allows multiple versions of the same package
    /// so we merge them into a single bucket with all of the modules so
    /// the end result is cumulative analysis across multiple versions of the same package.
    fn group(self) -> (r: PolicyBuilder)
        ensures
            r.entry == self.entry,
            r.package_analysis == self.package_analysis,
            r.package_buckets@.len() == 0,
            groups_unique(r.package_groups@),
            forall|s: Seq<char>|
                has_group(r.package_groups@, s) <==> (has_group(self.package_groups@, s) || exists|i: int|
                    0 <= i < self.package_buckets@.len() && (#[trigger] self.package_buckets@[i]).spec@ == s),
            forall|s: Seq<char>, m: Seq<char>|
                group_holds(r.package_groups@, s, m) <==> (group_holds(self.package_groups@, s, m) || exists|i: int|
                    0 <= i < self.package_buckets@.len() && (#[trigger] self.package_buckets@[i]).spec@ == s && holds(
                        self.package_buckets@[i].modules@,
                        m,
                    )),
    {
        proof {
            use_type_invariant(&self);
        }
        let ghost bs = self.package_buckets@;
        let ghost g0 = self.package_groups@;
        let mut groups = self.package_groups;
        let mut i: usize = 0;
        while i < self.package_buckets.len()
            invariant
                i <= bs.len(),
                bs == self.package_buckets@,
                groups_unique(groups@),
                forall|s: Seq<char>|
                    #![trigger has_group(groups@, s)]
                    has_group(groups@, s) <==> (has_group(g0, s) || exists|j: int|
                        0 <= j < i && (#[trigger] bs[j]).spec@ == s),
                forall|s: Seq<char>, m: Seq<char>|
                    #![trigger group_holds(groups@, s, m)]
                    group_holds(groups@, s, m) <==> (group_holds(g0, s, m) || exists|j: int|
                        0 <= j < i && (#[trigger] bs[j]).spec@ == s && holds(bs[j].modules@, m)),
            decreases bs.len() - i,
        {
            let ghost prev = groups@;
            merge_group(&mut groups, &self.package_buckets[i].spec, &self.package_buckets[i].modules);
            proof {
                assert forall|s: Seq<char>|
                    has_group(groups@, s) <==> (has_group(g0, s) || exists|j: int| 0 <= j < i + 1 && (#[trigger] bs[j]).spec@ == s) by {
                    if exists|j: int| 0 <= j < i + 1 && (#[trigger] bs[j]).spec@ == s {
                        let j = choose|j: int| 0 <= j < i + 1 && (#[trigger] bs[j]).spec@ == s;
                        if j < i {
                            assert(has_group(prev, s));
                        }
                    }
                }
                assert forall|s: Seq<char>, m: Seq<char>|
                    group_holds(groups@, s, m) <==> (group_holds(g0, s, m) || exists|j: int|
                        0 <= j < i + 1 && (#[trigger] bs[j]).spec@ == s && holds(bs[j].modules@, m)) by {
                    if exists|j: int| 0 <= j < i + 1 && (#[trigger] bs[j]).spec@ == s && holds(bs[j].modules@, m) {
                        let j = choose|j: int| 0 <= j < i + 1 && (#[trigger] bs[j]).spec@ == s && holds(bs[j].modules@, m);
                        if j < i {
                            assert(group_holds(prev, s, m));
                        }
                    }
                }
            }
            i = i + 1;
        }
        PolicyBuilder {
            entry: self.entry,
            package_buckets: Vec::new(),
            package_groups: groups,
            package_analysis: self.package_analysis,
        }
    }
}

/// Whether some dependency of a list names a package whose base directory
/// cannot be found.
pub open spec fn some_dependency_fails(deps: Seq<VisitedDependency>) -> bool {
    exists|i: int|
        0 <= i < deps.len() && dependency_fails(dependency_view(#[trigger] deps[i]).0, dependency_view(deps[i]).1)
}

/// Whether the bucket at an index holds a module once the modules of a list
/// were put in their buckets: it held the module already, or the module is
/// in the list and the bucket is the module's deepest one.
pub open spec fn assigned(
    bs: Seq<PackageBucket>,
    keys: Seq<(Seq<char>, Seq<char>)>,
    modules: Seq<String>,
    i: int,
    m: Seq<char>,
) -> bool {
    (i < bs.len() && holds(bs[i].modules@, m)) || (holds(modules, m) && deepest_bucket(keys, m) == Some(i))
}

/// A list holds what its first `n` items hold, and the next one.
proof fn lemma_holds_take(s: Seq<String>, n: int, y: Seq<char>)
    requires
        0 <= n < s.len(),
    ensures
        holds(s.take(n + 1), y) <==> (holds(s.take(n), y) || s[n]@ == y),
{
    let t = s.take(n + 1);
    if holds(t, y) {
        let j = choose|j: int| 0 <= j < t.len() && (#[trigger] t[j])@ == y;
        if j < n {
            assert(s.take(n)[j] == t[j]);
        }
    }
    if holds(s.take(n), y) {
        let j = choose|j: int| 0 <= j < n && (#[trigger] s.take(n)[j])@ == y;
        assert(t[j] == s.take(n)[j]);
    }
    if s[n]@ == y {
        assert(t[n] == s[n]);
    }
}

/// Grouping the flattened buckets gives each normalized specifier the
/// modules of the buckets that carry it.
proof fn lemma_load_groups(
    g0: Seq<PackageGroup>,
    c: Seq<PackageBucket>,
    f: Seq<PackageBucket>,
    g: Seq<PackageGroup>,
)
    requires
        forall|s: Seq<char>, b: Seq<char>|
            has_bucket(f, s, b) <==> exists|i: int|
                0 <= i < c.len() && normalized_specifier((#[trigger] c[i]).spec@) == s && c[i].base@ == b,
        forall|s: Seq<char>, b: Seq<char>, m: Seq<char>|
            bucket_holds(f, s, b, m) <==> exists|i: int|
                0 <= i < c.len() && normalized_specifier((#[trigger] c[i]).spec@) == s && c[i].base@ == b && holds(
                    c[i].modules@,
                    m,
                ),
        forall|s: Seq<char>|
            has_group(g, s) <==> (has_group(g0, s) || exists|i: int| 0 <= i < f.len() && (#[trigger] f[i]).spec@ == s),
        forall|s: Seq<char>, m: Seq<char>|
            group_holds(g, s, m) <==> (group_holds(g0, s, m) || exists|i: int|
                0 <= i < f.len() && (#[trigger] f[i]).spec@ == s && holds(f[i].modules@, m)),
    ensures
        forall|s: Seq<char>|
            has_group(g, s) <==> (has_group(g0, s) || exists|i: int|
                0 <= i < c.len() && normalized_specifier((#[trigger] c[i]).spec@) == s),
        forall|s: Seq<char>, m: Seq<char>|
            group_holds(g, s, m) <==> (group_holds(g0, s, m) || exists|i: int|
                0 <= i < c.len() && normalized_specifier((#[trigger] c[i]).spec@) == s && holds(c[i].modules@, m)),
{
    assert forall|s: Seq<char>|
        has_group(g, s) <==> (has_group(g0, s) || exists|i: int|
            0 <= i < c.len() && normalized_specifier((#[trigger] c[i]).spec@) == s) by {
        if exists|i: int| 0 <= i < f.len() && (#[trigger] f[i]).spec@ == s {
            let i = choose|i: int| 0 <= i < f.len() && (#[trigger] f[i]).spec@ == s;
            assert(has_bucket(f, s, f[i].base@));
        }
        if exists|i: int| 0 <= i < c.len() && normalized_specifier((#[trigger] c[i]).spec@) == s {
            let i = choose|i: int| 0 <= i < c.len() && normalized_specifier((#[trigger] c[i]).spec@) == s;
            assert(has_bucket(f, s, c[i].base@));
        }
    }
    assert forall|s: Seq<char>, m: Seq<char>|
        group_holds(g, s, m) <==> (group_holds(g0, s, m) || exists|i: int|
            0 <= i < c.len() && normalized_specifier((#[trigger] c[i]).spec@) == s && holds(c[i].modules@, m)) by {
        if exists|i: int| 0 <= i < f.len() && (#[trigger] f[i]).spec@ == s && holds(f[i].modules@, m) {
            let i = choose|i: int| 0 <= i < f.len() && (#[trigger] f[i]).spec@ == s && holds(f[i].modules@, m);
            assert(bucket_holds(f, s, f[i].base@, m));
        }
        if exists|i: int| 0 <= i < c.len() && normalized_specifier((#[trigger] c[i]).spec@) == s && holds(c[i].modules@, m) {
            let i = choose|i: int|
                0 <= i < c.len() && normalized_specifier((#[trigger] c[i]).spec@) == s && holds(c[i].modules@, m);
            assert(bucket_holds(f, s, c[i].base@, m));
            let j = choose|j: int|
                0 <= j < f.len() && (#[trigger] f[j]).spec@ == s && f[j].base@ == c[i].base@ && holds(f[j].modules@, m);
        }
    }
}

/// Put each dependency in its bucket, then each module in the bucket of
/// the package it belongs to; the first dependency whose package base
/// cannot be found stops it with an error.
fn fill_buckets(buckets: Vec<PackageBucket>, dependencies: &Vec<VisitedDependency>, modules: &Vec<String>) -> (r: Result<
    Vec<PackageBucket>,
    PolicyError,
>)
    ensures
        r is Err <==> some_dependency_fails(dependencies@),
        r matches Ok(c) ==> {
            &&& bucket_keys(c@) == keys_after(bucket_keys(buckets@), dependencies@)
            &&& forall|i: int, m: Seq<char>|
                #![trigger holds(c@[i].modules@, m)]
                0 <= i < c@.len() ==> (holds(c@[i].modules@, m) <==> assigned(buckets@, bucket_keys(c@), modules@, i, m))
        },
{
    let ghost b0 = buckets@;
    let ghost deps = dependencies@;
    let mut buckets = buckets;
    let mut i: usize = 0;
    while i < dependencies.len()
        invariant
            i <= deps.len(),
            deps == dependencies@,
            bucket_keys(buckets@) == keys_after(bucket_keys(b0), deps.take(i as int)),
            buckets@.len() >= b0.len(),
            forall|j: int| 0 <= j < b0.len() ==> (#[trigger] buckets@[j]).modules == b0[j].modules,
            forall|j: int| b0.len() <= j < buckets@.len() ==> (#[trigger] buckets@[j]).modules@.len() == 0,
            forall|j: int|
                0 <= j < i ==> !dependency_fails(dependency_view(#[trigger] deps[j]).0, dependency_view(deps[j]).1),
        decreases deps.len() - i,
    {
        let dep = &dependencies[i];
        let path: Option<&str> = match &dep.path {
            Some(p) => Some(p.as_str()),
            None => None,
        };
        assert(path_view(path) == dependency_view(deps[i as int]).1);
        let ghost prev = buckets@;
        match add_dependency(&mut buckets, dep.spec.as_str(), path) {
            Ok(()) => {},
            Err(e) => {
                assert(dependency_fails(dependency_view(deps[i as int]).0, dependency_view(deps[i as int]).1));
                return Err(e);
            },
        }
        proof {
            assert(deps.take(i as int + 1).drop_last() =~= deps.take(i as int));
            assert(deps.take(i as int + 1).last() == deps[i as int]);
            assert forall|j: int| 0 <= j < b0.len() implies (#[trigger] buckets@[j]).modules == b0[j].modules by {
                assert(prev[j].modules == b0[j].modules);
            }
            assert forall|j: int| b0.len() <= j < buckets@.len() implies (#[trigger] buckets@[j]).modules@.len() == 0 by {
                if j < prev.len() {
                    assert(prev[j].modules@.len() == 0);
                }
            }
        }
        i = i + 1;
    }
    assert(deps.take(deps.len() as int) =~= deps);
    let ghost keys = bucket_keys(buckets@);
    let ghost b1 = buckets@;
    let mut q: usize = 0;
    while q < modules.len()
        invariant
            q <= modules@.len(),
            bucket_keys(buckets@) == keys,
            buckets@.len() == keys.len(),
            b1.len() == keys.len(),
            forall|j: int, y: Seq<char>|
                #![trigger holds(buckets@[j].modules@, y)]
                0 <= j < keys.len() ==> (holds(buckets@[j].modules@, y) <==> (holds(b1[j].modules@, y) || (holds(
                    modules@.take(q as int),
                    y,
                ) && deepest_bucket(keys, y) == Some(j)))),
        decreases modules@.len() - q,
    {
        let ghost prev = buckets@;
        assign_module(&mut buckets, &modules[q]);
        proof {
            assert(bucket_keys(buckets@) =~= bucket_keys(prev));
            assert forall|j: int, y: Seq<char>| 0 <= j < keys.len() implies (#[trigger] holds(buckets@[j].modules@, y) <==> (
            holds(b1[j].modules@, y) || (holds(modules@.take(q as int + 1), y) && deepest_bucket(keys, y) == Some(j)))) by {
                lemma_holds_take(modules@, q as int, y);
                assert(holds(prev[j].modules@, y) <==> (holds(b1[j].modules@, y) || (holds(modules@.take(q as int), y)
                    && deepest_bucket(keys, y) == Some(j))));
            }
        }
        q = q + 1;
    }
    proof {
        assert(modules@.take(modules@.len() as int) =~= modules@);
    }
    proof {
        assert forall|i: int, m: Seq<char>| 0 <= i < keys.len() implies (#[trigger] holds(buckets@[i].modules@, m) <==> assigned(
            b0,
            keys,
            modules@,
            i,
            m,
        )) by {
            if i < b0.len() {
                assert(b1[i].modules == b0[i].modules);
            } else {
                assert(b1[i].modules@.len() == 0);
                if holds(b1[i].modules@, m) {
                    let w = choose|w: int| 0 <= w < b1[i].modules@.len() && (#[trigger] b1[i].modules@[w])@ == m;
                }
            }
        }
    }
    Ok(buckets)
}

impl PolicyBuilder {
    /// Load the dependencies and modules reached from the entry point and
    /// group the modules into dependent package buckets.
    ///
    /// `dependencies` are those met while visiting the module graph from the
    /// entry point, in order; `modules` are the paths of all modules loaded.
    /// Each module goes to the bucket with the deepest base directory that
    /// contains it; buckets are then merged by normalized specifier.
    pub fn load(self, dependencies: &Vec<VisitedDependency>, modules: &Vec<String>) -> (r: Result<
        PolicyBuilder,
        PolicyError,
    >)
        ensures
            r is Err <==> some_dependency_fails(dependencies@),
            r matches Ok(b) ==> {
                let keys = keys_after(bucket_keys(self.buckets()), dependencies@);
                &&& b.entry_path() == self.entry_path()
                &&& b.analysis() == self.analysis()
                &&& b.buckets().len() == 0
                &&& forall|s: Seq<char>|
                    has_group(b.groups(), s) <==> (has_group(self.groups(), s) || exists|i: int|
                        0 <= i < keys.len() && normalized_specifier((#[trigger] keys[i]).0) == s)
                &&& forall|s: Seq<char>, m: Seq<char>|
                    group_holds(b.groups(), s, m) <==> (group_holds(self.groups(), s, m) || exists|i: int|
                        0 <= i < keys.len() && normalized_specifier((#[trigger] keys[i]).0) == s && assigned(
                            self.buckets(),
                            keys,
                            modules@,
                            i,
                            m,
                        ))
            },
    {
        proof {
            use_type_invariant(&self);
        }
        let ghost b0 = self.package_buckets@;
        let ghost g0 = self.package_groups@;
        let ghost keys0 = keys_after(bucket_keys(self.buckets()), dependencies@);
        assert(b0 == self.buckets() && g0 == self.groups());
        let buckets = match fill_buckets(self.package_buckets, dependencies, modules) {
            Ok(c) => c,
            Err(e) => {
                return Err(e);
            },
        };
        let ghost c = buckets@;
        let ghost keys = bucket_keys(c);
        let builder = PolicyBuilder {
            entry: self.entry,
            package_buckets: buckets,
            package_groups: self.package_groups,
            package_analysis: self.package_analysis,
        };
        assert(builder.package_buckets@ == c);
        let flat = builder.flatten();
        let ghost f = flat.package_buckets@;
        assert(forall|s: Seq<char>, b: Seq<char>|
            has_bucket(f, s, b) <==> exists|i: int|
                0 <= i < c.len() && normalized_specifier((#[trigger] c[i]).spec@) == s && c[i].base@ == b);
        assert(forall|s: Seq<char>, b: Seq<char>, m: Seq<char>|
            bucket_holds(f, s, b, m) <==> exists|i: int|
                0 <= i < c.len() && normalized_specifier((#[trigger] c[i]).spec@) == s && c[i].base@ == b && holds(
                    c[i].modules@,
                    m,
                ));
        let grouped = flat.group();
        proof {
            let gg = grouped.package_groups@;
            lemma_load_groups(g0, c, f, gg);
            assert forall|s: Seq<char>|
                has_group(gg, s) <==> (has_group(g0, s) || exists|i: int|
                    0 <= i < keys.len() && normalized_specifier((#[trigger] keys[i]).0) == s) by {
                if exists|i: int| 0 <= i < c.len() && normalized_specifier((#[trigger] c[i]).spec@) == s {
                    let i = choose|i: int| 0 <= i < c.len() && normalized_specifier((#[trigger] c[i]).spec@) == s;
                    assert(keys[i] == (c[i].spec@, c[i].base@));
                }
                if exists|i: int| 0 <= i < keys.len() && normalized_specifier((#[trigger] keys[i]).0) == s {
                    let i = choose|i: int| 0 <= i < keys.len() && normalized_specifier((#[trigger] keys[i]).0) == s;
                    assert(keys[i] == (c[i].spec@, c[i].base@));
                }
            }
            assert forall|s: Seq<char>, m: Seq<char>|
                group_holds(gg, s, m) <==> (group_holds(g0, s, m) || exists|i: int|
                    0 <= i < keys.len() && normalized_specifier((#[trigger] keys[i]).0) == s && assigned(b0, keys, modules@, i, m)) by {
                if exists|i: int| 0 <= i < c.len() && normalized_specifier((#[trigger] c[i]).spec@) == s && holds(c[i].modules@, m) {
                    let i = choose|i: int|
                        0 <= i < c.len() && normalized_specifier((#[trigger] c[i]).spec@) == s && holds(c[i].modules@, m);
                    assert(keys[i] == (c[i].spec@, c[i].base@));
                }
                if exists|i: int|
                    0 <= i < keys.len() && normalized_specifier((#[trigger] keys[i]).0) == s && assigned(b0, keys, modules@, i, m) {
                    let i = choose|i: int|
                        0 <= i < keys.len() && normalized_specifier((#[trigger] keys[i]).0) == s && assigned(b0, keys, modules@, i, m);
                    assert(keys[i] == (c[i].spec@, c[i].base@));
                    assert(holds(c[i].modules@, m));
                }
            }
            assert(keys == keys0);
            assert(grouped.groups() == gg);
        }
        Ok(grouped)
    }
}

/// A module loaded while visiting the module graph: its path and, for a
/// JavaScript module, its syntax tree and the specifiers it imports.
pub struct ParsedModule {
    /// The path of the module file.
    pub path: String,
    /// The syntax tree; `None` for JSON and builtin modules.
    pub module: Option<Module>,
    /// The import specifiers of the module's dependencies.
    pub dependencies: Vec<String>,
}

/// The index of the first loaded module with a path.
pub open spec fn first_module(parsed: Seq<ParsedModule>, m: Seq<char>) -> Option<int> {
    if exists|i: int|
        0 <= i < parsed.len() && (#[trigger] parsed[i]).path@ == m && forall|j: int|
            0 <= j < i ==> (#[trigger] parsed[j]).path@ != m {
        Some(
            choose|i: int|
                0 <= i < parsed.len() && (#[trigger] parsed[i]).path@ == m && forall|j: int|
                    0 <= j < i ==> (#[trigger] parsed[j]).path@ != m,
        )
    } else {
        None
    }
}

/// Find the first loaded module with a path.
fn find_module(parsed: &Vec<ParsedModule>, m: &String) -> (r: Option<usize>)
    ensures
        match r {
            Some(i) => first_module(parsed@, m@) == Some(i as int),
            None => first_module(parsed@, m@) is None,
        },
{
    let mut i: usize = 0;
    while i < parsed.len()
        invariant
            i <= parsed@.len(),
            forall|j: int| 0 <= j < i ==> (#[trigger] parsed@[j]).path@ != m@,
        decreases parsed@.len() - i,
    {
        if parsed[i].path == *m {
            proof {
                let w = choose|w: int|
                    0 <= w < parsed@.len() && (#[trigger] parsed@[w]).path@ == m@ && forall|j: int|
                        0 <= j < w ==> (#[trigger] parsed@[j]).path@ != m@;
                assert(parsed@[i as int].path@ == m@);
                if w < i {
                    assert(parsed@[w].path@ != m@);
                }
                if i < w {
                    assert(parsed@[i as int].path@ != m@);
                }
            }
            return Some(i);
        }
        i = i + 1;
    }
    None
}

/// Whether a module of package `spec` grants access to package `x`: its
/// first loaded entry is a JavaScript module with `x` among its dependent
/// packages.
pub open spec fn module_grants(spec: Seq<char>, parsed: Seq<ParsedModule>, m: Seq<char>, x: Seq<char>) -> bool {
    match first_module(parsed, m) {
        Some(i) => parsed[i].module is Some && dependent_packages(
            spec,
            crate::analysis::builtins::string_views(parsed[i].dependencies@),
        ).contains(x),
        None => false,
    }
}

/// The global paths the analysis of a module of a package finds, in order.
pub open spec fn module_globals(parsed: Seq<ParsedModule>, m: Seq<char>) -> Seq<Seq<Seq<char>>> {
    match first_module(parsed, m) {
        Some(i) => match parsed[i].module {
            Some(module) => insert_all(Seq::empty(), tree_globals(module_state(module.body@).scope, Set::empty())),
            None => Seq::empty(),
        },
        None => Seq::empty(),
    }
}

/// The builtin paths the analysis of a module of a package finds, in order.
pub open spec fn module_builtins(parsed: Seq<ParsedModule>, m: Seq<char>) -> Seq<Seq<Seq<char>>> {
    match first_module(parsed, m) {
        Some(i) => match parsed[i].module {
            Some(module) => module_state(module.body@).builtins,
            None => Seq::empty(),
        },
        None => Seq::empty(),
    }
}

/// The global paths the modules of a package find, in order.
pub open spec fn group_globals(parsed: Seq<ParsedModule>, modules: Seq<String>) -> Seq<Seq<Seq<char>>>
    decreases modules.len(),
{
    if modules.len() == 0 {
        Seq::empty()
    } else {
        group_globals(parsed, modules.drop_last()) + module_globals(parsed, modules.last()@)
    }
}

/// The builtin paths the modules of a package find, in order.
pub open spec fn group_builtins(parsed: Seq<ParsedModule>, modules: Seq<String>) -> Seq<Seq<Seq<char>>>
    decreases modules.len(),
{
    if modules.len() == 0 {
        Seq::empty()
    } else {
        group_builtins(parsed, modules.drop_last()) + module_builtins(parsed, modules.last()@)
    }
}

/// Whether some module of a package grants access to package `x`.
pub open spec fn group_grants(spec: Seq<char>, modules: Seq<String>, parsed: Seq<ParsedModule>, x: Seq<char>) -> bool {
    exists|q: int| 0 <= q < modules.len() && module_grants(spec, parsed, (#[trigger] modules[q])@, x)
}

/// What the analysis of a package states: no native bindings, a frozen
/// environment, the global and builtin paths its modules find, each
/// flattened into its shortest parent and joined with dots, and the
/// dependent packages of its modules, every key granted.
pub open spec fn package_result(
    spec: Seq<char>,
    modules: Seq<String>,
    parsed: Seq<ParsedModule>,
    p: crate::policy::PackagePolicyView,
) -> bool {
    &&& !p.native
    &&& p.env == crate::policy::EnvPolicy::Frozen
    &&& forall|x: Seq<char>| #[trigger] p.globals.dom().contains(x) ==> p.globals[x]
    &&& forall|x: Seq<char>| #[trigger] p.builtin.dom().contains(x) ==> p.builtin[x]
    &&& p.globals == flag_map(joined_all(flattened(insert_all(Seq::empty(), group_globals(parsed, modules)))))
    &&& p.builtin == flag_map(joined_all(flattened(insert_all(Seq::empty(), group_builtins(parsed, modules)))))
    &&& p.packages == Map::new(|x: Seq<char>| group_grants(spec, modules, parsed, x), |x: Seq<char>| true)
}

/// The dependent packages of a list of module analyses are those of its
/// members.
proof fn lemma_all_packages(data: Seq<ModuleAnalysis>, x: Seq<char>)
    ensures
        all_packages(data).contains(x) <==> exists|q: int|
            0 <= q < data.len() && name_items((#[trigger] data[q]).packages).contains(x),
    decreases data.len(),
{
    if data.len() > 0 {
        let t = data.drop_last();
        lemma_all_packages(t, x);
        let a = all_packages(t);
        let b = name_items(data.last().packages);
        assert(all_packages(data) == a + b);
        if (a + b).contains(x) {
            let i = choose|i: int| 0 <= i < (a + b).len() && (a + b)[i] == x;
            if i < a.len() {
                assert(a[i] == x);
                let q = choose|q: int| 0 <= q < t.len() && name_items((#[trigger] t[q]).packages).contains(x);
                assert(data[q] == t[q]);
            } else {
                assert(b[i - a.len()] == x);
                assert(data[data.len() - 1] == data.last());
            }
        }
        if exists|q: int| 0 <= q < data.len() && name_items((#[trigger] data[q]).packages).contains(x) {
            let q = choose|q: int| 0 <= q < data.len() && name_items((#[trigger] data[q]).packages).contains(x);
            if q < t.len() {
                assert(t[q] == data[q]);
                assert(a.contains(x));
                let i = choose|i: int| 0 <= i < a.len() && a[i] == x;
                assert((a + b)[i] == x);
            } else {
                assert(data[q] == data.last());
                let i = choose|i: int| 0 <= i < b.len() && b[i] == x;
                assert((a + b)[a.len() + i] == x);
            }
        }
    }
}

/// Walk all the modules in a package and perform a cumulative analysis.
pub fn analyze_modules(spec: &str, modules: &Vec<String>, parsed: &Vec<ParsedModule>) -> (r: PackagePolicy)
    ensures
        package_result(spec@, modules@, parsed@, r@),
{
    let mut data: Vec<ModuleAnalysis> = Vec::new();
    let mut q: usize = 0;
    while q < modules.len()
        invariant
            q <= modules@.len(),
            data@.len() == q,
            all_globals(data@) == group_globals(parsed@, modules@.take(q as int)),
            all_builtins(data@) == group_builtins(parsed@, modules@.take(q as int)),
            forall|k: int, x: Seq<char>|
                #![trigger name_items(data@[k].packages).contains(x)]
                0 <= k < q ==> (name_items(data@[k].packages).contains(x) <==> module_grants(
                    spec@,
                    parsed@,
                    modules@[k]@,
                    x,
                )),
        decreases modules@.len() - q,
    {
        let item = match find_module(parsed, &modules[q]) {
            Some(i) => match &parsed[i].module {
                Some(module) => {
                    let a = analyze_module(spec, module, &parsed[i].dependencies);
                    proof {
                        assert forall|x: Seq<char>| name_items(a.packages).contains(x) <==> module_grants(
                            spec@,
                            parsed@,
                            modules@[q as int]@,
                            x,
                        ) by {
                            crate::policy::analysis::lemma_insert_all_contains(
                                Seq::empty(),
                                dependent_packages(
                                    spec@,
                                    crate::analysis::builtins::string_views(parsed@[i as int].dependencies@),
                                ),
                                x,
                            );
                        }
                    }
                    a
                },
                None => ModuleAnalysis { globals: paths_new(), builtin: paths_new(), packages: names_new() },
            },
            None => ModuleAnalysis { globals: paths_new(), builtin: paths_new(), packages: names_new() },
        };
        let ghost prev = data@;
        assert(path_items(item.globals) == module_globals(parsed@, modules@[q as int]@));
        assert(path_items(item.builtin) == module_builtins(parsed@, modules@[q as int]@));
        data.push(item);
        proof {
            let t = modules@.take(q as int + 1);
            assert(t.drop_last() =~= modules@.take(q as int));
            assert(t.last() == modules@[q as int]);
            assert(data@.drop_last() =~= prev);
            assert forall|k: int, x: Seq<char>| 0 <= k < q + 1 implies (#[trigger] name_items(data@[k].packages).contains(x)
                <==> module_grants(spec@, parsed@, modules@[k]@, x)) by {
                if k < q {
                    assert(data@[k] == prev[k]);
                }
            }
        }
        q = q + 1;
    }
    let r = merge_analyses(&data);
    proof {
        assert forall|x: Seq<char>| flag_map(all_packages(data@)).dom().contains(x) <==> group_grants(spec@, modules@, parsed@, x) by {
            lemma_all_packages(data@, x);
            if group_grants(spec@, modules@, parsed@, x) {
                let k = choose|k: int| 0 <= k < modules@.len() && module_grants(spec@, parsed@, (#[trigger] modules@[k])@, x);
                assert(name_items(data@[k].packages).contains(x));
            }
            if exists|k: int| 0 <= k < data@.len() && name_items((#[trigger] data@[k]).packages).contains(x) {
                let k = choose|k: int| 0 <= k < data@.len() && name_items((#[trigger] data@[k]).packages).contains(x);
                assert(module_grants(spec@, parsed@, modules@[k]@, x));
            }
        }
        assert(r@.packages =~= Map::new(|x: Seq<char>| group_grants(spec@, modules@, parsed@, x), |x: Seq<char>| true));
        assert(modules@.take(modules@.len() as int) =~= modules@);
    }
    r
}

/// Whether the package analysis of a group of modules is empty: it uses no
/// global, no builtin module and grants no dependent package.
pub open spec fn package_empty(spec: Seq<char>, modules: Seq<String>, parsed: Seq<ParsedModule>) -> bool {
    &&& flag_map(joined_all(flattened(insert_all(Seq::empty(), group_globals(parsed, modules))))) == Map::<
        Seq<char>,
        bool,
    >::empty()
    &&& flag_map(joined_all(flattened(insert_all(Seq::empty(), group_builtins(parsed, modules))))) == Map::<
        Seq<char>,
        bool,
    >::empty()
    &&& forall|x: Seq<char>| !group_grants(spec, modules, parsed, x)
}

/// Whether the policy for the group of a specifier was updated from its
/// package analysis: a non-empty analysis was stored, or the analysis was
/// empty (no keys in any group) and the previous entry, if any, stays.
pub open spec fn group_updated(
    spec: Seq<char>,
    modules: Seq<String>,
    parsed: Seq<ParsedModule>,
    before: Map<Seq<char>, crate::policy::PackagePolicyView>,
    after: Map<Seq<char>, crate::policy::PackagePolicyView>,
) -> bool {
    ||| (!package_empty(spec, modules, parsed) && after.dom().contains(spec) && package_result(
        spec,
        modules,
        parsed,
        after[spec],
    ))
    ||| (package_empty(spec, modules, parsed) && after.dom().contains(spec) == before.dom().contains(spec) && (
    before.dom().contains(spec) ==> after[spec] == before[spec]))
}

impl PolicyBuilder {
    /// Analyze and aggregate the modules for all dependent packages: each
    /// group whose analysis is not empty stores it under its specifier.
    pub fn analyze(self, parsed: &Vec<ParsedModule>) -> (r: PolicyBuilder)
        ensures
            r.entry_path() == self.entry_path(),
            r.buckets() == self.buckets(),
            r.groups().len() == 0,
            forall|k: Seq<char>|
                !has_group(self.groups(), k) ==> (r.analysis().dom().contains(k) == self.analysis().dom().contains(k)
                    && (self.analysis().dom().contains(k) ==> r.analysis()[k] == self.analysis()[k])),
            forall|i: int|
                0 <= i < self.groups().len() ==> group_updated(
                    (#[trigger] self.groups()[i]).spec@,
                    self.groups()[i].modules@,
                    parsed@,
                    self.analysis(),
                    r.analysis(),
                ),
    {
        proof {
            use_type_invariant(&self);
        }
        let ghost gs = self.package_groups@;
        let ghost a0 = self.package_analysis@;
        let mut analysis = self.package_analysis;
        let mut i: usize = 0;
        while i < self.package_groups.len()
            invariant
                i <= gs.len(),
                gs == self.package_groups@,
                groups_unique(gs),
                forall|k: Seq<char>|
                    #![trigger analysis@.dom().contains(k)]
                    #![trigger a0.dom().contains(k)]
                    !(exists|j: int| 0 <= j < i && (#[trigger] gs[j]).spec@ == k) ==> (analysis@.dom().contains(k)
                        == a0.dom().contains(k) && (a0.dom().contains(k) ==> analysis@[k] == a0[k])),
                forall|j: int| 0 <= j < i ==> group_updated((#[trigger] gs[j]).spec@, gs[j].modules@, parsed@, a0, analysis@),
            decreases gs.len() - i,
        {
            let group = &self.package_groups[i];
            let policy = analyze_modules(group.spec.as_str(), &group.modules, parsed);
            let ghost prev = analysis@;
            let ghost k = group.spec@;
            if !policy.is_empty() {
                proof {
                    if package_empty(k, group.modules@, parsed@) {
                        assert(policy@.packages =~= Map::<Seq<char>, bool>::empty());
                    }
                }
                analysis.insert(group.spec.as_str(), policy);
            } else {
                proof {
                    assert forall|x: Seq<char>| !group_grants(k, group.modules@, parsed@, x) by {
                        if group_grants(k, group.modules@, parsed@, x) {
                            assert(policy@.packages.dom().contains(x));
                        }
                    }
                }
            }
            proof {
                assert(!(exists|j: int| 0 <= j < i && (#[trigger] gs[j]).spec@ == k)) by {
                    if exists|j: int| 0 <= j < i && (#[trigger] gs[j]).spec@ == k {
                        let j = choose|j: int| 0 <= j < i && (#[trigger] gs[j]).spec@ == k;
                        assert(gs[i as int].spec@ == k);
                    }
                }
                assert(prev.dom().contains(k) == a0.dom().contains(k) && (a0.dom().contains(k) ==> prev[k] == a0[k]));
                assert forall|k2: Seq<char>|
                    !(exists|j: int| 0 <= j < i + 1 && (#[trigger] gs[j]).spec@ == k2) implies (#[trigger] analysis@.dom().contains(k2)
                        == a0.dom().contains(k2) && (a0.dom().contains(k2) ==> analysis@[k2] == a0[k2])) by {
                    assert(k2 != k);
                    assert(!(exists|j: int| 0 <= j < i && (#[trigger] gs[j]).spec@ == k2)) by {
                        if exists|j: int| 0 <= j < i && (#[trigger] gs[j]).spec@ == k2 {
                            let j = choose|j: int| 0 <= j < i && (#[trigger] gs[j]).spec@ == k2;
                            assert(j < i + 1);
                        }
                    }
                    assert(prev.dom().contains(k2) == a0.dom().contains(k2));
                }
                assert forall|j: int| 0 <= j < i + 1 implies group_updated((#[trigger] gs[j]).spec@, gs[j].modules@, parsed@, a0, analysis@) by {
                    if j < i {
                        assert(gs[j].spec@ != k);
                        assert(group_updated(gs[j].spec@, gs[j].modules@, parsed@, a0, prev));
                        assert(analysis@.dom().contains(gs[j].spec@) == prev.dom().contains(gs[j].spec@));
                        assert(prev.dom().contains(gs[j].spec@) ==> analysis@[gs[j].spec@] == prev[gs[j].spec@]);
                    }
                }
            }
            i = i + 1;
        }
        proof {
            assert forall|k: Seq<char>| !has_group(gs, k) implies (analysis@.dom().contains(k) == a0.dom().contains(k)
                && (a0.dom().contains(k) ==> analysis@[k] == a0[k])) by {
                assert(!(exists|j: int| 0 <= j < gs.len() && (#[trigger] gs[j]).spec@ == k));
            }
        }
        PolicyBuilder {
            entry: self.entry,
            package_buckets: self.package_buckets,
            package_groups: Vec::new(),
            package_analysis: analysis,
        }
    }

    /// Generate a package policy file.
    pub fn finalize(self) -> (r: crate::policy::Policy)
        ensures
            r@ == self.analysis(),
    {
        self.package_analysis
    }
}


/// The dependent packages of a module of a package never name the package
/// itself.
proof fn lemma_dependent_packages_exclude(spec: Seq<char>, deps: Seq<Seq<char>>)
    ensures
        !dependent_packages(spec, deps).contains(spec),
    decreases deps.len(),
{
    if deps.len() > 0 {
        lemma_dependent_packages_exclude(spec, deps.drop_last());
        let prev = dependent_packages(spec, deps.drop_last());
        let d = deps.last();
        if spec != normalized_specifier(d) && package_specifier(d) {
            assert forall|i: int| 0 <= i < prev.push(normalized_specifier(d)).len() implies prev.push(
                normalized_specifier(d),
            )[i] != spec by {
                if i < prev.len() {
                    assert(prev.push(normalized_specifier(d))[i] == prev[i]);
                    assert(prev.contains(prev[i]));
                }
            }
        }
    }
}

/// A package's policy never grants the package access to itself, even
/// where one of its modules lists the package as a dependency.
pub proof fn lemma_package_never_grants_itself(spec: Seq<char>, modules: Seq<String>, parsed: Seq<ParsedModule>)
    ensures
        !group_grants(spec, modules, parsed, spec),
{
    assert forall|q: int| 0 <= q < modules.len() implies !module_grants(spec, parsed, (#[trigger] modules[q])@, spec) by {
        if let Some(i) = first_module(parsed, modules[q]@) {
            lemma_dependent_packages_exclude(
                spec,
                crate::analysis::builtins::string_views(parsed[i].dependencies@),
            );
        }
    }
}

} // verus!
