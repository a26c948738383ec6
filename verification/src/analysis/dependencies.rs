//! Classify the dependency specifiers of a module into builtin packages,
//! other packages and local paths.
use vstd::prelude::*;

use crate::analysis::builtins::{builtin_specifiers, in_node_16, node_16_package, string_views, NodeVersion};
use crate::text::{has_prefix, starts_with};

verus! {

/// Whether a name is a built in package of the latest stable node with
/// long term support (node@16).
pub open spec fn latest_core_package(s: Seq<char>) -> bool {
    node_16_package(s)
}

/// Determine if a package is a core package.
pub fn is_core_package(s: &str) -> (r: bool)
    ensures
        r <==> latest_core_package(s@),
{
    in_node_16(s)
}

/// Whether a specifier names a path: relative (`./`, `../`) or absolute (`/`).
pub open spec fn local_specifier(s: Seq<char>) -> bool {
    has_prefix(s, "./"@) || has_prefix(s, "../"@) || has_prefix(s, "/"@)
}

/// Determine if a specifier looks like a package local path.
///
/// A local path is one that uses either a relative or absolute
/// file system path.
pub fn is_local_specifier(s: &str) -> (r: bool)
    ensures
        r <==> local_specifier(s@),
{
    starts_with(s, "./") || starts_with(s, "../") || starts_with(s, "/")
}

/// Whether a specifier names a package that is neither built in nor a path.
pub open spec fn package_specifier(s: Seq<char>) -> bool {
    !latest_core_package(s) && !local_specifier(s)
}

/// Determine if a specifier names a dependent package: not a built in
/// package and not a local path.
pub fn is_package_specifier(s: &str) -> (r: bool)
    ensures
        r <==> package_specifier(s@),
{
    !is_core_package(s) && !is_local_specifier(s)
}

/// The specifiers of a list that name dependent packages, in their order.
pub open spec fn package_specifiers(s: Seq<Seq<char>>) -> Seq<Seq<char>>
    decreases s.len(),
{
    if s.len() == 0 {
        Seq::empty()
    } else if package_specifier(s.last()) {
        package_specifiers(s.drop_last()).push(s.last())
    } else {
        package_specifiers(s.drop_last())
    }
}

/// Filter a list of dependencies to detect builtins and other packages.
pub struct DependencyList {
    dependencies: Vec<String>,
}

impl DependencyList {
    /// A dependency list over the specifiers of a module's dependencies.
    pub fn new(dependencies: Vec<String>) -> (r: DependencyList)
        ensures
            r.specifiers() == string_views(dependencies@),
    {
        DependencyList { dependencies }
    }

    /// The dependency specifiers, in order.
    pub closed spec fn specifiers(&self) -> Seq<Seq<char>> {
        string_views(self.dependencies@)
    }

    /// Get a list of builtin packages.
    pub fn builtins(&self) -> (r: Vec<String>)
        ensures
            string_views(r@) == builtin_specifiers(self.specifiers(), NodeVersion::Node16),
    {
        let mut out: Vec<String> = Vec::new();
        let mut i: usize = 0;
        while i < self.dependencies.len()
            invariant
                i <= self.dependencies@.len(),
                string_views(out@) == builtin_specifiers(string_views(self.dependencies@.take(i as int)), NodeVersion::Node16),
            decreases self.dependencies@.len() - i,
        {
            let spec = &self.dependencies[i];
            let ghost before = out@;
            proof {
                let t = string_views(self.dependencies@.take(i as int + 1));
                assert(t.drop_last() =~= string_views(self.dependencies@.take(i as int)));
                assert(t.last() == spec@);
            }
            if is_core_package(spec.as_str()) {
                out.push(spec.clone());
                assert(string_views(out@) =~= string_views(before).push(spec@));
            }
            i = i + 1;
        }
        assert(self.dependencies@.take(self.dependencies@.len() as int) =~= self.dependencies@);
        out
    }

    /// Get a list of packages that are not builtins.
    pub fn packages(&self) -> (r: Vec<String>)
        ensures
            string_views(r@) == package_specifiers(self.specifiers()),
    {
        let mut out: Vec<String> = Vec::new();
        let mut i: usize = 0;
        while i < self.dependencies.len()
            invariant
                i <= self.dependencies@.len(),
                string_views(out@) == package_specifiers(string_views(self.dependencies@.take(i as int))),
            decreases self.dependencies@.len() - i,
        {
            let spec = &self.dependencies[i];
            let ghost before = out@;
            proof {
                let t = string_views(self.dependencies@.take(i as int + 1));
                assert(t.drop_last() =~= string_views(self.dependencies@.take(i as int)));
                assert(t.last() == spec@);
            }
            if is_package_specifier(spec.as_str()) {
                out.push(spec.clone());
                assert(string_views(out@) =~= string_views(before).push(spec@));
            }
            i = i + 1;
        }
        assert(self.dependencies@.take(self.dependencies@.len() as int) =~= self.dependencies@);
        out
    }
}

/// Every specifier is exactly one of: a built in package, a local path, or
/// a dependent package.
pub proof fn lemma_specifier_classes(s: Seq<char>)
    ensures
        latest_core_package(s) || local_specifier(s) || package_specifier(s),
        package_specifier(s) ==> !latest_core_package(s) && !local_specifier(s),
{
}

} // verus!
