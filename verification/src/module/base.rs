//! Helper to determine the base path for a module.
use vstd::prelude::*;

use crate::text::{
    concat, find_char, index_from, last_match, lemma_index_from, lemma_last_match_upto, rfind, substring,
    to_chars,
};

verus! {

/// The package directory part of a specifier: its first segment, and for a
/// scoped specifier (`@scope/name`) its first two segments.
pub open spec fn package_segments(s: Seq<char>) -> Seq<char> {
    match index_from(s, '/', 0) {
        None => s,
        Some(i) => if s[0] == '@' {
            match index_from(s, '/', i + 1) {
                Some(j) => s.take(j),
                None => s,
            }
        } else {
            s.take(i)
        },
    }
}

/// The path below which a package's modules live: `node_modules/` and the
/// package directory part of the specifier.
pub open spec fn package_sub_path(specifier: Seq<char>) -> Seq<char> {
    "node_modules/"@ + package_segments(specifier)
}

/// The base directory of a module: the resolved path up to and including
/// the last occurrence of the package's sub path, if it occurs.
pub open spec fn base_directory(specifier: Seq<char>, path: Seq<char>) -> Option<Seq<char>> {
    match last_match(path, package_sub_path(specifier)) {
        Some(k) => Some(path.take(k + package_sub_path(specifier).len())),
        None => None,
    }
}

/// Attempt to find the base directory for a module using the import specifier
/// and the resolved path for the module (with `/` separators).
pub fn module_base_directory(specifier: &str, path: &str) -> (r: Option<String>)
    ensures
        r is None <==> base_directory(specifier@, path@) is None,
        r matches Some(b) ==> base_directory(specifier@, path@) == Some(b@),
{
    let spec_chars = to_chars(specifier);
    let segments = match find_char(&spec_chars, '/', 0) {
        None => specifier.to_owned(),
        Some(i) => {
            proof {
                lemma_index_from(specifier@, '/', 0);
            }
            if spec_chars[0] == '@' {
                match find_char(&spec_chars, '/', i + 1) {
                    Some(j) => substring(specifier, 0, j),
                    None => specifier.to_owned(),
                }
            } else {
                substring(specifier, 0, i)
            }
        },
    };
    let sub_path = concat("node_modules/", segments.as_str());
    let path_chars = to_chars(path);
    let sub_chars = to_chars(sub_path.as_str());
    match rfind(&path_chars, &sub_chars) {
        Some(k) => {
            proof {
                lemma_last_match_upto(path@, sub_path@, path@.len() - sub_path@.len());
            }
            Some(substring(path, 0, k + sub_chars.len()))
        },
        None => None,
    }
}

/// A base directory is a prefix of the module path that ends with the
/// package's sub path.
pub proof fn lemma_base_directory_prefix(specifier: Seq<char>, path: Seq<char>)
    ensures
        base_directory(specifier, path) matches Some(b) ==> {
            &&& b.len() <= path.len()
            &&& b == path.take(b.len() as int)
            &&& b.len() >= package_sub_path(specifier).len()
            &&& b.skip(b.len() - package_sub_path(specifier).len()) == package_sub_path(specifier)
        },
{
    let p = package_sub_path(specifier);
    lemma_last_match_upto(path, p, path.len() - p.len());
    if let Some(k) = last_match(path, p) {
        let b = path.take(k + p.len());
        assert(b.skip(b.len() - p.len()) =~= path.subrange(k, k + p.len()));
        assert(b =~= path.take(b.len() as int));
    }
}

} // verus!
