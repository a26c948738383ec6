//! Analyzer and policy generator for LavaMoat.
//!
//! The library holds the decisions of the analysis: the scope tree of a
//! module and the globals it references, the detection of builtin package
//! usage, the classification of import specifiers, the walk of the module
//! graph, and the policy types together with the operations that merge and
//! build them.
use vstd::prelude::*;

pub mod access;
pub mod ast;
pub mod analysis;
pub mod bundler;
pub mod collections;
pub mod helpers;
pub mod module;
pub mod policy;
pub mod printer;
pub mod source;

pub mod static_module_record;
pub mod text;

use crate::printer::PrintOptions;

verus! {

/// Whether a character is white space, by the Unicode `White_Space`
/// property.
pub open spec fn white_space(c: char) -> bool {
    ||| c == '\t'
    ||| c == '\n'
    ||| c == '\u{0B}'
    ||| c == '\u{0C}'
    ||| c == '\r'
    ||| c == ' '
    ||| c == '\u{85}'
    ||| c == '\u{A0}'
    ||| c == '\u{1680}'
    ||| ('\u{2000}' <= c <= '\u{200A}')
    ||| c == '\u{2028}'
    ||| c == '\u{2029}'
    ||| c == '\u{202F}'
    ||| c == '\u{205F}'
    ||| c == '\u{3000}'
}

/// The characters left once every trailing character that meets `drop` is
/// removed.
pub open spec fn strip_end(s: Seq<char>, semicolons: bool) -> Seq<char>
    decreases s.len(),
{
    if s.len() > 0 && (if semicolons {
        s.last() == ';'
    } else {
        white_space(s.last())
    }) {
        strip_end(s.drop_last(), semicolons)
    } else {
        s
    }
}

/// Generated code without its trailing white space and semicolons.
pub open spec fn trimmed_code(s: Seq<char>) -> Seq<char> {
    strip_end(strip_end(s, false), true)
}

/// Whether a character is white space.
fn is_white_space(c: char) -> (r: bool)
    ensures
        r <==> white_space(c),
{
    c == '\t' || c == '\n' || c == '\u{0B}' || c == '\u{0C}' || c == '\r' || c == ' ' || c == '\u{85}' || c
        == '\u{A0}' || c == '\u{1680}' || ('\u{2000}' <= c && c <= '\u{200A}') || c == '\u{2028}' || c
        == '\u{2029}' || c == '\u{202F}' || c == '\u{205F}' || c == '\u{3000}'
}

/// Whether a trailing character goes: a semicolon, or white space.
fn strippable(c: char, semicolons: bool) -> (r: bool)
    ensures
        r <==> (if semicolons {
            c == ';'
        } else {
            white_space(c)
        }),
{
    if semicolons {
        c == ';'
    } else {
        is_white_space(c)
    }
}

/// The length left once the trailing characters of a prefix that are white
/// space (or semicolons) are removed.
fn strip_len(s: &Vec<char>, n: usize, semicolons: bool) -> (r: usize)
    requires
        n <= s@.len(),
    ensures
        r <= n,
        s@.take(r as int) == strip_end(s@.take(n as int), semicolons),
{
    let mut k = n;
    while k > 0 && strippable(s[k - 1], semicolons)
        invariant
            k <= n <= s@.len(),
            strip_end(s@.take(k as int), semicolons) == strip_end(s@.take(n as int), semicolons),
        decreases k,
    {
        proof {
            assert(s@.take(k as int).drop_last() =~= s@.take(k as int - 1));
        }
        k = k - 1;
    }
    proof {
        let t = s@.take(k as int);
        if k > 0 {
            assert(t.last() == s@[k as int - 1]);
        }
    }
    k
}

/// Remove the trailing white space and semicolons of generated code.
pub fn trim_code(code: String) -> (r: String)
    ensures
        r@ == trimmed_code(code@),
{
    let chars = crate::text::to_chars(code.as_str());
    proof {
        assert(chars@.take(chars@.len() as int) =~= chars@);
    }
    let k = strip_len(&chars, chars.len(), false);
    let m = strip_len(&chars, k, true);
    proof {
        assert(code@.subrange(0, m as int) =~= chars@.take(m as int));
    }
    crate::text::substring(code.as_str(), 0, m)
}

/// The error listing fails with when the entry point is not a file.
pub open spec fn not_a_file(file: Seq<char>) -> Seq<char> {
    "Module "@ + file + " does not exist or is not a file"@
}

/// List all modules: the options to print the module graph of an entry
/// point with, or an error when the entry point is not a file.
pub fn list(file: &str, is_file: bool, include_file: bool) -> (r: Result<PrintOptions, String>)
    ensures
        r is Err <==> !is_file,
        r matches Err(m) ==> m@ == not_a_file(file@),
        r matches Ok(o) ==> o.include_file == include_file,
{
    if !is_file {
        let message = crate::text::concat(crate::text::concat("Module ", file).as_str(), " does not exist or is not a file");
        return Err(message);
    }
    Ok(PrintOptions { include_file })
}

} // verus!
