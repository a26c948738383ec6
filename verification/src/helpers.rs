//! Collection of helper functions.
use vstd::prelude::*;

use crate::ast::{Expr, ExprOrSuper, ObjectPatProp, Pat, PatOrExpr, PropName, VarDecl, VarDeclarator};
use crate::policy::analysis::{lemma_words_view_push, words_view};
use crate::text::{find_char, index_from, lemma_index_from, lemma_index_from_take, str_eq, substring, to_chars};

verus! {

/// The package part of an import specifier: a scoped specifier
/// (`@scope/name/...`) keeps its first two segments, any other specifier
/// its first segment.
pub open spec fn normalized_specifier(s: Seq<char>) -> Seq<char> {
    if s.len() > 0 && s[0] == '@' {
        match index_from(s, '/', 0) {
            Some(i) => match index_from(s, '/', i + 1) {
                Some(j) => s.take(j),
                None => s,
            },
            None => s,
        }
    } else {
        match index_from(s, '/', 0) {
            Some(i) => s.take(i),
            None => s,
        }
    }
}

/// Normalize an import specifier removing nested paths.
///
/// This import specifier is transformed to `caniuse-lite`:
///
/// ```text
/// caniuse-lite/data/features/background-img-opts.js
/// ```
///
/// Or the scoped specifier is trasformed to `@babel/runtime`:
///
/// ```text
/// @babel/runtime/helpers/typeof
/// ```
///
pub fn normalize_specifier(spec: &str) -> (r: String)
    ensures
        r@ == normalized_specifier(spec@),
{
    let chars = to_chars(spec);
    let is_scoped = chars.len() > 0 && chars[0] == '@';
    if is_scoped {
        match find_char(&chars, '/', 0) {
            Some(i) => match find_char(&chars, '/', i + 1) {
                Some(j) => {
                    proof {
                        lemma_index_from(spec@, '/', i + 1);
                    }
                    substring(spec, 0, j)
                },
                None => spec.to_owned(),
            },
            None => spec.to_owned(),
        }
    } else {
        match find_char(&chars, '/', 0) {
            Some(i) => {
                proof {
                    lemma_index_from(spec@, '/', 0);
                }
                substring(spec, 0, i)
            },
            None => spec.to_owned(),
        }
    }
}

/// Normalizing a normalized specifier changes nothing.
pub proof fn lemma_normalize_idempotent(s: Seq<char>)
    ensures
        normalized_specifier(normalized_specifier(s)) == normalized_specifier(s),
{
    let r = normalized_specifier(s);
    lemma_index_from(s, '/', 0);
    if s.len() > 0 && s[0] == '@' {
        if let Some(i) = index_from(s, '/', 0) {
            lemma_index_from(s, '/', i + 1);
            if let Some(j) = index_from(s, '/', i + 1) {
                lemma_index_from_take(s, '/', 0, j);
                lemma_index_from_take(s, '/', i + 1, j);
                assert(r[0] == '@');
            }
        }
    } else {
        if let Some(i) = index_from(s, '/', 0) {
            lemma_index_from_take(s, '/', 0, i);
            if r.len() > 0 {
                assert(r[0] == s[0]);
            }
        }
    }
}

/// A normalized specifier is a prefix of the specifier.
pub proof fn lemma_normalize_prefix(s: Seq<char>)
    ensures
        normalized_specifier(s).len() <= s.len(),
        normalized_specifier(s) == s.take(normalized_specifier(s).len() as int),
{
    lemma_index_from(s, '/', 0);
    if let Some(i) = index_from(s, '/', 0) {
        lemma_index_from(s, '/', i + 1);
    }
    assert(s.take(s.len() as int) =~= s);
}

/// The names a pattern binds, in the order the pattern lists them.
pub open spec fn pattern_names(p: Pat) -> Seq<Seq<char>>
    decreases p,
{
    match p {
        Pat::Ident(name) => seq![name@],
        Pat::Object(props) => object_props_names(props@),
        Pat::Array(elems) => array_elems_names(elems@),
        Pat::Rest(arg) => pattern_names(*arg),
        Pat::Assign(left, _) => pattern_names(*left),
        _ => Seq::empty(),
    }
}

/// The names the properties of an object pattern bind, in order.
pub open spec fn object_props_names(props: Seq<ObjectPatProp>) -> Seq<Seq<char>>
    decreases props,
{
    if props.len() == 0 {
        Seq::empty()
    } else {
        object_props_names(props.subrange(0, props.len() - 1)) + object_prop_names(props[props.len() - 1])
    }
}

/// Whether a pattern is an object or an array pattern.
pub open spec fn is_nested_pattern(p: Pat) -> bool {
    p is Object || p is Array
}

/// The names a property of an object pattern binds: the key of a shorthand,
/// the names of a value pattern followed, when the value is not itself an
/// object or array pattern, by an identifier key.
pub open spec fn object_prop_names(prop: ObjectPatProp) -> Seq<Seq<char>>
    decreases prop,
{
    match prop {
        ObjectPatProp::Assign(key, _) => seq![key@],
        ObjectPatProp::KeyValue(key, value) => pattern_names(*value) + (if is_nested_pattern(*value) {
            Seq::empty()
        } else {
            match key {
                PropName::Ident(k) => seq![k@],
                PropName::Computed(_) | PropName::Other => Seq::empty(),
            }
        }),
        ObjectPatProp::Rest(arg) => pattern_names(*arg),
    }
}

/// The names the elements of an array pattern bind, in order.
pub open spec fn array_elems_names(elems: Seq<Option<Pat>>) -> Seq<Seq<char>>
    decreases elems,
{
    if elems.len() == 0 {
        Seq::empty()
    } else {
        array_elems_names(elems.subrange(0, elems.len() - 1)) + match elems[elems.len() - 1] {
            Some(p) => pattern_names(p),
            None => Seq::empty(),
        }
    }
}

/// The views of a list with one list appended.
proof fn lemma_words_view_append(a: Seq<String>, b: Seq<String>)
    ensures
        words_view(a + b) == words_view(a) + words_view(b),
{
    assert(words_view(a + b) =~= words_view(a) + words_view(b));
}

/// Recursively fill names with all the symbols in a pattern.
pub fn pattern_words(pat: &Pat, names: &mut Vec<String>)
    ensures
        words_view(final(names)@) == words_view(old(names)@) + pattern_names(*pat),
    decreases pat,
{
    let ghost start = words_view(names@);
    match pat {
        Pat::Ident(name) => {
            let copy = name.clone();
            names.push(copy);
            proof {
                lemma_words_view_push(old(names)@, copy);
                assert(pattern_names(*pat) =~= seq![name@]);
            }
        },
        Pat::Object(props) => {
            assert(decreases_to!(*pat => *props));
            let mut i: usize = 0;
            while i < props.len()
                invariant
                    *pat == Pat::Object(*props),
                    decreases_to!(*pat => *props),
                    i <= props@.len(),
                    words_view(names@) == start + object_props_names(props@.take(i as int)),
                decreases props@.len() - i,
            {
                let ghost before = words_view(names@);
                let prop = &props[i];
                proof {
                    assert(decreases_to!(*props => props[i as int]));
                }
                match prop {
                    ObjectPatProp::Assign(key, _) => {
                        let ghost b = names@;
                        let copy = key.clone();
                        names.push(copy);
                        proof {
                            lemma_words_view_push(b, copy);
                        }
                    },
                    ObjectPatProp::KeyValue(key, value) => {
                        let will_recurse = match &**value {
                            Pat::Object(_) => true,
                            Pat::Array(_) => true,
                            _ => false,
                        };
                        pattern_words(value, names);
                        if !will_recurse {
                            match key {
                                PropName::Ident(ident) => {
                                    let ghost b = names@;
                                    let copy = ident.clone();
                                    names.push(copy);
                                    proof {
                                        lemma_words_view_push(b, copy);
                                    }
                                },
                                _ => {},
                            }
                        }
                    },
                    ObjectPatProp::Rest(arg) => {
                        pattern_words(arg, names);
                    },
                }
                proof {
                    let t = props@.take(i as int + 1);
                    assert(t.subrange(0, t.len() - 1) =~= props@.take(i as int));
                    assert(t[t.len() - 1] == props@[i as int]);
                    assert(words_view(names@) =~= before + object_prop_names(props@[i as int]));
                }
                i = i + 1;
            }
            assert(props@.take(props@.len() as int) =~= props@);
        },
        Pat::Array(elems) => {
            assert(decreases_to!(*pat => *elems));
            let mut i: usize = 0;
            while i < elems.len()
                invariant
                    *pat == Pat::Array(*elems),
                    decreases_to!(*pat => *elems),
                    i <= elems@.len(),
                    words_view(names@) == start + array_elems_names(elems@.take(i as int)),
                decreases elems@.len() - i,
            {
                let ghost before = words_view(names@);
                proof {
                    assert(decreases_to!(*elems => elems[i as int]));
                }
                match &elems[i] {
                    Some(elem) => {
                        pattern_words(elem, names);
                    },
                    None => {},
                }
                proof {
                    let t = elems@.take(i as int + 1);
                    assert(t.subrange(0, t.len() - 1) =~= elems@.take(i as int));
                    assert(t[t.len() - 1] == elems@[i as int]);
                    assert(words_view(names@) =~= before + match elems@[i as int] {
                        Some(p) => pattern_names(p),
                        None => Seq::empty(),
                    });
                }
                i = i + 1;
            }
            assert(elems@.take(elems@.len() as int) =~= elems@);
        },
        Pat::Rest(arg) => {
            pattern_words(arg, names);
        },
        Pat::Assign(left, _) => {
            pattern_words(left, names);
        },
        _ => {
            assert(words_view(names@) =~= start + pattern_names(*pat));
        },
    }
}

/// Whether a pattern is one that binds names: an identifier, an object or
/// array pattern, a rest or an assignment pattern.
pub open spec fn binds_names(p: Pat) -> bool {
    p is Ident || p is Object || p is Array || p is Rest || p is Assign
}

/// The declarators of a variable declaration that bind names, as their
/// index and the names they bind, in order.
pub open spec fn var_symbol_entries(decls: Seq<VarDeclarator>) -> Seq<(int, Seq<Seq<char>>)>
    decreases decls.len(),
{
    if decls.len() == 0 {
        Seq::empty()
    } else if binds_names(decls.last().name) {
        var_symbol_entries(decls.drop_last()).push(((decls.len() - 1) as int, pattern_names(decls.last().name)))
    } else {
        var_symbol_entries(decls.drop_last())
    }
}

/// The views of the entries of a variable declaration.
pub open spec fn entries_view(s: Seq<(usize, Vec<String>)>) -> Seq<(int, Seq<Seq<char>>)> {
    s.map_values(|e: (usize, Vec<String>)| (e.0 as int, words_view(e.1@)))
}

/// Walk a variable declaration and find all symbols: each declarator that
/// binds names, by its index, with the names it binds.
pub fn var_symbol_words(var: &VarDecl) -> (r: Vec<(usize, Vec<String>)>)
    ensures
        entries_view(r@) == var_symbol_entries(var.decls@),
        forall|i: int| 0 <= i < r@.len() ==> (#[trigger] r@[i]).0 < var.decls@.len(),
{
    let mut out: Vec<(usize, Vec<String>)> = Vec::new();
    let mut i: usize = 0;
    while i < var.decls.len()
        invariant
            i <= var.decls@.len(),
            entries_view(out@) == var_symbol_entries(var.decls@.take(i as int)),
            forall|k: int| 0 <= k < out@.len() ==> (#[trigger] out@[k]).0 < i,
        decreases var.decls@.len() - i,
    {
        let decl = &var.decls[i];
        let keep = match &decl.name {
            Pat::Ident(_) => true,
            Pat::Object(_) => true,
            Pat::Array(_) => true,
            Pat::Rest(_) => true,
            Pat::Assign(_, _) => true,
            _ => false,
        };
        let ghost before = out@;
        proof {
            let t = var.decls@.take(i as int + 1);
            assert(t.drop_last() =~= var.decls@.take(i as int));
            assert(t.last() == *decl);
        }
        if keep {
            let mut names: Vec<String> = Vec::new();
            pattern_words(&decl.name, &mut names);
            assert(words_view(names@) =~= pattern_names(decl.name));
            out.push((i, names));
            proof {
                assert(entries_view(out@) =~= entries_view(before).push((i as int, pattern_names(decl.name))));
            }
        }
        i = i + 1;
    }
    assert(var.decls@.take(var.decls@.len() as int) =~= var.decls@);
    out
}

/// Whether an assignment target is `exports` or `module.exports`.
pub open spec fn assigns_exports(n: PatOrExpr) -> bool {
    match n {
        PatOrExpr::Pat(pat) => match *pat {
            Pat::Ident(id) => id@ == "exports"@,
            Pat::Expr(expr) => match *expr {
                Expr::Member(m) => match (m.obj, *m.prop) {
                    (ExprOrSuper::Expr(obj), Expr::Ident(prop)) => match *obj {
                        Expr::Ident(o) => o@ == "module"@ && prop@ == "exports"@,
                        _ => false,
                    },
                    _ => false,
                },
                _ => false,
            },
            _ => false,
        },
        _ => false,
    }
}

/// Determine if an expression refers to CJS module exports.
///
/// Comparison is for plain `exports` and `module.exports`.
pub fn is_module_exports(n: &PatOrExpr) -> (r: bool)
    ensures
        r <==> assigns_exports(*n),
{
    match n {
        PatOrExpr::Pat(pat) => match &**pat {
            Pat::Ident(id) => {
                return str_eq(id.as_str(), "exports");
            },
            Pat::Expr(expr) => match &**expr {
                Expr::Member(m) => {
                    if let (ExprOrSuper::Expr(obj), Expr::Ident(prop)) = (&m.obj, &*m.prop) {
                        if let Expr::Ident(o) = &**obj {
                            return str_eq(o.as_str(), "module") && str_eq(prop.as_str(), "exports");
                        }
                    }
                },
                _ => {},
            },
            _ => {},
        },
        _ => {},
    }
    false
}

} // verus!
