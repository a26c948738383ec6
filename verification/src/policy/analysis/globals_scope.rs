//! Compute the global symbols a module references.
//!
//! Once the scope tree is built the globals are found by a depth-first
//! traversal that unions the locals of each scope with those of its
//! ancestors; globals are then symbol references whose first word is not
//! in that union.
//!
//! Member expressions with a dot-delimited path only compare using
//! the first word in the path.
use vstd::prelude::*;

use indexmap::IndexSet;

use crate::collections::{
    ident_items, idents_get, idents_len, inserted, name_items, names_contains, names_get, names_insert,
    names_len, names_new, path_items, paths_insert, paths_new,
};
use crate::policy::analysis::{
    first_word, insert_all, joined, lemma_insert_all_contains, reference_words, words_view,
    WordOrPathView, join_words, joined_all,
};
use crate::ast::{ImportSpecifier, Module, ModuleItem};
use crate::policy::analysis::scope_builder::{
    builder_grows, builder_wf, lemma_inserted_prefix, lemma_scope_grows_trans, prefix_of, scope_grows, Scope,
    ScopeBuilder,
};
use crate::policy::analysis::scope_model::{
    builder_state, candidates_view, empty_tree, import_eff, import_names, item_eff, items_eff, scope_tree,
    scope_trees, state_of, with_locals, BuiltinView, ScopeTree, VisitState,
};

verus! {

/// Words that name values of the language rather than variables.
pub open spec fn keywords() -> Seq<Seq<char>> {
    seq!["undefined"@, "NaN"@, "Infinity"@]
}

/// Global functions of the language.
pub open spec fn global_functions() -> Seq<Seq<char>> {
    seq!["eval"@, "uneval"@, "isFinite"@, "isNaN"@, "parseFloat"@, "parseInt"@, "encodeURI"@, "encodeURIComponent"@, "decodeURI"@, "decodeURIComponent"@, "escape"@, "unescape"@]
}

/// Standard built-in objects of the language.
pub open spec fn intrinsics() -> Seq<Seq<char>> {
    seq!["Object"@, "Function"@, "Boolean"@, "Symbol"@, "Error"@, "AggregateError"@, "EvalError"@, "InternalError"@, "RangeError"@, "ReferenceError"@, "SyntaxError"@, "TypeError"@, "URIError"@, "Number"@, "BigInt"@, "Math"@, "Date"@, "String"@, "RegExp"@, "Array"@, "Int8Array"@, "Uint8Array"@, "Uint8ClampedArray"@, "Int16Array"@, "Uint16Array"@, "Int32Array"@, "Uint32Array"@, "Float32Array"@, "Float64Array"@, "BigInt64Array"@, "BigUint64Array"@, "Map"@, "Set"@, "WeakMap"@, "WeakSet"@, "ArrayBuffer"@, "SharedArrayBuffer"@, "Atomics"@, "DataView"@, "JSON"@, "Promise"@, "Generator"@, "GeneratorFunction"@, "AsyncFunction"@, "AsyncGenerator"@, "AsyncGeneratorFunction"@, "Reflect"@, "Proxy"@, "Intl"@, "WebAssembly"@, "arguments"@]
}

/// Processing options for the global analysis.
#[derive(Debug, Clone, Copy)]
pub struct GlobalOptions {
    /// Do not report the standard built-in objects.
    pub filter_intrinsics: bool,
    /// Do not report `undefined`, `NaN` and `Infinity`.
    pub filter_keywords: bool,
    /// Do not report `require`.
    pub filter_require: bool,
    /// Do not report `module` and `exports`.
    pub filter_module_exports: bool,
    /// Do not report the global functions.
    pub filter_global_functions: bool,
    /// Do not report `import`.
    pub filter_dynamic_import: bool,
}

/// The options that filter every kind of word.
pub open spec fn all_filters() -> GlobalOptions {
    GlobalOptions {
        filter_intrinsics: true,
        filter_keywords: true,
        filter_require: true,
        filter_module_exports: true,
        filter_global_functions: true,
        filter_dynamic_import: true,
    }
}

impl Default for GlobalOptions {
    fn default() -> (r: GlobalOptions)
        ensures
            r.filter_intrinsics && r.filter_keywords && r.filter_require && r.filter_module_exports
                && r.filter_global_functions && r.filter_dynamic_import,
            r == all_filters(),
    {
        GlobalOptions {
            filter_intrinsics: true,
            filter_keywords: true,
            filter_require: true,
            filter_module_exports: true,
            filter_global_functions: true,
            filter_dynamic_import: true,
        }
    }
}

/// The words that the options filter out, in the order in which they are
/// placed among the locals of the root scope.
pub open spec fn filtered_words(options: GlobalOptions) -> Seq<Seq<char>> {
    (if options.filter_intrinsics { intrinsics() } else { Seq::empty() })
    + (if options.filter_require { seq!["require"@] } else { Seq::empty() })
    + (if options.filter_dynamic_import { seq!["import"@] } else { Seq::empty() })
    + (if options.filter_module_exports { seq!["module"@, "exports"@] } else { Seq::empty() })
    + (if options.filter_keywords { keywords() } else { Seq::empty() })
    + (if options.filter_global_functions { global_functions() } else { Seq::empty() })
}

/// The paths of the references in a list that do not start with one of
/// the given locals, in order.
pub open spec fn unbound_references(refs: Seq<WordOrPathView>, env: Set<Seq<char>>) -> Seq<Seq<Seq<char>>>
    decreases refs.len(),
{
    if refs.len() == 0 {
        Seq::empty()
    } else if env.contains(first_word(refs.last())) {
        unbound_references(refs.drop_last(), env)
    } else {
        unbound_references(refs.drop_last(), env).push(reference_words(refs.last()))
    }
}

/// The global paths a scope tree references, in the order of a depth-first
/// traversal: the unbound references of a scope, then those of its child
/// scopes, where `outer` holds the locals of the enclosing scopes.
pub open spec fn scope_globals(s: Scope, outer: Set<Seq<char>>) -> Seq<Seq<Seq<char>>>
    decreases s,
{
    let env = outer.union(name_items(s.locals).to_set());
    unbound_references(ident_items(s.idents), env) + children_globals(s.scopes@, env)
}

/// The global paths of a list of sibling scopes, in order.
pub open spec fn children_globals(cs: Seq<Scope>, env: Set<Seq<char>>) -> Seq<Seq<Seq<char>>>
    decreases cs,
{
    if cs.len() == 0 {
        Seq::empty()
    } else {
        children_globals(cs.subrange(0, cs.len() - 1), env) + scope_globals(cs[cs.len() - 1], env)
    }
}

/// The union of the items of a stack of name sets.
pub open spec fn stack_names(stack: Seq<&IndexSet<String>>) -> Set<Seq<char>>
    decreases stack.len(),
{
    if stack.len() == 0 {
        Set::empty()
    } else {
        stack_names(stack.drop_last()).union(name_items(*stack.last()).to_set())
    }
}

/// Analyze the scopes for a module.
pub struct GlobalAnalysis {
    /// The root scope of the module.
    pub root: Scope,
    /// The processing options.
    pub options: GlobalOptions,
    /// The builder of the scope tree.
    pub builder: ScopeBuilder,
}

/// Inserting a sequence after another is inserting their concatenation.
pub proof fn lemma_insert_all_concat<A>(acc: Seq<A>, a: Seq<A>, b: Seq<A>)
    ensures
        insert_all(insert_all(acc, a), b) == insert_all(acc, a + b),
    decreases b.len(),
{
    if b.len() > 0 {
        lemma_insert_all_concat(acc, a, b.drop_last());
        assert((a + b).drop_last() =~= a + b.drop_last());
        assert((a + b).last() == b.last());
    }
}

/// The views of a list of string slices.
pub open spec fn str_views(s: Seq<&str>) -> Seq<Seq<char>> {
    s.map_values(|w: &str| w@)
}

/// The items of a set after inserting a sequence hold the earlier items and
/// those of the sequence.
pub proof fn lemma_insert_all_to_set<A>(acc: Seq<A>, s: Seq<A>)
    ensures
        insert_all(acc, s).to_set() == acc.to_set().union(s.to_set()),
{
    assert forall|x: A| insert_all(acc, s).to_set().contains(x) <==> acc.to_set().union(s.to_set()).contains(x) by {
        lemma_insert_all_contains(acc, s, x);
    }
    assert(insert_all(acc, s).to_set() =~= acc.to_set().union(s.to_set()));
}

/// Insert each name of a list into a set of names.
fn insert_names(set: &mut IndexSet<String>, names: &Vec<&str>)
    ensures
        name_items(*final(set)) == insert_all(name_items(*old(set)), str_views(names@)),
{
    let mut i: usize = 0;
    while i < names.len()
        invariant
            i <= names@.len(),
            name_items(*set) == insert_all(name_items(*old(set)), str_views(names@.take(i as int))),
        decreases names@.len() - i,
    {
        names_insert(set, names[i].to_owned());
        proof {
            let t = str_views(names@.take(i as int + 1));
            assert(t.drop_last() =~= str_views(names@.take(i as int)));
        }
        i = i + 1;
    }
    assert(names@.take(names@.len() as int) =~= names@);
}

/// The filtered words of the options inserted in order into a set.
fn filtered_locals(options: GlobalOptions) -> (r: IndexSet<String>)
    ensures
    name_items(r) == insert_all(Seq::empty(), filtered_words(options)),
{
    let mut locals = names_new();
    let mut all: Vec<&str> = Vec::new();
    if options.filter_intrinsics {
        let mut words: Vec<&str> = vec!["Object", "Function", "Boolean", "Symbol", "Error", "AggregateError", "EvalError", "InternalError", "RangeError", "ReferenceError", "SyntaxError", "TypeError", "URIError", "Number", "BigInt", "Math", "Date", "String", "RegExp", "Array", "Int8Array", "Uint8Array", "Uint8ClampedArray", "Int16Array", "Uint16Array", "Int32Array", "Uint32Array", "Float32Array", "Float64Array", "BigInt64Array", "BigUint64Array", "Map", "Set", "WeakMap", "WeakSet", "ArrayBuffer", "SharedArrayBuffer", "Atomics", "DataView", "JSON", "Promise", "Generator", "GeneratorFunction", "AsyncFunction", "AsyncGenerator", "AsyncGeneratorFunction", "Reflect", "Proxy", "Intl", "WebAssembly", "arguments"];
        assert(str_views(words@) =~= intrinsics());
        all.append(&mut words);
    }
    if options.filter_require {
        all.push("require");
    }
    if options.filter_dynamic_import {
        all.push("import");
    }
    if options.filter_module_exports {
        all.push("module");
        all.push("exports");
    }
    if options.filter_keywords {
        let mut words: Vec<&str> = vec!["undefined", "NaN", "Infinity"];
        assert(str_views(words@) =~= keywords());
        all.append(&mut words);
    }
    if options.filter_global_functions {
        let mut words: Vec<&str> = vec!["eval", "uneval", "isFinite", "isNaN", "parseFloat", "parseInt", "encodeURI", "encodeURIComponent", "decodeURI", "decodeURIComponent", "escape", "unescape"];
        assert(str_views(words@) =~= global_functions());
        all.append(&mut words);
    }
    assert(str_views(all@) =~= filtered_words(options));
    insert_names(&mut locals, &all);
    locals
}

impl GlobalAnalysis {
    /// Create a scope analysis whose root scope holds the filtered words
    /// as locals.
    pub fn new(options: GlobalOptions) -> (r: GlobalAnalysis)
        ensures
            r.options == options,
            r.root.scopes@.len() == 0,
            ident_items(r.root.idents).len() == 0,
            name_items(r.root.locals).to_set() == filtered_words(options).to_set(),
            builder_wf(r.builder),
            r.builder.candidates@.len() == 0,
            path_items(r.builder.builtins).len() == 0,
            !r.builder.ignores_global(),
            !r.builder.ignore_node_global,
            state_of(r.builder, r.root) == initial_state(options),
    {
        let locals = filtered_locals(options);
        proof {
            lemma_insert_all_to_set(Seq::empty(), filtered_words(options));
            assert(Seq::<Seq<char>>::empty().to_set().union(filtered_words(options).to_set()) =~= filtered_words(options).to_set());
        }
        let r = GlobalAnalysis {
            root: Scope { scopes: Vec::new(), locals, idents: crate::collections::idents_new() },
            options,
            builder: ScopeBuilder::new(false),
        };
        proof {
            assert(scope_trees(r.root.scopes@) =~= Seq::<ScopeTree>::empty());
            assert(candidates_view(r.builder.candidates@) =~= Seq::<BuiltinView>::empty());
            assert(path_items(r.builder.builtins) =~= Seq::<Seq<Seq<char>>>::empty());
            assert(name_items(r.builder.hoisted_vars) =~= Seq::<Seq<char>>::empty());
            assert(ident_items(r.root.idents) =~= Seq::<WordOrPathView>::empty());
            assert(scope_tree(r.root) == empty_tree(insert_all(Seq::empty(), filtered_words(options))));
            assert(state_of(r.builder, r.root) == initial_state(options));
        }
        r
    }
}

/// The state of a global analysis as it starts: nothing gathered, and a
/// root scope whose locals are the filtered words.
pub open spec fn initial_state(options: GlobalOptions) -> VisitState {
    VisitState {
        candidates: Seq::empty(),
        builtins: Seq::empty(),
        hoisted: Seq::empty(),
        scope: empty_tree(insert_all(Seq::empty(), filtered_words(options))),
    }
}

/// The state a global analysis with all filters reaches on a module.
pub open spec fn module_state(items: Seq<ModuleItem>) -> VisitState {
    items_eff(items, false, initial_state(all_filters()))
}

/// The global paths a scope tree references, in the order of a depth-first
/// traversal, where `outer` holds the locals of the enclosing scopes.
pub open spec fn tree_globals(t: ScopeTree, outer: Set<Seq<char>>) -> Seq<Seq<Seq<char>>>
    decreases t,
{
    let env = outer.union(t.locals.to_set());
    unbound_references(t.idents, env) + trees_globals(t.scopes, env)
}

/// The global paths of a list of sibling scope trees, in order.
pub open spec fn trees_globals(cs: Seq<ScopeTree>, env: Set<Seq<char>>) -> Seq<Seq<Seq<char>>>
    decreases cs,
{
    if cs.len() == 0 {
        Seq::empty()
    } else {
        trees_globals(cs.subrange(0, cs.len() - 1), env) + tree_globals(cs[cs.len() - 1], env)
    }
}

/// The global paths of a scope are those of its content.
pub proof fn lemma_scope_globals_tree(s: Scope, outer: Set<Seq<char>>)
    ensures
        scope_globals(s, outer) == tree_globals(scope_tree(s), outer),
    decreases s,
{
    let env = outer.union(name_items(s.locals).to_set());
    lemma_children_globals_trees(s.scopes@, env);
}

/// The global paths of a list of scopes are those of their contents.
pub proof fn lemma_children_globals_trees(cs: Seq<Scope>, env: Set<Seq<char>>)
    ensures
        children_globals(cs, env) == trees_globals(scope_trees(cs), env),
    decreases cs,
{
    if cs.len() > 0 {
        let t = scope_trees(cs);
        lemma_children_globals_trees(cs.subrange(0, cs.len() - 1), env);
        lemma_scope_globals_tree(cs[cs.len() - 1], env);
        assert(t.subrange(0, t.len() - 1) =~= scope_trees(cs.subrange(0, cs.len() - 1)));
        assert(t[t.len() - 1] == scope_tree(cs[cs.len() - 1]));
    }
}

/// The names of a stack of name sets gathered into one set.
pub(crate) fn combine_locals(stack: &Vec<&IndexSet<String>>) -> (r: IndexSet<String>)
    ensures
        name_items(r).to_set() == stack_names(stack@),
{
    let mut combined = names_new();
    let mut i: usize = 0;
    while i < stack.len()
        invariant
            i <= stack@.len(),
            name_items(combined).to_set() == stack_names(stack@.take(i as int)),
        decreases stack@.len() - i,
    {
        let set: &IndexSet<String> = stack[i];
        let ghost before = name_items(combined);
        let n = names_len(set);
        let mut j: usize = 0;
        while j < n
            invariant
                n == name_items(*set).len(),
                j <= n,
                name_items(combined) == insert_all(before, name_items(*set).take(j as int)),
            decreases n - j,
        {
            let name = names_get(set, j);
            names_insert(&mut combined, name.clone());
            proof {
                assert(name_items(*set).take(j as int + 1).drop_last() =~= name_items(*set).take(j as int));
            }
            j = j + 1;
        }
        proof {
            assert(name_items(*set).take(n as int) =~= name_items(*set));
            lemma_insert_all_to_set(before, name_items(*set));
            let t = stack@.take(i as int + 1);
            assert(t.drop_last() =~= stack@.take(i as int));
            assert(t.last() == set);
        }
        i = i + 1;
    }
    assert(stack@.take(stack@.len() as int) =~= stack@);
    combined
}

/// Insert the unbound references of a scope as word paths.
fn insert_unbound_paths(scope: &Scope, combined: &IndexSet<String>, globals: &mut IndexSet<Vec<String>>)
    ensures
        path_items(*final(globals)) == insert_all(
            path_items(*old(globals)),
            unbound_references(ident_items(scope.idents), name_items(*combined).to_set()),
        ),
{
    let ghost env = name_items(*combined).to_set();
    let ghost refs = ident_items(scope.idents);
    let n = idents_len(&scope.idents);
    let mut i: usize = 0;
    while i < n
        invariant
            n == refs.len(),
            refs == ident_items(scope.idents),
            env == name_items(*combined).to_set(),
            i <= n,
            path_items(*globals) == insert_all(path_items(*old(globals)), unbound_references(refs.take(i as int), env)),
        decreases n - i,
    {
        let ident = idents_get(&scope.idents, i);
        let first = ident.first_word();
        proof {
            let t = refs.take(i as int + 1);
            assert(t.drop_last() =~= refs.take(i as int));
            assert(t.last() == refs[i as int]);
        }
        if !names_contains(combined, &first) {
            let words = ident.to_words();
            paths_insert(globals, words);
            proof {
                let t = refs.take(i as int + 1);
                let u = unbound_references(t, env);
                assert(u.drop_last() =~= unbound_references(refs.take(i as int), env));
            }
        }
        i = i + 1;
    }
    assert(refs.take(n as int) =~= refs);
}

/// Insert the unbound references of a scope as dotted words.
fn insert_unbound_words(scope: &Scope, combined: &IndexSet<String>, globals: &mut IndexSet<String>)
    ensures
        name_items(*final(globals)) == insert_all(
            name_items(*old(globals)),
            joined_all(unbound_references(ident_items(scope.idents), name_items(*combined).to_set())),
        ),
{
    let ghost env = name_items(*combined).to_set();
    let ghost refs = ident_items(scope.idents);
    let n = idents_len(&scope.idents);
    let mut i: usize = 0;
    while i < n
        invariant
            n == refs.len(),
            refs == ident_items(scope.idents),
            env == name_items(*combined).to_set(),
            i <= n,
            name_items(*globals) == insert_all(
                name_items(*old(globals)),
                joined_all(unbound_references(refs.take(i as int), env)),
            ),
        decreases n - i,
    {
        let ident = idents_get(&scope.idents, i);
        let first = ident.first_word();
        proof {
            let t = refs.take(i as int + 1);
            assert(t.drop_last() =~= refs.take(i as int));
            assert(t.last() == refs[i as int]);
        }
        if !names_contains(combined, &first) {
            let word = ident.into_path();
            names_insert(globals, word);
            proof {
                let t = refs.take(i as int + 1);
                let u = joined_all(unbound_references(t, env));
                assert(u.drop_last() =~= joined_all(unbound_references(refs.take(i as int), env)));
            }
        } else {
            proof {
                let t = refs.take(i as int + 1);
                assert(joined_all(unbound_references(t, env)) == joined_all(unbound_references(refs.take(i as int), env)));
            }
        }
        i = i + 1;
    }
    assert(refs.take(n as int) =~= refs);
}

/// The global paths of a prefix of the children of a scope.
proof fn lemma_children_globals_step(cs: Seq<Scope>, env: Set<Seq<char>>, j: int)
    requires
        0 <= j < cs.len(),
    ensures
        children_globals(cs.take(j + 1), env) == children_globals(cs.take(j), env) + scope_globals(cs[j], env),
{
    let t = cs.take(j + 1);
    assert(t.subrange(0, t.len() - 1) =~= cs.take(j));
    assert(t[t.len() - 1] == cs[j]);
}

/// Insert the global paths of a scope tree, given the stack of the locals of
/// the enclosing scopes.
fn collect_globals<'a>(scope: &'a Scope, globals: &mut IndexSet<Vec<String>>, stack: &mut Vec<&'a IndexSet<String>>)
    ensures
        final(stack)@ == old(stack)@,
        path_items(*final(globals)) == insert_all(path_items(*old(globals)), scope_globals(*scope, stack_names(old(stack)@))),
    decreases scope,
{
    let ghost outer = stack_names(stack@);
    let ghost start = path_items(*globals);
    stack.push(&scope.locals);
    let ghost env = stack_names(stack@);
    proof {
        assert(stack@.drop_last() =~= old(stack)@);
        assert(env == outer.union(name_items(scope.locals).to_set()));
    }
    let combined = combine_locals(stack);
    insert_unbound_paths(scope, &combined, globals);
    let ghost own = unbound_references(ident_items(scope.idents), env);
    let mut j: usize = 0;
    while j < scope.scopes.len()
        invariant
            j <= scope.scopes@.len(),
            stack@ == old(stack)@.push(&scope.locals),
            env == stack_names(stack@),
            path_items(*globals) == insert_all(start, own + children_globals(scope.scopes@.take(j as int), env)),
        decreases scope.scopes@.len() - j,
    {
        let ghost before = path_items(*globals);
        collect_globals(&scope.scopes[j], globals, stack);
        proof {
            lemma_children_globals_step(scope.scopes@, env, j as int);
            lemma_insert_all_concat(start, own + children_globals(scope.scopes@.take(j as int), env), scope_globals(scope.scopes@[j as int], env));
            assert(own + children_globals(scope.scopes@.take(j as int + 1), env) =~= (own + children_globals(scope.scopes@.take(j as int), env)) + scope_globals(scope.scopes@[j as int], env));
        }
        j = j + 1;
    }
    proof {
        assert(scope.scopes@.take(scope.scopes@.len() as int) =~= scope.scopes@);
        if j == 0 {
            assert(own + children_globals(scope.scopes@.take(0), env) =~= own);
        }
    }
    stack.pop();
    proof {
        assert(stack@ =~= old(stack)@);
    }
}

/// Insert the global words of a scope tree, given the stack of the locals of
/// the enclosing scopes.
fn collect_global_words<'a>(scope: &'a Scope, globals: &mut IndexSet<String>, stack: &mut Vec<&'a IndexSet<String>>)
    ensures
        final(stack)@ == old(stack)@,
        name_items(*final(globals)) == insert_all(
            name_items(*old(globals)),
            joined_all(scope_globals(*scope, stack_names(old(stack)@))),
        ),
    decreases scope,
{
    let ghost outer = stack_names(stack@);
    let ghost start = name_items(*globals);
    stack.push(&scope.locals);
    let ghost env = stack_names(stack@);
    proof {
        assert(stack@.drop_last() =~= old(stack)@);
        assert(env == outer.union(name_items(scope.locals).to_set()));
    }
    let combined = combine_locals(stack);
    insert_unbound_words(scope, &combined, globals);
    let ghost own = unbound_references(ident_items(scope.idents), env);
    let mut j: usize = 0;
    while j < scope.scopes.len()
        invariant
            j <= scope.scopes@.len(),
            stack@ == old(stack)@.push(&scope.locals),
            env == stack_names(stack@),
            name_items(*globals) == insert_all(start, joined_all(own + children_globals(scope.scopes@.take(j as int), env))),
        decreases scope.scopes@.len() - j,
    {
        collect_global_words(&scope.scopes[j], globals, stack);
        proof {
            let prev = own + children_globals(scope.scopes@.take(j as int), env);
            let child = scope_globals(scope.scopes@[j as int], env);
            lemma_children_globals_step(scope.scopes@, env, j as int);
            lemma_insert_all_concat(start, joined_all(prev), joined_all(child));
            assert(own + children_globals(scope.scopes@.take(j as int + 1), env) =~= prev + child);
            assert(joined_all(prev + child) =~= joined_all(prev) + joined_all(child));
        }
        j = j + 1;
    }
    proof {
        assert(scope.scopes@.take(scope.scopes@.len() as int) =~= scope.scopes@);
        if j == 0 {
            assert(own + children_globals(scope.scopes@.take(0), env) =~= own);
        }
    }
    stack.pop();
    proof {
        assert(stack@ =~= old(stack)@);
    }
}

impl GlobalAnalysis {
    /// Compute the global symbols as word paths, in the order of a
    /// depth-first traversal of the scope tree.
    pub fn compute_globals(&self) -> (r: IndexSet<Vec<String>>)
        ensures
            path_items(r) == insert_all(Seq::empty(), scope_globals(self.root, Set::empty())),
    {
        let mut globals = paths_new();
        let mut stack: Vec<&IndexSet<String>> = Vec::new();
        collect_globals(&self.root, &mut globals, &mut stack);
        globals
    }

    /// Compute the global variables as dot-delimited words, in the order of
    /// a depth-first traversal of the scope tree.
    pub fn compute(&self) -> (r: IndexSet<String>)
        ensures
            name_items(r) == insert_all(Seq::empty(), joined_all(scope_globals(self.root, Set::empty()))),
    {
        let mut globals = names_new();
        let mut stack: Vec<&IndexSet<String>> = Vec::new();
        collect_global_words(&self.root, &mut globals, &mut stack);
        globals
    }
}

/// Every unbound reference path is non-empty and starts with a word outside
/// the given locals, and is the path of one of the references.
proof fn lemma_unbound_references(refs: Seq<WordOrPathView>, env: Set<Seq<char>>, p: Seq<Seq<char>>)
    requires
        unbound_references(refs, env).contains(p),
    ensures
        p.len() > 0,
        !env.contains(p[0]),
        exists|i: int| 0 <= i < refs.len() && reference_words(#[trigger] refs[i]) == p,
    decreases refs.len(),
{
    let t = refs.drop_last();
    let u = unbound_references(t, env);
    if env.contains(first_word(refs.last())) {
        lemma_unbound_references(t, env, p);
        let i = choose|i: int| 0 <= i < t.len() && reference_words(#[trigger] t[i]) == p;
        assert(refs[i] == t[i]);
    } else {
        crate::policy::analysis::lemma_push_contains(u, reference_words(refs.last()), p);
        if u.contains(p) {
            lemma_unbound_references(t, env, p);
            let i = choose|i: int| 0 <= i < t.len() && reference_words(#[trigger] t[i]) == p;
            assert(refs[i] == t[i]);
        } else {
            assert(reference_words(refs[refs.len() - 1]) == p);
        }
    }
}

/// A reported global path is non-empty and its first word is not a local
/// of any enclosing scope: neither of the scope it is made in, nor of the
/// scopes around it, nor of the outer locals.
pub proof fn lemma_globals_not_local(s: Scope, outer: Set<Seq<char>>, p: Seq<Seq<char>>)
    requires
        scope_globals(s, outer).contains(p),
    ensures
        p.len() > 0,
        !outer.contains(p[0]),
        !name_items(s.locals).contains(p[0]),
    decreases s,
{
    let env = outer.union(name_items(s.locals).to_set());
    let own = unbound_references(ident_items(s.idents), env);
    let kids = children_globals(s.scopes@, env);
    if own.contains(p) {
        lemma_unbound_references(ident_items(s.idents), env, p);
    } else {
        let i = choose|i: int| 0 <= i < (own + kids).len() && (own + kids)[i] == p;
        assert(kids[i - own.len()] == p);
        assert(kids.contains(p));
        lemma_children_globals_not_local(s.scopes@, env, p);
    }
}

/// A reported global path of sibling scopes is non-empty and its first word
/// is not one of the given locals.
pub proof fn lemma_children_globals_not_local(cs: Seq<Scope>, env: Set<Seq<char>>, p: Seq<Seq<char>>)
    requires
        children_globals(cs, env).contains(p),
    ensures
        p.len() > 0,
        !env.contains(p[0]),
    decreases cs,
{
    if cs.len() > 0 {
        let init = children_globals(cs.subrange(0, cs.len() - 1), env);
        let last = scope_globals(cs[cs.len() - 1], env);
        let i = choose|i: int| 0 <= i < (init + last).len() && (init + last)[i] == p;
        if i < init.len() {
            assert(init[i] == p);
            assert(init.contains(p));
            lemma_children_globals_not_local(cs.subrange(0, cs.len() - 1), env, p);
        } else {
            assert(last[i - init.len()] == p);
            assert(last.contains(p));
            lemma_globals_not_local(cs[cs.len() - 1], env, p);
        }
    }
}

/// Filtering references by more locals keeps a subset of them.
proof fn lemma_unbound_references_antitone(refs: Seq<WordOrPathView>, a: Set<Seq<char>>, b: Set<Seq<char>>, p: Seq<Seq<char>>)
    requires
        a.subset_of(b),
        unbound_references(refs, b).contains(p),
    ensures
        unbound_references(refs, a).contains(p),
    decreases refs.len(),
{
    let t = refs.drop_last();
    let x = reference_words(refs.last());
    crate::policy::analysis::lemma_push_contains(unbound_references(t, b), x, p);
    crate::policy::analysis::lemma_push_contains(unbound_references(t, a), x, p);
    if unbound_references(t, b).contains(p) {
        lemma_unbound_references_antitone(t, a, b, p);
    }
}

/// More locals around a scope tree can only remove global paths: every
/// global reported with the larger set of outer locals is reported with the
/// smaller one.
pub proof fn lemma_globals_antitone(s: Scope, a: Set<Seq<char>>, b: Set<Seq<char>>, p: Seq<Seq<char>>)
    requires
        a.subset_of(b),
        scope_globals(s, b).contains(p),
    ensures
        scope_globals(s, a).contains(p),
    decreases s,
{
    let la = name_items(s.locals).to_set();
    let ea = a.union(la);
    let eb = b.union(la);
    assert(ea.subset_of(eb));
    let own_b = unbound_references(ident_items(s.idents), eb);
    let kids_b = children_globals(s.scopes@, eb);
    let own_a = unbound_references(ident_items(s.idents), ea);
    let kids_a = children_globals(s.scopes@, ea);
    let i = choose|i: int| 0 <= i < (own_b + kids_b).len() && (own_b + kids_b)[i] == p;
    if i < own_b.len() {
        assert(own_b[i] == p);
        assert(own_b.contains(p));
        lemma_unbound_references_antitone(ident_items(s.idents), ea, eb, p);
        let k = choose|k: int| 0 <= k < own_a.len() && own_a[k] == p;
        assert((own_a + kids_a)[k] == p);
    } else {
        assert(kids_b[i - own_b.len()] == p);
        assert(kids_b.contains(p));
        lemma_children_globals_antitone(s.scopes@, ea, eb, p);
        let k = choose|k: int| 0 <= k < kids_a.len() && kids_a[k] == p;
        assert((own_a + kids_a)[own_a.len() + k] == p);
    }
}

/// More locals around sibling scopes can only remove global paths.
pub proof fn lemma_children_globals_antitone(cs: Seq<Scope>, a: Set<Seq<char>>, b: Set<Seq<char>>, p: Seq<Seq<char>>)
    requires
        a.subset_of(b),
        children_globals(cs, b).contains(p),
    ensures
        children_globals(cs, a).contains(p),
    decreases cs,
{
    if cs.len() > 0 {
        let init_cs = cs.subrange(0, cs.len() - 1);
        let ib = children_globals(init_cs, b);
        let lb = scope_globals(cs[cs.len() - 1], b);
        let ia = children_globals(init_cs, a);
        let la = scope_globals(cs[cs.len() - 1], a);
        let i = choose|i: int| 0 <= i < (ib + lb).len() && (ib + lb)[i] == p;
        if i < ib.len() {
            assert(ib[i] == p);
            assert(ib.contains(p));
            lemma_children_globals_antitone(init_cs, a, b, p);
            let k = choose|k: int| 0 <= k < ia.len() && ia[k] == p;
            assert((ia + la)[k] == p);
        } else {
            assert(lb[i - ib.len()] == p);
            assert(lb.contains(p));
            lemma_globals_antitone(cs[cs.len() - 1], a, b, p);
            let k = choose|k: int| 0 <= k < la.len() && la[k] == p;
            assert((ia + la)[ia.len() + k] == p);
        }
    }
}

/// While the root scope holds the filtered words among its locals (as
/// `new` leaves it and visits keep it), no reported global starts with a
/// filtered word, such as a standard built-in object, `require`, `import`,
/// `module`, `exports`, `undefined`, `NaN`, `Infinity` or a global function.
pub proof fn lemma_default_filters(analysis: GlobalAnalysis, p: Seq<Seq<char>>)
    requires
        filtered_words(analysis.options).to_set().subset_of(name_items(analysis.root.locals).to_set()),
        scope_globals(analysis.root, Set::empty()).contains(p),
    ensures
        !filtered_words(analysis.options).contains(p[0]),
{
    lemma_globals_not_local(analysis.root, Set::empty(), p);
    if filtered_words(analysis.options).contains(p[0]) {
        assert(filtered_words(analysis.options).to_set().contains(p[0]));
        assert(name_items(analysis.root.locals).to_set().contains(p[0]));
    }
}

impl GlobalAnalysis {
    /// Visit a module item: the bindings of an import become locals of the
    /// root scope (an import of a built in package also becomes a builtin
    /// candidate), a statement is visited in the root scope.
    pub fn visit_module_item(&mut self, n: &ModuleItem)
        requires
            builder_wf(old(self).builder),
        ensures
            builder_wf(final(self).builder),
            builder_grows(old(self).builder, final(self).builder),
            scope_grows(old(self).root, final(self).root),
            final(self).options == old(self).options,
            state_of(final(self).builder, final(self).root) == item_eff(
                *n,
                old(self).builder.ignore_node_global,
                state_of(old(self).builder, old(self).root),
            ),
    {
        let ghost st0 = state_of(self.builder, self.root);
        match n {
            ModuleItem::Import(import) => {
                let ghost names = import_names(import.specifiers@);
                let mut i: usize = 0;
                while i < import.specifiers.len()
                    invariant
                        i <= import.specifiers@.len(),
                        scope_grows(old(self).root, self.root),
                        self.builder == old(self).builder,
                        self.options == old(self).options,
                        names == import_names(import.specifiers@),
                        state_of(self.builder, self.root) == with_locals(st0, names.take(i as int)),
                    decreases import.specifiers@.len() - i,
                {
                    let id = match &import.specifiers[i] {
                        ImportSpecifier::Named(l, _) => l,
                        ImportSpecifier::Default(l) => l,
                        ImportSpecifier::Namespace(l) => l,
                    };
                    let ghost s1 = self.root;
                    proof {
                        lemma_inserted_prefix(name_items(self.root.locals), id@);
                    }
                    names_insert(&mut self.root.locals, id.clone());
                    proof {
                        lemma_scope_grows_trans(old(self).root, s1, self.root);
                        let t = names.take(i as int + 1);
                        assert(t.drop_last() =~= names.take(i as int));
                        assert(t.last() == id@);
                    }
                    i = i + 1;
                }
                assert(names.take(names.len() as int) =~= names);
                let ghost t1 = scope_tree(self.root);
                self.builder.add_static_import(import);
                assert(builder_state(self.builder, t1) == import_eff(builder_state(old(self).builder, t1), *import));
            },
            ModuleItem::Export(_) => {},
            ModuleItem::Stmt(stmt) => {
                self.builder.visit_stmt(stmt, &mut self.root, None);
            },
        }
    }

    /// Visit every item of a module in order.
    pub fn visit_module(&mut self, module: &Module)
        requires
            builder_wf(old(self).builder),
        ensures
            builder_wf(final(self).builder),
            builder_grows(old(self).builder, final(self).builder),
            scope_grows(old(self).root, final(self).root),
            final(self).options == old(self).options,
            state_of(final(self).builder, final(self).root) == items_eff(
                module.body@,
                old(self).builder.ignore_node_global,
                state_of(old(self).builder, old(self).root),
            ),
    {
        let ghost ig = self.builder.ignore_node_global;
        let ghost st0 = state_of(self.builder, self.root);
        let mut i: usize = 0;
        while i < module.body.len()
            invariant
                i <= module.body@.len(),
                builder_wf(self.builder),
                builder_grows(old(self).builder, self.builder),
                scope_grows(old(self).root, self.root),
                self.options == old(self).options,
                self.builder.ignore_node_global == ig,
                state_of(self.builder, self.root) == items_eff(module.body@.take(i as int), ig, st0),
            decreases module.body@.len() - i,
        {
            proof {
                let t = module.body@.take(i as int + 1);
                assert(t.drop_last() =~= module.body@.take(i as int));
                assert(t.last() == module.body@[i as int]);
            }
            let ghost (b1, s1) = (self.builder, self.root);
            self.visit_module_item(&module.body[i]);
            proof {
                crate::policy::analysis::scope_builder::lemma_builder_grows_trans(old(self).builder, b1, self.builder);
                lemma_scope_grows_trans(old(self).root, s1, self.root);
            }
            i = i + 1;
        }
        assert(module.body@.take(module.body@.len() as int) =~= module.body@);
    }

    /// The builtin package paths the module uses, in the order they were
    /// found; each is non-empty and starts with a built in package.
    pub fn compute_builtins(&self) -> (r: IndexSet<Vec<String>>)
        requires
            builder_wf(self.builder),
        ensures
            path_items(r) == path_items(self.builder.builtins),
            forall|j: int|
                0 <= j < path_items(r).len() ==> (#[trigger] path_items(r)[j]).len() > 0
                    && crate::analysis::dependencies::latest_core_package(path_items(r)[j][0]),
    {
        let mut out = paths_new();
        let n = crate::collections::paths_len(&self.builder.builtins);
        let ghost items = path_items(self.builder.builtins);
        let mut i: usize = 0;
        while i < n
            invariant
                n == items.len(),
                items == path_items(self.builder.builtins),
                items.no_duplicates(),
                i <= n,
                path_items(out) == items.take(i as int),
            decreases n - i,
        {
            let words = crate::collections::paths_get(&self.builder.builtins, i);
            let copy = crate::policy::analysis::copy_words(words);
            proof {
                if items.take(i as int).contains(items[i as int]) {
                    let k = choose|k: int| 0 <= k < i && items.take(i as int)[k] == items[i as int];
                    assert(items[k] == items[i as int]);
                }
            }
            paths_insert(&mut out, copy);
            proof {
                assert(path_items(out) =~= items.take(i as int + 1));
            }
            i = i + 1;
        }
        assert(items.take(n as int) =~= items);
        out
    }
}


/// The standard built-in objects of ECMAScript, and `arguments`.
pub open spec fn ecmascript_builtin_object(w: Seq<char>) -> bool {
    w == "Object"@ ||
    w == "Function"@ ||
    w == "Boolean"@ ||
    w == "Symbol"@ ||
    w == "Error"@ ||
    w == "AggregateError"@ ||
    w == "EvalError"@ ||
    w == "InternalError"@ ||
    w == "RangeError"@ ||
    w == "ReferenceError"@ ||
    w == "SyntaxError"@ ||
    w == "TypeError"@ ||
    w == "URIError"@ ||
    w == "Number"@ ||
    w == "BigInt"@ ||
    w == "Math"@ ||
    w == "Date"@ ||
    w == "String"@ ||
    w == "RegExp"@ ||
    w == "Array"@ ||
    w == "Int8Array"@ ||
    w == "Uint8Array"@ ||
    w == "Uint8ClampedArray"@ ||
    w == "Int16Array"@ ||
    w == "Uint16Array"@ ||
    w == "Int32Array"@ ||
    w == "Uint32Array"@ ||
    w == "Float32Array"@ ||
    w == "Float64Array"@ ||
    w == "BigInt64Array"@ ||
    w == "BigUint64Array"@ ||
    w == "Map"@ ||
    w == "Set"@ ||
    w == "WeakMap"@ ||
    w == "WeakSet"@ ||
    w == "ArrayBuffer"@ ||
    w == "SharedArrayBuffer"@ ||
    w == "Atomics"@ ||
    w == "DataView"@ ||
    w == "JSON"@ ||
    w == "Promise"@ ||
    w == "Generator"@ ||
    w == "GeneratorFunction"@ ||
    w == "AsyncFunction"@ ||
    w == "AsyncGenerator"@ ||
    w == "AsyncGeneratorFunction"@ ||
    w == "Reflect"@ ||
    w == "Proxy"@ ||
    w == "Intl"@ ||
    w == "WebAssembly"@ ||
    w == "arguments"@
}

/// The ECMAScript global values that are written like variables.
pub open spec fn ecmascript_value_keyword(w: Seq<char>) -> bool {
    w == "undefined"@ ||
    w == "NaN"@ ||
    w == "Infinity"@
}

/// The ECMAScript global functions.
pub open spec fn ecmascript_global_function(w: Seq<char>) -> bool {
    w == "eval"@ ||
    w == "uneval"@ ||
    w == "isFinite"@ ||
    w == "isNaN"@ ||
    w == "parseFloat"@ ||
    w == "parseInt"@ ||
    w == "encodeURI"@ ||
    w == "encodeURIComponent"@ ||
    w == "decodeURI"@ ||
    w == "decodeURIComponent"@ ||
    w == "escape"@ ||
    w == "unescape"@
}

/// An item of a sequence is an item of the sequence with another appended
/// or prepended.
proof fn lemma_concat_contains(a: Seq<Seq<char>>, b: Seq<Seq<char>>, x: Seq<char>)
    ensures
        a.contains(x) ==> (a + b).contains(x),
        b.contains(x) ==> (a + b).contains(x),
{
    if a.contains(x) {
        let i = choose|i: int| 0 <= i < a.len() && a[i] == x;
        assert((a + b)[i] == x);
    }
    if b.contains(x) {
        let i = choose|i: int| 0 <= i < b.len() && b[i] == x;
        assert((a + b)[a.len() + i] == x);
    }
}

/// Every word an option filters is among the filtered words: with
/// `filter_intrinsics` every standard built-in object of ECMAScript, with
/// `filter_keywords` `undefined`, `NaN` and `Infinity`, with
/// `filter_global_functions` every ECMAScript global function, and
/// `require`, `import`, `module` and `exports` with their options.
pub proof fn lemma_filtered_words_cover(options: GlobalOptions, w: Seq<char>)
    ensures
        options.filter_intrinsics && ecmascript_builtin_object(w) ==> filtered_words(options).contains(w),
        options.filter_keywords && ecmascript_value_keyword(w) ==> filtered_words(options).contains(w),
        options.filter_global_functions && ecmascript_global_function(w) ==> filtered_words(options).contains(w),
        options.filter_require && w == "require"@ ==> filtered_words(options).contains(w),
        options.filter_dynamic_import && w == "import"@ ==> filtered_words(options).contains(w),
        options.filter_module_exports && (w == "module"@ || w == "exports"@) ==> filtered_words(options).contains(w),
{
    let a = if options.filter_intrinsics { intrinsics() } else { Seq::empty() };
    let b = if options.filter_require { seq!["require"@] } else { Seq::empty() };
    let c = if options.filter_dynamic_import { seq!["import"@] } else { Seq::empty() };
    let d = if options.filter_module_exports { seq!["module"@, "exports"@] } else { Seq::empty() };
    let e = if options.filter_keywords { keywords() } else { Seq::empty() };
    let f = if options.filter_global_functions { global_functions() } else { Seq::empty() };
    assert(filtered_words(options) == a + b + c + d + e + f);
    if options.filter_intrinsics && ecmascript_builtin_object(w) {
        if w == "Object"@ {
            assert(intrinsics()[0] == w);
        }
        if w == "Function"@ {
            assert(intrinsics()[1] == w);
        }
        if w == "Boolean"@ {
            assert(intrinsics()[2] == w);
        }
        if w == "Symbol"@ {
            assert(intrinsics()[3] == w);
        }
        if w == "Error"@ {
            assert(intrinsics()[4] == w);
        }
        if w == "AggregateError"@ {
            assert(intrinsics()[5] == w);
        }
        if w == "EvalError"@ {
            assert(intrinsics()[6] == w);
        }
        if w == "InternalError"@ {
            assert(intrinsics()[7] == w);
        }
        if w == "RangeError"@ {
            assert(intrinsics()[8] == w);
        }
        if w == "ReferenceError"@ {
            assert(intrinsics()[9] == w);
        }
        if w == "SyntaxError"@ {
            assert(intrinsics()[10] == w);
        }
        if w == "TypeError"@ {
            assert(intrinsics()[11] == w);
        }
        if w == "URIError"@ {
            assert(intrinsics()[12] == w);
        }
        if w == "Number"@ {
            assert(intrinsics()[13] == w);
        }
        if w == "BigInt"@ {
            assert(intrinsics()[14] == w);
        }
        if w == "Math"@ {
            assert(intrinsics()[15] == w);
        }
        if w == "Date"@ {
            assert(intrinsics()[16] == w);
        }
        if w == "String"@ {
            assert(intrinsics()[17] == w);
        }
        if w == "RegExp"@ {
            assert(intrinsics()[18] == w);
        }
        if w == "Array"@ {
            assert(intrinsics()[19] == w);
        }
        if w == "Int8Array"@ {
            assert(intrinsics()[20] == w);
        }
        if w == "Uint8Array"@ {
            assert(intrinsics()[21] == w);
        }
        if w == "Uint8ClampedArray"@ {
            assert(intrinsics()[22] == w);
        }
        if w == "Int16Array"@ {
            assert(intrinsics()[23] == w);
        }
        if w == "Uint16Array"@ {
            assert(intrinsics()[24] == w);
        }
        if w == "Int32Array"@ {
            assert(intrinsics()[25] == w);
        }
        if w == "Uint32Array"@ {
            assert(intrinsics()[26] == w);
        }
        if w == "Float32Array"@ {
            assert(intrinsics()[27] == w);
        }
        if w == "Float64Array"@ {
            assert(intrinsics()[28] == w);
        }
        if w == "BigInt64Array"@ {
            assert(intrinsics()[29] == w);
        }
        if w == "BigUint64Array"@ {
            assert(intrinsics()[30] == w);
        }
        if w == "Map"@ {
            assert(intrinsics()[31] == w);
        }
        if w == "Set"@ {
            assert(intrinsics()[32] == w);
        }
        if w == "WeakMap"@ {
            assert(intrinsics()[33] == w);
        }
        if w == "WeakSet"@ {
            assert(intrinsics()[34] == w);
        }
        if w == "ArrayBuffer"@ {
            assert(intrinsics()[35] == w);
        }
        if w == "SharedArrayBuffer"@ {
            assert(intrinsics()[36] == w);
        }
        if w == "Atomics"@ {
            assert(intrinsics()[37] == w);
        }
        if w == "DataView"@ {
            assert(intrinsics()[38] == w);
        }
        if w == "JSON"@ {
            assert(intrinsics()[39] == w);
        }
        if w == "Promise"@ {
            assert(intrinsics()[40] == w);
        }
        if w == "Generator"@ {
            assert(intrinsics()[41] == w);
        }
        if w == "GeneratorFunction"@ {
            assert(intrinsics()[42] == w);
        }
        if w == "AsyncFunction"@ {
            assert(intrinsics()[43] == w);
        }
        if w == "AsyncGenerator"@ {
            assert(intrinsics()[44] == w);
        }
        if w == "AsyncGeneratorFunction"@ {
            assert(intrinsics()[45] == w);
        }
        if w == "Reflect"@ {
            assert(intrinsics()[46] == w);
        }
        if w == "Proxy"@ {
            assert(intrinsics()[47] == w);
        }
        if w == "Intl"@ {
            assert(intrinsics()[48] == w);
        }
        if w == "WebAssembly"@ {
            assert(intrinsics()[49] == w);
        }
        if w == "arguments"@ {
            assert(intrinsics()[50] == w);
        }
        assert(a.contains(w));
    }
    if options.filter_keywords && ecmascript_value_keyword(w) {
        if w == "undefined"@ {
            assert(keywords()[0] == w);
        }
        if w == "NaN"@ {
            assert(keywords()[1] == w);
        }
        if w == "Infinity"@ {
            assert(keywords()[2] == w);
        }
        assert(e.contains(w));
    }
    if options.filter_global_functions && ecmascript_global_function(w) {
        if w == "eval"@ {
            assert(global_functions()[0] == w);
        }
        if w == "uneval"@ {
            assert(global_functions()[1] == w);
        }
        if w == "isFinite"@ {
            assert(global_functions()[2] == w);
        }
        if w == "isNaN"@ {
            assert(global_functions()[3] == w);
        }
        if w == "parseFloat"@ {
            assert(global_functions()[4] == w);
        }
        if w == "parseInt"@ {
            assert(global_functions()[5] == w);
        }
        if w == "encodeURI"@ {
            assert(global_functions()[6] == w);
        }
        if w == "encodeURIComponent"@ {
            assert(global_functions()[7] == w);
        }
        if w == "decodeURI"@ {
            assert(global_functions()[8] == w);
        }
        if w == "decodeURIComponent"@ {
            assert(global_functions()[9] == w);
        }
        if w == "escape"@ {
            assert(global_functions()[10] == w);
        }
        if w == "unescape"@ {
            assert(global_functions()[11] == w);
        }
        assert(f.contains(w));
    }
    if options.filter_require && w == "require"@ {
        assert(b[0] == w);
    }
    if options.filter_dynamic_import && w == "import"@ {
        assert(c[0] == w);
    }
    if options.filter_module_exports && (w == "module"@ || w == "exports"@) {
        assert(d[0] == "module"@ && d[1] == "exports"@);
    }
    lemma_concat_contains(a, b, w);
    lemma_concat_contains(a + b, c, w);
    lemma_concat_contains(a + b + c, d, w);
    lemma_concat_contains(a + b + c + d, e, w);
    lemma_concat_contains(a + b + c + d + e, f, w);
}

/// With `filter_intrinsics`, no standard built-in object of ECMAScript is
/// ever reported as a global: the root scope of an analysis holds every
/// filtered word as a local (as a new analysis does, and visiting only adds
/// locals), and no global starts with a local of an enclosing scope.
pub proof fn lemma_builtin_objects_never_global(options: GlobalOptions, root: Scope, p: Seq<Seq<char>>)
    requires
        options.filter_intrinsics,
        forall|w: Seq<char>| filtered_words(options).contains(w) ==> #[trigger] name_items(root.locals).contains(w),
        scope_globals(root, Set::empty()).contains(p),
    ensures
        p.len() > 0,
        !ecmascript_builtin_object(p[0]),
{
    lemma_globals_not_local(root, Set::empty(), p);
    lemma_filtered_words_cover(options, p[0]);
}

} // verus!
