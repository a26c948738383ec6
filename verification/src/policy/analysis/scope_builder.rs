//! Analyze the lexical scopes for a module and generate a tree
//! containing the local symbols and a list of identities which are
//! symbol references, detecting on the way the uses of builtin packages.
use vstd::prelude::*;

use indexmap::IndexSet;

use crate::analysis::dependencies::{is_core_package, latest_core_package};
use crate::ast::{
    ArrowExpr, BlockStmtOrExpr, CallExpr, Class, ClassMember, Decl, Expr, ExprOrSuper, Function, ImportDecl,
    ImportSpecifier, MemberExpr, NewExpr, Pat, PatOrExpr, PropOrSpread, Stmt, VarDecl, VarDeclKind,
    VarDeclOrExpr, VarDeclOrPat, VarDeclarator,
};
use crate::collections::{
    ident_items, idents_insert, idents_new, inserted, name_items, names_insert, names_new, path_items,
    paths_insert, paths_new,
};
use crate::helpers::{binds_names, pattern_names, pattern_words};
use crate::policy::analysis::dynamic_import::{call_module, call_view, is_require_expr, DynamicCall};
use crate::policy::analysis::member_expr::{member_expr_words, member_leaves, targets, walk};
use crate::policy::analysis::module_exports::{assigns_module_exports, is_module_exports};
use crate::policy::analysis::scope_model::{
    args_eff, arrow_eff, assign_builtin_key, import_eff, assign_require_effect, builder_state, builtin_assign_effect,
    builtin_ident_effect, builtin_member_effect, candidates_view, cases_eff, child_eff, children_eff, class_eff,
    declarator_effect, decls_eff, empty_tree, enter, expr_eff, exprs_eff, first_local, flat_words, function_eff,
    ident_builtin_key, last_match, leave, lemma_candidates_push, lemma_scope_trees_push, member_builtin_key,
    member_refs, members_eff, nested_idents, nested_members, nested_members_pass, nested_pass, opt_exprs_eff,
    opt_names, own_name, param_eff, params_eff, props_eff, refs_view, scope_tree, scope_trees, side_effect_key,
    state_of, stmt_eff, stmts_eff, target_name, with_builtin, with_declared, with_local, with_locals,
    with_name_refs, with_path_refs, with_ref, words_pass, BuiltinView, ScopeTree,
};
use crate::policy::analysis::{copy_words, insert_all, words_view, WordOrPath, WordOrPathView};
use crate::text::{concat, str_eq};

verus! {

/// Whether a word is one of the methods of functions that a member path
/// ending in it calls: `call`, `apply`, `bind`, `toSource`, `toString`.
pub open spec fn function_method(s: Seq<char>) -> bool {
    s == "call"@ || s == "apply"@ || s == "bind"@ || s == "toSource"@ || s == "toString"@
}

/// No built in package is named like a method of functions.
pub proof fn lemma_core_not_function_method(s: Seq<char>)
    requires
        latest_core_package(s),
    ensures
        !function_method(s),
{
    reveal_strlit("_http_agent");
    assert("_http_agent"@.len() == 11 && "_http_agent"@[0] == '_');
    reveal_strlit("_http_client");
    assert("_http_client"@.len() == 12 && "_http_client"@[0] == '_');
    reveal_strlit("_http_common");
    assert("_http_common"@.len() == 12 && "_http_common"@[0] == '_');
    reveal_strlit("_http_incoming");
    assert("_http_incoming"@.len() == 14 && "_http_incoming"@[0] == '_');
    reveal_strlit("_http_outgoing");
    assert("_http_outgoing"@.len() == 14 && "_http_outgoing"@[0] == '_');
    reveal_strlit("_http_server");
    assert("_http_server"@.len() == 12 && "_http_server"@[0] == '_');
    reveal_strlit("_stream_duplex");
    assert("_stream_duplex"@.len() == 14 && "_stream_duplex"@[0] == '_');
    reveal_strlit("_stream_passthrough");
    assert("_stream_passthrough"@.len() == 19 && "_stream_passthrough"@[0] == '_');
    reveal_strlit("_stream_readable");
    assert("_stream_readable"@.len() == 16 && "_stream_readable"@[0] == '_');
    reveal_strlit("_stream_transform");
    assert("_stream_transform"@.len() == 17 && "_stream_transform"@[0] == '_');
    reveal_strlit("_stream_wrap");
    assert("_stream_wrap"@.len() == 12 && "_stream_wrap"@[0] == '_');
    reveal_strlit("_stream_writable");
    assert("_stream_writable"@.len() == 16 && "_stream_writable"@[0] == '_');
    reveal_strlit("_tls_common");
    assert("_tls_common"@.len() == 11 && "_tls_common"@[0] == '_');
    reveal_strlit("_tls_wrap");
    assert("_tls_wrap"@.len() == 9 && "_tls_wrap"@[0] == '_');
    reveal_strlit("assert");
    assert("assert"@.len() == 6 && "assert"@[0] == 'a');
    reveal_strlit("assert/strict");
    assert("assert/strict"@.len() == 13 && "assert/strict"@[0] == 'a');
    reveal_strlit("async_hooks");
    assert("async_hooks"@.len() == 11 && "async_hooks"@[0] == 'a');
    reveal_strlit("buffer");
    assert("buffer"@.len() == 6 && "buffer"@[0] == 'b');
    reveal_strlit("child_process");
    assert("child_process"@.len() == 13 && "child_process"@[0] == 'c');
    reveal_strlit("cluster");
    assert("cluster"@.len() == 7 && "cluster"@[0] == 'c');
    reveal_strlit("console");
    assert("console"@.len() == 7 && "console"@[0] == 'c');
    reveal_strlit("constants");
    assert("constants"@.len() == 9 && "constants"@[0] == 'c');
    reveal_strlit("crypto");
    assert("crypto"@.len() == 6 && "crypto"@[0] == 'c');
    reveal_strlit("dgram");
    assert("dgram"@.len() == 5 && "dgram"@[0] == 'd');
    reveal_strlit("diagnostics_channel");
    assert("diagnostics_channel"@.len() == 19 && "diagnostics_channel"@[0] == 'd');
    reveal_strlit("dns");
    assert("dns"@.len() == 3 && "dns"@[0] == 'd');
    reveal_strlit("dns/promises");
    assert("dns/promises"@.len() == 12 && "dns/promises"@[0] == 'd');
    reveal_strlit("domain");
    assert("domain"@.len() == 6 && "domain"@[0] == 'd');
    reveal_strlit("events");
    assert("events"@.len() == 6 && "events"@[0] == 'e');
    reveal_strlit("fs");
    assert("fs"@.len() == 2 && "fs"@[0] == 'f');
    reveal_strlit("fs/promises");
    assert("fs/promises"@.len() == 11 && "fs/promises"@[0] == 'f');
    reveal_strlit("http");
    assert("http"@.len() == 4 && "http"@[0] == 'h');
    reveal_strlit("http2");
    assert("http2"@.len() == 5 && "http2"@[0] == 'h');
    reveal_strlit("https");
    assert("https"@.len() == 5 && "https"@[0] == 'h');
    reveal_strlit("inspector");
    assert("inspector"@.len() == 9 && "inspector"@[0] == 'i');
    reveal_strlit("module");
    assert("module"@.len() == 6 && "module"@[0] == 'm');
    reveal_strlit("net");
    assert("net"@.len() == 3 && "net"@[0] == 'n');
    reveal_strlit("os");
    assert("os"@.len() == 2 && "os"@[0] == 'o');
    reveal_strlit("path");
    assert("path"@.len() == 4 && "path"@[0] == 'p');
    reveal_strlit("path/posix");
    assert("path/posix"@.len() == 10 && "path/posix"@[0] == 'p');
    reveal_strlit("path/win32");
    assert("path/win32"@.len() == 10 && "path/win32"@[0] == 'p');
    reveal_strlit("perf_hooks");
    assert("perf_hooks"@.len() == 10 && "perf_hooks"@[0] == 'p');
    reveal_strlit("process");
    assert("process"@.len() == 7 && "process"@[0] == 'p');
    reveal_strlit("punycode");
    assert("punycode"@.len() == 8 && "punycode"@[0] == 'p');
    reveal_strlit("querystring");
    assert("querystring"@.len() == 11 && "querystring"@[0] == 'q');
    reveal_strlit("readline");
    assert("readline"@.len() == 8 && "readline"@[0] == 'r');
    reveal_strlit("repl");
    assert("repl"@.len() == 4 && "repl"@[0] == 'r');
    reveal_strlit("stream");
    assert("stream"@.len() == 6 && "stream"@[0] == 's');
    reveal_strlit("stream/promises");
    assert("stream/promises"@.len() == 15 && "stream/promises"@[0] == 's');
    reveal_strlit("string_decoder");
    assert("string_decoder"@.len() == 14 && "string_decoder"@[0] == 's');
    reveal_strlit("sys");
    assert("sys"@.len() == 3 && "sys"@[0] == 's');
    reveal_strlit("timers");
    assert("timers"@.len() == 6 && "timers"@[0] == 't');
    reveal_strlit("timers/promises");
    assert("timers/promises"@.len() == 15 && "timers/promises"@[0] == 't');
    reveal_strlit("tls");
    assert("tls"@.len() == 3 && "tls"@[0] == 't');
    reveal_strlit("trace_events");
    assert("trace_events"@.len() == 12 && "trace_events"@[0] == 't');
    reveal_strlit("tty");
    assert("tty"@.len() == 3 && "tty"@[0] == 't');
    reveal_strlit("url");
    assert("url"@.len() == 3 && "url"@[0] == 'u');
    reveal_strlit("util");
    assert("util"@.len() == 4 && "util"@[0] == 'u');
    reveal_strlit("util/types");
    assert("util/types"@.len() == 10 && "util/types"@[0] == 'u');
    reveal_strlit("v8");
    assert("v8"@.len() == 2 && "v8"@[0] == 'v');
    reveal_strlit("vm");
    assert("vm"@.len() == 2 && "vm"@[0] == 'v');
    reveal_strlit("worker_threads");
    assert("worker_threads"@.len() == 14 && "worker_threads"@[0] == 'w');
    reveal_strlit("zlib");
    assert("zlib"@.len() == 4 && "zlib"@[0] == 'z');
    reveal_strlit("call");
    assert("call"@.len() == 4 && "call"@[0] == 'c');
    reveal_strlit("apply");
    assert("apply"@.len() == 5 && "apply"@[0] == 'a');
    reveal_strlit("bind");
    assert("bind"@.len() == 4 && "bind"@[0] == 'b');
    reveal_strlit("toSource");
    assert("toSource"@.len() == 8 && "toSource"@[0] == 't');
    reveal_strlit("toString");
    assert("toString"@.len() == 8 && "toString"@[0] == 't');
}

/// Lexical scope.
#[derive(Debug)]
pub struct Scope {
    /// Scopes contained by this scope.
    pub scopes: Vec<Scope>,
    /// Identifiers local to this scope.
    pub locals: IndexSet<String>,
    /// Identifiers that are references.
    ///
    /// These could be local or global symbols and we need
    /// to combine all parent scopes to detect if a symbol should
    /// be considered global.
    pub idents: IndexSet<WordOrPath>,
}

impl Scope {
    /// Create a scope with the given locals.
    pub fn new(locals: Option<IndexSet<String>>) -> (r: Scope)
        ensures
            r.scopes@.len() == 0,
            ident_items(r.idents).len() == 0,
            locals matches Some(l) ==> name_items(r.locals) == name_items(l),
            locals is None ==> name_items(r.locals).len() == 0,
            scope_tree(r) == empty_tree(opt_names(locals)),
    {
        let ghost names = opt_names(locals);
        let locals = match locals {
            Some(l) => l,
            None => names_new(),
        };
        let r = Scope { scopes: Vec::new(), locals, idents: idents_new() };
        proof {
            assert(scope_trees(r.scopes@) =~= Seq::<ScopeTree>::empty());
            assert(scope_tree(r) =~= empty_tree(names));
        }
        r
    }
}

/// Append a child scope to a scope.
fn push_child(scope: &mut Scope, child: Scope)
    ensures
        scope_tree(*final(scope)) == (ScopeTree {
            scopes: scope_tree(*old(scope)).scopes.push(scope_tree(child)),
            locals: scope_tree(*old(scope)).locals,
            idents: scope_tree(*old(scope)).idents,
        }),
        scope_grows(*old(scope), *final(scope)),
{
    let ghost before = scope.scopes@;
    scope.scopes.push(child);
    proof {
        lemma_scope_trees_push(before, child);
    }
}

/// Whether `a` is a prefix of `b`.
pub open spec fn prefix_of<A>(a: Seq<A>, b: Seq<A>) -> bool {
    a.len() <= b.len() && forall|i: int| 0 <= i < a.len() ==> a[i] == #[trigger] b[i]
}

/// A scope after a visit: its child scopes, locals and references only
/// ever gain new entries after the ones it had.
pub open spec fn scope_grows(a: Scope, b: Scope) -> bool {
    &&& prefix_of(a.scopes@, b.scopes@)
    &&& prefix_of(name_items(a.locals), name_items(b.locals))
    &&& prefix_of(ident_items(a.idents), ident_items(b.idents))
}

/// Inserting into an insertion-ordered set keeps its items as a prefix.
pub proof fn lemma_inserted_prefix<A>(s: Seq<A>, v: A)
    ensures
        prefix_of(s, inserted(s, v)),
{
}

/// Inserting into an insertion-ordered set keeps it without duplicates.
pub proof fn lemma_inserted_no_duplicates<A>(s: Seq<A>, v: A)
    requires
        s.no_duplicates(),
    ensures
        inserted(s, v).no_duplicates(),
{
    if !s.contains(v) {
        let t = s.push(v);
        assert forall|i: int, j: int| 0 <= i < t.len() && 0 <= j < t.len() && i != j implies t[i] != t[j] by {
            if i == s.len() {
                assert(s[j] != v);
            } else if j == s.len() {
                assert(s[i] != v);
            }
        }
    }
}

/// A local symbol bound to a builtin module.
#[derive(Debug)]
pub enum Local {
    /// The module itself: `import fs from 'fs'`, `const fs = require('fs')`.
    Default(String),
    /// A named export, to be qualified with the module name:
    /// `readSync` stands for `fs.readSync`.
    Named(String),
    /// The local symbol (first) standing for a property (second) of the
    /// module: `const B = require('buffer').Buffer`.
    Alias(String, String),
}

/// The abstract content of a local.
pub enum LocalView {
    /// The module itself.
    Default(Seq<char>),
    /// A named export.
    Named(Seq<char>),
    /// A local and the property it stands for.
    Alias(Seq<char>, Seq<char>),
}

impl View for Local {
    type V = LocalView;

    open spec fn view(&self) -> LocalView {
        match self {
            Local::Default(w) => LocalView::Default(w@),
            Local::Named(w) => LocalView::Named(w@),
            Local::Alias(w, a) => LocalView::Alias(w@, a@),
        }
    }
}

/// The symbol a local binds.
pub open spec fn local_word(l: LocalView) -> Seq<char> {
    match l {
        LocalView::Default(w) => w,
        LocalView::Named(w) => w,
        LocalView::Alias(w, _) => w,
    }
}

/// The views of a list of locals.
pub open spec fn locals_view(s: Seq<Local>) -> Seq<LocalView> {
    s.map_values(|l: Local| l@)
}

/// Reference to a built in module.
///
/// May be from an import specifier, call to `require()` or a dynamic `import()`.
#[derive(Debug)]
pub struct Builtin {
    /// Whether the local symbols are the names of the imported properties
    /// (`import {readSync} from 'fs'`, `const {readSync} = require('fs')`),
    /// so that a local name can stand in the builtin path.
    pub static_assign: bool,
    /// The module specifier.
    pub source: String,
    /// The local symbols bound to the module.
    pub locals: Vec<Local>,
}

/// Whether two locals are equal.
fn local_eq(a: &Local, b: &Local) -> (r: bool)
    ensures
        r <==> a@ == b@,
{
    match (a, b) {
        (Local::Default(x), Local::Default(y)) => *x == *y,
        (Local::Named(x), Local::Named(y)) => *x == *y,
        (Local::Alias(x1, x2), Local::Alias(y1, y2)) => *x1 == *y1 && *x2 == *y2,
        _ => false,
    }
}

/// A local of an import specifier: the namespace and default bindings
/// stand for the module, a named binding for its export.
pub open spec fn specifier_local(s: ImportSpecifier) -> LocalView {
    match s {
        ImportSpecifier::Default(l) => LocalView::Default(l@),
        ImportSpecifier::Named(l, _) => LocalView::Named(l@),
        ImportSpecifier::Namespace(l) => LocalView::Default(l@),
    }
}

/// The locals of a list of import specifiers, each kept once in the order
/// of its first binding.
pub open spec fn specifier_locals(s: Seq<ImportSpecifier>) -> Seq<LocalView>
    decreases s.len(),
{
    if s.len() == 0 {
        Seq::empty()
    } else {
        inserted(specifier_locals(s.drop_last()), specifier_local(s.last()))
    }
}

/// The reference a symbol and optional path make: with the node `global`
/// ignored, a leading `global` is dropped from a path and a bare `global`
/// makes no reference.
pub open spec fn reference_for(ignore_global: bool, sym: Seq<char>, path: Option<Seq<Seq<char>>>) -> Option<WordOrPathView> {
    if ignore_global && sym == "global"@ {
        match path {
            Some(parts) => if parts.len() > 0 {
                Some(WordOrPathView::Path(parts[0], parts.drop_first()))
            } else {
                None
            },
            None => None,
        }
    } else {
        match path {
            Some(parts) => Some(WordOrPathView::Path(sym, parts)),
            None => Some(WordOrPathView::Word(sym)),
        }
    }
}

/// Scope builder creates a tree of scopes.
pub struct ScopeBuilder {
    /// Builtin module detection candidates.
    pub candidates: Vec<Builtin>,
    /// List of symbols that reference a builtin candidate.
    pub builtins: IndexSet<Vec<String>>,
    /// Whether to ignore the `global` keyword exposed by node.
    pub ignore_node_global: bool,
    /// Hoisted (`var`) variable declarations.
    pub hoisted_vars: IndexSet<String>,
}

/// The analysis state keeps its guarantees: every candidate is a built in
/// package, and every builtin path is non-empty and starts with a built in
/// package.
pub open spec fn builder_wf(b: ScopeBuilder) -> bool {
    &&& forall|i: int| 0 <= i < b.candidates@.len() ==> latest_core_package(#[trigger] b.candidates@[i].source@)
    &&& forall|j: int|
        0 <= j < path_items(b.builtins).len() ==> (#[trigger] path_items(b.builtins)[j]).len() > 0
            && latest_core_package(path_items(b.builtins)[j][0])
    &&& path_items(b.builtins).no_duplicates()
}

/// The analysis state after a visit: candidates, builtin paths and hoisted
/// variables only gain new entries, and the options stay.
pub open spec fn builder_grows(a: ScopeBuilder, b: ScopeBuilder) -> bool {
    &&& a.ignore_node_global == b.ignore_node_global
    &&& prefix_of(a.candidates@, b.candidates@)
    &&& prefix_of(path_items(a.builtins), path_items(b.builtins))
    &&& prefix_of(name_items(a.hoisted_vars), name_items(b.hoisted_vars))
}

impl ScopeBuilder {
    /// Whether the node `global` is ignored.
    pub closed spec fn ignores_global(&self) -> bool {
        self.ignore_node_global
    }

    /// Create a scope tree builder.
    pub fn new(ignore_node_global: bool) -> (r: ScopeBuilder)
        ensures
            r.candidates@.len() == 0,
            path_items(r.builtins).len() == 0,
            name_items(r.hoisted_vars).len() == 0,
            r.ignores_global() == ignore_node_global,
            r.ignore_node_global == ignore_node_global,
            builder_wf(r),
    {
        ScopeBuilder {
            candidates: Vec::new(),
            builtins: paths_new(),
            ignore_node_global,
            hoisted_vars: names_new(),
        }
    }

    /// Add a static import declaration: an import of a built in package
    /// becomes a candidate whose locals are those of the import's bindings.
    pub fn add_static_import(&mut self, n: &ImportDecl)
        requires
            builder_wf(*old(self)),
        ensures
            builder_wf(*final(self)),
            builder_grows(*old(self), *final(self)),
            latest_core_package(n.src@) ==> final(self).candidates@.len() == old(self).candidates@.len() + 1
                && final(self).candidates@.last().static_assign
                && final(self).candidates@.last().source@ == n.src@
                && locals_view(final(self).candidates@.last().locals@) == specifier_locals(n.specifiers@),
            !latest_core_package(n.src@) ==> final(self).candidates@ == old(self).candidates@,
            forall|t: ScopeTree| #[trigger] builder_state(*final(self), t) == import_eff(builder_state(*old(self), t), *n),
    {
        if is_core_package(n.src.as_str()) {
            let mut builtin = Builtin { static_assign: true, source: n.src.clone(), locals: Vec::new() };
            let mut i: usize = 0;
            while i < n.specifiers.len()
                invariant
                    i <= n.specifiers@.len(),
                    locals_view(builtin.locals@) == specifier_locals(n.specifiers@.take(i as int)),
                    builtin.static_assign,
                    builtin.source@ == n.src@,
                decreases n.specifiers@.len() - i,
            {
                let local = match &n.specifiers[i] {
                    ImportSpecifier::Default(l) => Local::Default(l.clone()),
                    ImportSpecifier::Named(l, _) => Local::Named(l.clone()),
                    ImportSpecifier::Namespace(l) => Local::Default(l.clone()),
                };
                let ghost before = builtin.locals@;
                let mut found = false;
                let mut j: usize = 0;
                while j < builtin.locals.len()
                    invariant
                        j <= builtin.locals@.len(),
                        found <==> exists|k: int| 0 <= k < j && builtin.locals@[k]@ == local@,
                    decreases builtin.locals@.len() - j,
                {
                    if local_eq(&builtin.locals[j], &local) {
                        found = true;
                    }
                    j = j + 1;
                }
                proof {
                    let t = n.specifiers@.take(i as int + 1);
                    assert(t.drop_last() =~= n.specifiers@.take(i as int));
                    assert(specifier_local(t.last()) == local@);
                    if found {
                        let k = choose|k: int| 0 <= k < builtin.locals@.len() && builtin.locals@[k]@ == local@;
                        assert(locals_view(builtin.locals@)[k] == local@);
                    } else {
                        assert(!locals_view(builtin.locals@).contains(local@));
                    }
                }
                if !found {
                    builtin.locals.push(local);
                    proof {
                        assert(locals_view(builtin.locals@) =~= locals_view(before).push(local@));
                    }
                }
                i = i + 1;
            }
            assert(n.specifiers@.take(n.specifiers@.len() as int) =~= n.specifiers@);
            proof {
                lemma_candidates_push(self.candidates@, builtin);
            }
            self.candidates.push(builtin);
        }
    }

    /// Determine if a word matches a previously located builtin module
    /// local symbol; the last candidate that binds it wins. For member
    /// expressions pass the first word in the expression.
    fn is_builtin_match(&self, sym: &String) -> (r: Option<(usize, usize)>)
        ensures
            r is None <==> last_match(candidates_view(self.candidates@), sym@, self.candidates@.len() as int) is None,
            r matches Some((i, j)) ==> last_match(
                candidates_view(self.candidates@),
                sym@,
                self.candidates@.len() as int,
            ) == Some((i as int, j as int)) && i < self.candidates@.len() && j
                < self.candidates@[i as int].locals@.len() && local_word(
                self.candidates@[i as int].locals@[j as int]@,
            ) == sym@,
    {
        let ghost cv = candidates_view(self.candidates@);
        let mut upto = self.candidates.len();
        while upto > 0
            invariant
                upto <= self.candidates@.len(),
                cv == candidates_view(self.candidates@),
                last_match(cv, sym@, upto as int) == last_match(cv, sym@, self.candidates@.len() as int),
            decreases upto,
        {
            let builtin = &self.candidates[upto - 1];
            let ghost ls = locals_view(builtin.locals@);
            let mut j: usize = 0;
            while j < builtin.locals.len()
                invariant
                    0 < upto <= self.candidates@.len(),
                    *builtin == self.candidates@[upto - 1],
                    cv == candidates_view(self.candidates@),
                    last_match(cv, sym@, upto as int) == last_match(cv, sym@, self.candidates@.len() as int),
                    j <= builtin.locals@.len(),
                    ls == locals_view(builtin.locals@),
                    ls == cv[upto - 1].locals,
                    first_local(ls, sym@, j as int) == first_local(ls, sym@, 0),
                decreases builtin.locals@.len() - j,
            {
                let word = match &builtin.locals[j] {
                    Local::Default(w) => w,
                    Local::Named(w) => w,
                    Local::Alias(w, _) => w,
                };
                assert(word@ == local_word(ls[j as int]));
                if *word == *sym {
                    return Some((upto - 1, j));
                }
                j = j + 1;
            }
            upto = upto - 1;
        }
        None
    }

    /// Record a builtin path.
    fn insert_builtin(&mut self, words_key: Vec<String>)
        requires
            builder_wf(*old(self)),
            words_key@.len() > 0,
            latest_core_package(words_key@[0]@),
        ensures
            builder_wf(*final(self)),
            builder_grows(*old(self), *final(self)),
            final(self).candidates@ == old(self).candidates@,
            path_items(final(self).builtins) == inserted(path_items(old(self).builtins), words_view(words_key@)),
            forall|t: ScopeTree| #[trigger]
                builder_state(*final(self), t) == with_builtin(builder_state(*old(self), t), words_view(words_key@)),
    {
        let ghost key = words_view(words_key@);
        paths_insert(&mut self.builtins, words_key);
        proof {
            lemma_inserted_prefix(path_items(old(self).builtins), key);
            lemma_inserted_no_duplicates(path_items(old(self).builtins), key);
            assert forall|j: int| 0 <= j < path_items(self.builtins).len() implies (#[trigger] path_items(
                self.builtins,
            )[j]).len() > 0 && latest_core_package(path_items(self.builtins)[j][0]) by {
                if j >= path_items(old(self).builtins).len() {
                    assert(path_items(self.builtins)[j] == key);
                }
            }
        }
    }

    /// Record the builtin path of a call to `require()` made for its side
    /// effect: the module and, when the call is the object of a member
    /// expression, the member name.
    fn insert_side_effect_builtin(&mut self, dynamic_call: &DynamicCall)
        requires
            builder_wf(*old(self)),
            latest_core_package(dynamic_call.arg@),
        ensures
            builder_wf(*final(self)),
            builder_grows(*old(self), *final(self)),
            final(self).candidates@ == old(self).candidates@,
            forall|t: ScopeTree| #[trigger]
                builder_state(*final(self), t) == with_builtin(
                    builder_state(*old(self), t),
                    side_effect_key(call_view(*dynamic_call).0, call_view(*dynamic_call).1),
                ),
    {
        let mut words_key: Vec<String> = Vec::new();
        words_key.push(dynamic_call.arg.clone());
        if let Some(member) = &dynamic_call.member {
            words_key.push(member.clone());
        }
        assert(words_view(words_key@) =~= side_effect_key(call_view(*dynamic_call).0, call_view(*dynamic_call).1));
        self.insert_builtin(words_key);
    }

    /// Insert a symbol reference into a scope.
    fn insert_ident(&self, sym: String, scope: &mut Scope, path: Option<Vec<String>>)
        ensures
            final(scope).scopes@ == old(scope).scopes@,
            name_items(final(scope).locals) == name_items(old(scope).locals),
            ident_items(final(scope).idents) == match reference_for(
                self.ignore_node_global,
                sym@,
                match path {
                    Some(p) => Some(words_view(p@)),
                    None => None,
                },
            ) {
                Some(r) => inserted(ident_items(old(scope).idents), r),
                None => ident_items(old(scope).idents),
            },
            scope_grows(*old(scope), *final(scope)),
            state_of(*self, *final(scope)) == with_ref(
                state_of(*self, *old(scope)),
                self.ignore_node_global,
                sym@,
                match path {
                    Some(p) => Some(words_view(p@)),
                    None => None,
                },
            ),
    {
        proof {
            reveal_strlit("global");
        }
        let mut sym = sym;
        let mut path = path;
        if self.ignore_node_global && str_eq(sym.as_str(), "global") {
            match path {
                Some(mut parts) => {
                    if parts.len() > 0 {
                        let ghost before = words_view(parts@);
                        sym = parts.remove(0);
                        proof {
                            assert(words_view(parts@) =~= before.drop_first());
                        }
                        path = Some(parts);
                    } else {
                        return ;
                    }
                },
                None => {
                    return ;
                },
            }
        }
        let word_or_path = match path {
            Some(p) => WordOrPath::Path(sym, p),
            None => WordOrPath::Word(sym),
        };
        proof {
            lemma_inserted_prefix(ident_items(scope.idents), word_or_path@);
        }
        idents_insert(&mut scope.idents, word_or_path);
    }
}

/// A visit keeps the analysis state well formed and lets the state and the
/// scope only gain entries.
pub open spec fn visit_ok(b0: ScopeBuilder, b1: ScopeBuilder, s0: Scope, s1: Scope) -> bool {
    &&& builder_wf(b1)
    &&& builder_grows(b0, b1)
    &&& scope_grows(s0, s1)
}

/// Growth of the analysis state is transitive.
pub proof fn lemma_builder_grows_trans(a: ScopeBuilder, b: ScopeBuilder, c: ScopeBuilder)
    requires
        builder_grows(a, b),
        builder_grows(b, c),
    ensures
        builder_grows(a, c),
{
    assert forall|i: int| 0 <= i < a.candidates@.len() implies a.candidates@[i] == #[trigger] c.candidates@[i] by {
        assert(a.candidates@[i] == b.candidates@[i]);
    }
    assert forall|i: int| 0 <= i < path_items(a.builtins).len() implies path_items(a.builtins)[i] == #[trigger] path_items(c.builtins)[i] by {
        assert(path_items(a.builtins)[i] == path_items(b.builtins)[i]);
    }
    assert forall|i: int| 0 <= i < name_items(a.hoisted_vars).len() implies name_items(a.hoisted_vars)[i] == #[trigger] name_items(c.hoisted_vars)[i] by {
        assert(name_items(a.hoisted_vars)[i] == name_items(b.hoisted_vars)[i]);
    }
}

/// Growth of a scope is transitive.
pub proof fn lemma_scope_grows_trans(a: Scope, b: Scope, c: Scope)
    requires
        scope_grows(a, b),
        scope_grows(b, c),
    ensures
        scope_grows(a, c),
{
    assert forall|i: int| 0 <= i < a.scopes@.len() implies a.scopes@[i] == #[trigger] c.scopes@[i] by {
        assert(a.scopes@[i] == b.scopes@[i]);
    }
    assert forall|i: int| 0 <= i < name_items(a.locals).len() implies name_items(a.locals)[i] == #[trigger] name_items(c.locals)[i] by {
        assert(name_items(a.locals)[i] == name_items(b.locals)[i]);
    }
    assert forall|i: int| 0 <= i < ident_items(a.idents).len() implies ident_items(a.idents)[i] == #[trigger] ident_items(c.idents)[i] by {
        assert(ident_items(a.idents)[i] == ident_items(b.idents)[i]);
    }
}

/// Visits compose: two visits in turn are a visit.
pub proof fn lemma_visit_ok_trans(b0: ScopeBuilder, b1: ScopeBuilder, b2: ScopeBuilder, s0: Scope, s1: Scope, s2: Scope)
    requires
        visit_ok(b0, b1, s0, s1),
        visit_ok(b1, b2, s1, s2),
    ensures
        visit_ok(b0, b2, s0, s2),
{
    lemma_builder_grows_trans(b0, b1, b2);
    lemma_scope_grows_trans(s0, s1, s2);
}

/// A scope with a child scope appended has grown.
pub proof fn lemma_push_child_grows(a: Scope, b: Scope, child: Scope)
    requires
        b.scopes@ == a.scopes@.push(child),
        name_items(b.locals) == name_items(a.locals),
        ident_items(b.idents) == ident_items(a.idents),
    ensures
        scope_grows(a, b),
{
}

/// Whether a pattern binds names.
fn binds(p: &Pat) -> (r: bool)
    ensures
        r == binds_names(*p),
{
    match p {
        Pat::Ident(_) => true,
        Pat::Object(_) => true,
        Pat::Array(_) => true,
        Pat::Rest(_) => true,
        Pat::Assign(_, _) => true,
        _ => false,
    }
}

/// A set of names holding one name.
fn single_local(name: &String) -> (r: IndexSet<String>)
    ensures
        name_items(r) == seq![name@],
{
    let mut set = names_new();
    names_insert(&mut set, name.clone());
    proof {
        assert(inserted(Seq::<Seq<char>>::empty(), name@) =~= seq![name@]);
    }
    set
}

impl ScopeBuilder {
    /// Add a local symbol to a scope.
    fn insert_local(&self, scope: &mut Scope, name: String)
        ensures
            scope_grows(*old(scope), *final(scope)),
            final(scope).scopes@ == old(scope).scopes@,
            ident_items(final(scope).idents) == ident_items(old(scope).idents),
            name_items(final(scope).locals) == inserted(name_items(old(scope).locals), name@),
            state_of(*self, *final(scope)) == with_local(state_of(*self, *old(scope)), name@),
    {
        proof {
            lemma_inserted_prefix(name_items(scope.locals), name@);
        }
        names_insert(&mut scope.locals, name);
    }

    /// Visit a child scope holding one statement and append it to the scope.
    fn visit_child_stmt(&mut self, n: &Stmt, scope: &mut Scope)
        requires
            builder_wf(*old(self)),
        ensures
            visit_ok(*old(self), *final(self), *old(scope), *final(scope)),
            state_of(*final(self), *final(scope)) == child_eff(
                *n,
                old(self).ignore_node_global,
                state_of(*old(self), *old(scope)),
            ),
        decreases n, 3nat,
    {
        let ghost st0 = state_of(*self, *scope);
        let mut next_scope = Scope::new(None);
        self.visit_stmt(n, &mut next_scope, None);
        let ghost inner = state_of(*self, next_scope);
        push_child(scope, next_scope);
        assert(state_of(*self, *scope) == leave(st0, inner));
    }

    /// Visit a statement.
    pub fn visit_stmt(&mut self, n: &Stmt, scope: &mut Scope, locals: Option<IndexSet<String>>)
        requires
            builder_wf(*old(self)),
        ensures
            visit_ok(*old(self), *final(self), *old(scope), *final(scope)),
            state_of(*final(self), *final(scope)) == stmt_eff(
                *n,
                old(self).ignore_node_global,
                state_of(*old(self), *old(scope)),
                opt_names(locals),
            ),
        decreases n, 2nat,
    {
        let ghost ig = self.ignore_node_global;
        let ghost st0 = state_of(*self, *scope);
        match n {
            Stmt::Decl(decl) => {
                match decl {
                    Decl::Fn(ident, function) => {
                        self.insert_local(scope, ident.clone());
                        let ghost (b1, s1) = (*self, *scope);
                        self.visit_function(function, scope, None);
                        proof {
                            lemma_scope_grows_trans(*old(scope), s1, *scope);
                        }
                    },
                    Decl::Class(ident, class) => {
                        self.insert_local(scope, ident.clone());
                        let ghost (b1, s1) = (*self, *scope);
                        self.visit_class(class, scope, None);
                        proof {
                            lemma_scope_grows_trans(*old(scope), s1, *scope);
                        }
                    },
                    Decl::Var(v) => {
                        self.visit_var_decl(v, scope);
                    },
                    Decl::Other => {},
                }
            },
            Stmt::With(_, body) => {
                self.visit_child_stmt(body, scope);
            },
            Stmt::While(test, body) => {
                self.visit_expr(test, scope);
                let ghost (b1, s1) = (*self, *scope);
                self.visit_child_stmt(body, scope);
                proof {
                    lemma_visit_ok_trans(*old(self), b1, *self, *old(scope), s1, *scope);
                }
            },
            Stmt::DoWhile(test, body) => {
                self.visit_expr(test, scope);
                let ghost (b1, s1) = (*self, *scope);
                self.visit_child_stmt(body, scope);
                proof {
                    lemma_visit_ok_trans(*old(self), b1, *self, *old(scope), s1, *scope);
                }
            },
            Stmt::For(init, test, update, body) => {
                let mut next_scope = Scope::new(None);
                let ghost (b0, s0) = (*self, next_scope);
                let ghost c0 = state_of(*self, next_scope);
                assert(c0 == enter(st0, Seq::empty()));
                if let Some(init) = init {
                    match init {
                        VarDeclOrExpr::Expr(e) => {
                            self.visit_expr(e, &mut next_scope);
                        },
                        VarDeclOrExpr::VarDecl(v) => {
                            self.visit_var_decl(v, &mut next_scope);
                        },
                    }
                }
                let ghost (b1, s1) = (*self, next_scope);
                let ghost c1 = state_of(*self, next_scope);
                if let Some(test) = test {
                    self.visit_expr(test, &mut next_scope);
                }
                let ghost (b2, s2) = (*self, next_scope);
                let ghost c2 = state_of(*self, next_scope);
                if let Some(update) = update {
                    self.visit_expr(update, &mut next_scope);
                }
                let ghost (b3, s3) = (*self, next_scope);
                let ghost c3 = state_of(*self, next_scope);
                self.visit_stmt(body, &mut next_scope, None);
                proof {
                    lemma_builder_grows_trans(b0, b1, b2);
                    lemma_builder_grows_trans(b0, b2, b3);
                    lemma_builder_grows_trans(b0, b3, *self);
                    assert(c1 == match init {
                        Some(VarDeclOrExpr::Expr(e)) => expr_eff(**e, ig, c0),
                        Some(VarDeclOrExpr::VarDecl(v)) => decls_eff(v.kind, v.decls@, ig, c0),
                        None => c0,
                    });
                    assert(c2 == match test {
                        Some(e) => expr_eff(**e, ig, c1),
                        None => c1,
                    });
                    assert(c3 == match update {
                        Some(e) => expr_eff(**e, ig, c2),
                        None => c2,
                    });
                }
                let ghost inner = state_of(*self, next_scope);
                push_child(scope, next_scope);
                assert(state_of(*self, *scope) == leave(st0, inner));
            },
            Stmt::ForIn(_, _, _) => {
                self.visit_for_head(n, scope);
            },
            Stmt::ForOf(_, _, _) => {
                self.visit_for_head(n, scope);
            },
            Stmt::Labeled(body) => {
                self.visit_child_stmt(body, scope);
            },
            Stmt::If(test, cons, alt) => {
                let mut next_scope = Scope::new(None);
                let ghost b0 = *self;
                self.visit_expr(test, &mut next_scope);
                let ghost b1 = *self;
                self.visit_stmt(cons, &mut next_scope, None);
                proof {
                    lemma_builder_grows_trans(b0, b1, *self);
                }
                let ghost inner = state_of(*self, next_scope);
                push_child(scope, next_scope);
                let ghost (b2, s2) = (*self, *scope);
                let ghost st1 = state_of(*self, *scope);
                assert(st1 == leave(st0, inner));
                if let Some(alt) = alt {
                    self.visit_child_stmt(alt, scope);
                    proof {
                        lemma_visit_ok_trans(*old(self), b2, *self, *old(scope), s2, *scope);
                    }
                }
            },
            Stmt::Try(block, handler, finalizer) => {
                let mut next_scope = Scope::new(None);
                self.visit_block_stmt(block, &mut next_scope);
                let ghost inner = state_of(*self, next_scope);
                push_child(scope, next_scope);
                let ghost (b1, s1) = (*self, *scope);
                let ghost st1 = state_of(*self, *scope);
                assert(st1 == leave(st0, inner));
                if let Some(catch_clause) = handler {
                    let locals = match &catch_clause.param {
                        Some(pat) => {
                            let mut names: Vec<String> = Vec::new();
                            pattern_words(pat, &mut names);
                            assert(words_view(names@) =~= pattern_names(*pat));
                            let mut set = names_new();
                            let mut i: usize = 0;
                            while i < names.len()
                                invariant
                                    i <= names@.len(),
                                    name_items(set) == insert_all(Seq::empty(), words_view(names@).take(i as int)),
                                decreases names@.len() - i,
                            {
                                names_insert(&mut set, names[i].clone());
                                proof {
                                    let t = words_view(names@).take(i as int + 1);
                                    assert(t.drop_last() =~= words_view(names@).take(i as int));
                                    assert(t.last() == names@[i as int]@);
                                }
                                i = i + 1;
                            }
                            assert(words_view(names@).take(names@.len() as int) =~= words_view(names@));
                            Some(set)
                        },
                        None => None,
                    };
                    let mut next_scope = Scope::new(locals);
                    self.visit_block_stmt(&catch_clause.body, &mut next_scope);
                    let ghost inner = state_of(*self, next_scope);
                    push_child(scope, next_scope);
                    assert(state_of(*self, *scope) == leave(st1, inner));
                    proof {
                        lemma_visit_ok_trans(*old(self), b1, *self, *old(scope), s1, *scope);
                    }
                }
                let ghost (b2, s2) = (*self, *scope);
                let ghost st2 = state_of(*self, *scope);
                if let Some(finalizer) = finalizer {
                    let mut next_scope = Scope::new(None);
                    self.visit_block_stmt(finalizer, &mut next_scope);
                    let ghost inner = state_of(*self, next_scope);
                    push_child(scope, next_scope);
                    assert(state_of(*self, *scope) == leave(st2, inner));
                    proof {
                        lemma_visit_ok_trans(*old(self), b2, *self, *old(scope), s2, *scope);
                    }
                }
            },
            Stmt::Switch(discriminant, cases) => {
                let mut i: usize = 0;
                assert(decreases_to!(*n => *cases));
                while i < cases.len()
                    invariant
                        *n == Stmt::Switch(*discriminant, *cases),
                        decreases_to!(*n => *cases),
                        i <= cases@.len(),
                        visit_ok(*old(self), *self, *old(scope), *scope),
                        self.ignore_node_global == ig,
                        state_of(*self, *scope) == cases_eff(cases@.take(i as int), ig, st0),
                    decreases cases@.len() - i,
                {
                    let case = &cases[i].cons;
                    proof {
                        assert(decreases_to!(*cases => cases[i as int]));
                        assert(decreases_to!(cases[i as int] => cases[i as int].cons));
                        let t = cases@.take(i as int + 1);
                        assert(t.subrange(0, t.len() - 1) =~= cases@.take(i as int));
                        assert(t[t.len() - 1] == cases@[i as int]);
                    }
                    let ghost c0 = state_of(*self, *scope);
                    let mut j: usize = 0;
                    while j < case.len()
                        invariant
                            decreases_to!(*n => *case),
                            j <= case@.len(),
                            visit_ok(*old(self), *self, *old(scope), *scope),
                            self.ignore_node_global == ig,
                            state_of(*self, *scope) == children_eff(case@.take(j as int), ig, c0),
                        decreases case@.len() - j,
                    {
                        proof {
                            assert(decreases_to!(*case => case[j as int]));
                            let t = case@.take(j as int + 1);
                            assert(t.subrange(0, t.len() - 1) =~= case@.take(j as int));
                            assert(t[t.len() - 1] == case@[j as int]);
                        }
                        let ghost (b1, s1) = (*self, *scope);
                        self.visit_child_stmt(&case[j], scope);
                        proof {
                            lemma_visit_ok_trans(*old(self), b1, *self, *old(scope), s1, *scope);
                        }
                        j = j + 1;
                    }
                    assert(case@.take(case@.len() as int) =~= case@);
                    i = i + 1;
                }
                assert(cases@.take(cases@.len() as int) =~= cases@);
            },
            Stmt::Block(stmts) => {
                let mut next_scope = Scope::new(locals);
                self.visit_block_stmt(stmts, &mut next_scope);
                let ghost inner = state_of(*self, next_scope);
                push_child(scope, next_scope);
                assert(state_of(*self, *scope) == leave(st0, inner));
            },
            Stmt::Return(arg) => {
                if let Some(arg) = arg {
                    self.visit_expr(arg, scope);
                }
            },
            Stmt::Throw(arg) => {
                self.visit_expr(arg, scope);
            },
            Stmt::Expr(e) => {
                self.visit_expr(e, scope);
            },
            Stmt::Other => {},
        }
    }

    /// Visit the head and body of a `for ... in` or `for ... of` loop in a
    /// child scope; the names of a pattern on the left are references of the
    /// enclosing scope.
    fn visit_for_head(&mut self, n: &Stmt, scope: &mut Scope)
        requires
            builder_wf(*old(self)),
            n is ForIn || n is ForOf,
        ensures
            visit_ok(*old(self), *final(self), *old(scope), *final(scope)),
            state_of(*final(self), *final(scope)) == stmt_eff(
                *n,
                old(self).ignore_node_global,
                state_of(*old(self), *old(scope)),
                Seq::empty(),
            ),
        decreases n, 1nat,
    {
        let ghost ig = self.ignore_node_global;
        let ghost st0 = state_of(*self, *scope);
        let (left, right, body) = match n {
            Stmt::ForIn(left, right, body) => (left, right, body),
            Stmt::ForOf(left, right, body) => (left, right, body),
            _ => {
                return ;
            },
        };
        let mut next_scope = Scope::new(None);
        let ghost b0 = *self;
        match left {
            VarDeclOrPat::VarDecl(v) => {
                self.visit_var_decl(v, &mut next_scope);
            },
            VarDeclOrPat::Pat(pat) => match pat {
                Pat::Expr(e) => {
                    self.visit_expr(e, &mut next_scope);
                },
                _ => {
                    let mut names: Vec<String> = Vec::new();
                    pattern_words(pat, &mut names);
                    assert(words_view(names@) =~= pattern_names(*pat));
                    let mut i: usize = 0;
                    while i < names.len()
                        invariant
                            i <= names@.len(),
                            scope_grows(*old(scope), *scope),
                            *self == b0,
                            self.ignore_node_global == ig,
                            state_of(*self, *scope) == with_name_refs(st0, ig, words_view(names@).take(i as int)),
                            state_of(*self, next_scope) == enter(state_of(*self, *scope), Seq::empty()),
                        decreases names@.len() - i,
                    {
                        let ghost s1 = *scope;
                        self.insert_ident(names[i].clone(), scope, None);
                        proof {
                            lemma_scope_grows_trans(*old(scope), s1, *scope);
                            let t = words_view(names@).take(i as int + 1);
                            assert(t.drop_last() =~= words_view(names@).take(i as int));
                            assert(t.last() == names@[i as int]@);
                        }
                        i = i + 1;
                    }
                    assert(words_view(names@).take(names@.len() as int) =~= words_view(names@));
                },
            },
        }
        let ghost outer = state_of(*self, *scope);
        let ghost b1 = *self;
        self.visit_expr(right, &mut next_scope);
        let ghost b2 = *self;
        self.visit_stmt(body, &mut next_scope, None);
        proof {
            lemma_builder_grows_trans(b0, b1, b2);
            lemma_builder_grows_trans(b0, b2, *self);
        }
        let ghost s3 = *scope;
        let ghost inner = state_of(*self, next_scope);
        push_child(scope, next_scope);
        proof {
            lemma_scope_grows_trans(*old(scope), s3, *scope);
            assert(state_of(*self, *scope) == leave(outer, inner));
        }
    }

    /// Visit a list of statements in a scope.
    fn visit_block_stmt(&mut self, stmts: &Vec<Stmt>, scope: &mut Scope)
        requires
            builder_wf(*old(self)),
        ensures
            visit_ok(*old(self), *final(self), *old(scope), *final(scope)),
            state_of(*final(self), *final(scope)) == stmts_eff(
                stmts@,
                old(self).ignore_node_global,
                state_of(*old(self), *old(scope)),
            ),
        decreases stmts, 0nat,
    {
        let ghost ig = self.ignore_node_global;
        let ghost st0 = state_of(*self, *scope);
        let mut i: usize = 0;
        while i < stmts.len()
            invariant
                i <= stmts@.len(),
                visit_ok(*old(self), *self, *old(scope), *scope),
                self.ignore_node_global == ig,
                state_of(*self, *scope) == stmts_eff(stmts@.take(i as int), ig, st0),
            decreases stmts@.len() - i,
        {
            proof {
                assert(decreases_to!(*stmts => stmts[i as int]));
                let t = stmts@.take(i as int + 1);
                assert(t.subrange(0, t.len() - 1) =~= stmts@.take(i as int));
                assert(t[t.len() - 1] == stmts@[i as int]);
            }
            let ghost (b1, s1) = (*self, *scope);
            self.visit_stmt(&stmts[i], scope, None);
            proof {
                lemma_visit_ok_trans(*old(self), b1, *self, *old(scope), s1, *scope);
            }
            i = i + 1;
        }
        assert(stmts@.take(stmts@.len() as int) =~= stmts@);
    }

    /// Visit the parameters and body of a function in a child scope.
    fn visit_function(&mut self, f: &Function, scope: &mut Scope, locals: Option<IndexSet<String>>)
        requires
            builder_wf(*old(self)),
        ensures
            visit_ok(*old(self), *final(self), *old(scope), *final(scope)),
            state_of(*final(self), *final(scope)) == function_eff(
                *f,
                old(self).ignore_node_global,
                state_of(*old(self), *old(scope)),
                opt_names(locals),
            ),
        decreases f, 0nat,
    {
        let ghost st0 = state_of(*self, *scope);
        let mut next_scope = Scope::new(locals);
        let ghost b0 = *self;
        self.visit_params(&f.params, &mut next_scope);
        let ghost b1 = *self;
        if let Some(body) = &f.body {
            self.visit_block_stmt(body, &mut next_scope);
        }
        proof {
            lemma_builder_grows_trans(b0, b1, *self);
        }
        let ghost inner = state_of(*self, next_scope);
        push_child(scope, next_scope);
        assert(state_of(*self, *scope) == leave(st0, inner));
    }

    /// Visit the parameters of a function: their names become locals.
    fn visit_params(&mut self, params: &Vec<Pat>, scope: &mut Scope)
        requires
            builder_wf(*old(self)),
        ensures
            visit_ok(*old(self), *final(self), *old(scope), *final(scope)),
            state_of(*final(self), *final(scope)) == params_eff(
                params@,
                old(self).ignore_node_global,
                state_of(*old(self), *old(scope)),
            ),
        decreases params, 0nat,
    {
        let ghost ig = self.ignore_node_global;
        let ghost st0 = state_of(*self, *scope);
        let mut i: usize = 0;
        while i < params.len()
            invariant
                i <= params@.len(),
                visit_ok(*old(self), *self, *old(scope), *scope),
                self.ignore_node_global == ig,
                state_of(*self, *scope) == params_eff(params@.take(i as int), ig, st0),
            decreases params@.len() - i,
        {
            proof {
                assert(decreases_to!(*params => params[i as int]));
                let t = params@.take(i as int + 1);
                assert(t.subrange(0, t.len() - 1) =~= params@.take(i as int));
                assert(t[t.len() - 1] == params@[i as int]);
            }
            let ghost (b1, s1) = (*self, *scope);
            self.visit_param_pat(&params[i], scope);
            proof {
                lemma_visit_ok_trans(*old(self), b1, *self, *old(scope), s1, *scope);
            }
            i = i + 1;
        }
        assert(params@.take(params@.len() as int) =~= params@);
    }

    /// Visit the parameters and body of an arrow function in a child scope.
    fn visit_arrow(&mut self, f: &ArrowExpr, scope: &mut Scope)
        requires
            builder_wf(*old(self)),
        ensures
            visit_ok(*old(self), *final(self), *old(scope), *final(scope)),
            state_of(*final(self), *final(scope)) == arrow_eff(
                *f,
                old(self).ignore_node_global,
                state_of(*old(self), *old(scope)),
            ),
        decreases f, 0nat,
    {
        let ghost st0 = state_of(*self, *scope);
        let mut next_scope = Scope::new(None);
        let ghost b0 = *self;
        self.visit_params(&f.params, &mut next_scope);
        let ghost b1 = *self;
        match &f.body {
            BlockStmtOrExpr::BlockStmt(block) => {
                self.visit_block_stmt(block, &mut next_scope);
            },
            BlockStmtOrExpr::Expr(e) => {
                self.visit_expr(e, &mut next_scope);
            },
        }
        proof {
            lemma_builder_grows_trans(b0, b1, *self);
        }
        let ghost inner = state_of(*self, next_scope);
        push_child(scope, next_scope);
        assert(state_of(*self, *scope) == leave(st0, inner));
    }

    /// Visit a class: its super class in the scope, its instance members in
    /// a child scope.
    fn visit_class(&mut self, n: &Class, scope: &mut Scope, locals: Option<IndexSet<String>>)
        requires
            builder_wf(*old(self)),
        ensures
            visit_ok(*old(self), *final(self), *old(scope), *final(scope)),
            state_of(*final(self), *final(scope)) == class_eff(
                *n,
                old(self).ignore_node_global,
                state_of(*old(self), *old(scope)),
                opt_names(locals),
            ),
        decreases n, 0nat,
    {
        let ghost ig = self.ignore_node_global;
        let ghost names = opt_names(locals);
        let mut next_scope = Scope::new(locals);
        if let Some(super_class) = &n.super_class {
            self.visit_expr(super_class, scope);
        }
        let ghost (b1, s1) = (*self, *scope);
        let ghost st1 = state_of(*self, *scope);
        let ghost ns0 = next_scope;
        let ghost c0 = state_of(*self, next_scope);
        assert(c0 == enter(st1, names));
        let mut i: usize = 0;
        assert(decreases_to!(*n => n.body));
        while i < n.body.len()
            invariant
                decreases_to!(*n => n.body),
                i <= n.body@.len(),
                builder_wf(*self),
                builder_grows(b1, *self),
                scope_grows(ns0, next_scope),
                *scope == s1,
                self.ignore_node_global == ig,
                state_of(*self, next_scope) == members_eff(n.body@.take(i as int), ig, c0),
            decreases n.body@.len() - i,
        {
            proof {
                assert(decreases_to!(n.body => n.body[i as int]));
                let t = n.body@.take(i as int + 1);
                assert(t.subrange(0, t.len() - 1) =~= n.body@.take(i as int));
                assert(t[t.len() - 1] == n.body@[i as int]);
            }
            let ghost (b2, s2) = (*self, next_scope);
            let ghost m0 = state_of(*self, next_scope);
            match &n.body[i] {
                ClassMember::Constructor(params, body) => {
                    let mut ctor_scope = Scope::new(None);
                    let ghost b3 = *self;
                    self.visit_params(params, &mut ctor_scope);
                    let ghost b4 = *self;
                    if let Some(body) = body {
                        self.visit_block_stmt(body, &mut ctor_scope);
                    }
                    proof {
                        lemma_builder_grows_trans(b3, b4, *self);
                    }
                    let ghost inner = state_of(*self, ctor_scope);
                    push_child(&mut next_scope, ctor_scope);
                    assert(state_of(*self, next_scope) == leave(m0, inner));
                },
                ClassMember::Method(is_static, _, f) => {
                    if !*is_static {
                        self.visit_function(f, &mut next_scope, None);
                    }
                },
                ClassMember::PrivateMethod(is_static, _, f) => {
                    if !*is_static {
                        self.visit_function(f, &mut next_scope, None);
                    }
                },
                ClassMember::ClassProp(is_static, _, value) => {
                    if !*is_static {
                        if let Some(value) = value {
                            self.visit_expr(value, &mut next_scope);
                        }
                    }
                },
                ClassMember::PrivateProp(is_static, _, value) => {
                    if !*is_static {
                        if let Some(value) = value {
                            self.visit_expr(value, &mut next_scope);
                        }
                    }
                },
                ClassMember::StaticBlock(_) | ClassMember::Other => {},
            }
            proof {
                lemma_builder_grows_trans(b1, b2, *self);
                lemma_scope_grows_trans(ns0, s2, next_scope);
            }
            i = i + 1;
        }
        assert(n.body@.take(n.body@.len() as int) =~= n.body@);
        proof {
            lemma_builder_grows_trans(*old(self), b1, *self);
        }
        let ghost inner = state_of(*self, next_scope);
        push_child(scope, next_scope);
        proof {
            lemma_scope_grows_trans(*old(scope), s1, *scope);
            assert(state_of(*self, *scope) == leave(st1, inner));
        }
    }

    /// Visit a parameter pattern: its names become locals of the scope, and
    /// a default value is visited after them.
    fn visit_param_pat(&mut self, n: &Pat, scope: &mut Scope)
        requires
            builder_wf(*old(self)),
        ensures
            visit_ok(*old(self), *final(self), *old(scope), *final(scope)),
            state_of(*final(self), *final(scope)) == param_eff(
                *n,
                old(self).ignore_node_global,
                state_of(*old(self), *old(scope)),
            ),
        decreases n, 0nat,
    {
        let ghost ig = self.ignore_node_global;
        let ghost st0 = state_of(*self, *scope);
        let mut names: Vec<String> = Vec::new();
        pattern_words(n, &mut names);
        assert(words_view(names@) =~= pattern_names(*n));
        let mut i: usize = 0;
        while i < names.len()
            invariant
                i <= names@.len(),
                scope_grows(*old(scope), *scope),
                *self == *old(self),
                state_of(*self, *scope) == with_locals(st0, words_view(names@).take(i as int)),
            decreases names@.len() - i,
        {
            let ghost s1 = *scope;
            self.insert_local(scope, names[i].clone());
            proof {
                lemma_scope_grows_trans(*old(scope), s1, *scope);
                let t = words_view(names@).take(i as int + 1);
                assert(t.drop_last() =~= words_view(names@).take(i as int));
                assert(t.last() == names@[i as int]@);
            }
            i = i + 1;
        }
        assert(words_view(names@).take(names@.len() as int) =~= words_view(names@));
        if let Pat::Assign(_, right) = n {
            let ghost s1 = *scope;
            self.visit_expr(right, scope);
            proof {
                lemma_scope_grows_trans(*old(scope), s1, *scope);
            }
        }
    }

    /// Visit a variable declaration: `var` names are hoisted, other names
    /// become locals; initializers are visited and checked for `require()`.
    fn visit_var_decl(&mut self, n: &VarDecl, scope: &mut Scope)
        requires
            builder_wf(*old(self)),
        ensures
            visit_ok(*old(self), *final(self), *old(scope), *final(scope)),
            state_of(*final(self), *final(scope)) == decls_eff(
                n.kind,
                n.decls@,
                old(self).ignore_node_global,
                state_of(*old(self), *old(scope)),
            ),
        decreases n, 0nat,
    {
        let ghost ig = self.ignore_node_global;
        let ghost st0 = state_of(*self, *scope);
        let mut i: usize = 0;
        assert(decreases_to!(*n => n.decls));
        while i < n.decls.len()
            invariant
                decreases_to!(*n => n.decls),
                i <= n.decls@.len(),
                visit_ok(*old(self), *self, *old(scope), *scope),
                self.ignore_node_global == ig,
                state_of(*self, *scope) == decls_eff(n.kind, n.decls@.take(i as int), ig, st0),
            decreases n.decls@.len() - i,
        {
            let decl = &n.decls[i];
            proof {
                assert(decreases_to!(n.decls => n.decls[i as int]));
                let t = n.decls@.take(i as int + 1);
                assert(t.subrange(0, t.len() - 1) =~= n.decls@.take(i as int));
                assert(t[t.len() - 1] == n.decls@[i as int]);
            }
            if binds(&decl.name) {
                let ghost st1 = state_of(*self, *scope);
                let mut words: Vec<String> = Vec::new();
                pattern_words(&decl.name, &mut words);
                assert(words_view(words@) =~= pattern_names(decl.name));
                let mut j: usize = 0;
                while j < words.len()
                    invariant
                        j <= words@.len(),
                        visit_ok(*old(self), *self, *old(scope), *scope),
                        self.ignore_node_global == ig,
                        state_of(*self, *scope) == with_declared(st1, n.kind, words_view(words@).take(j as int)),
                    decreases words@.len() - j,
                {
                    let ghost (b1, s1) = (*self, *scope);
                    match n.kind {
                        VarDeclKind::Var => {
                            proof {
                                lemma_inserted_prefix(name_items(self.hoisted_vars), words@[j as int]@);
                            }
                            names_insert(&mut self.hoisted_vars, words[j].clone());
                        },
                        _ => {
                            self.insert_local(scope, words[j].clone());
                        },
                    }
                    proof {
                        lemma_visit_ok_trans(*old(self), b1, *self, *old(scope), s1, *scope);
                        let t = words_view(words@).take(j as int + 1);
                        assert(t.drop_last() =~= words_view(words@).take(j as int));
                        assert(t.last() == words@[j as int]@);
                    }
                    j = j + 1;
                }
                assert(words_view(words@).take(words@.len() as int) =~= words_view(words@));
                let ghost (b1, s1) = (*self, *scope);
                if let Some(init) = &decl.init {
                    proof {
                        assert(decreases_to!(n.decls[i as int] => n.decls[i as int].init));
                    }
                    self.visit_expr(init, scope);
                }
                let ghost b2 = *self;
                self.visit_var_declarator(decl);
                proof {
                    lemma_builder_grows_trans(b1, b2, *self);
                    lemma_visit_ok_trans(*old(self), b1, *self, *old(scope), s1, *scope);
                }
            }
            i = i + 1;
        }
        assert(n.decls@.take(n.decls@.len() as int) =~= n.decls@);
    }

    /// A declarator initialized with `require()` of a built in package makes
    /// a candidate: a single name binds the module (or the member taken from
    /// it), a destructuring pattern binds its named exports.
    fn visit_var_declarator(&mut self, n: &VarDeclarator)
        requires
            builder_wf(*old(self)),
        ensures
            builder_wf(*final(self)),
            builder_grows(*old(self), *final(self)),
            forall|t: ScopeTree| #[trigger]
                builder_state(*final(self), t) == declarator_effect(builder_state(*old(self), t), *n),
    {
        if let Some(init) = &n.init {
            if let Some(dynamic_call) = is_require_expr(init) {
                if is_core_package(dynamic_call.arg.as_str()) {
                    let mut builtin = Builtin {
                        static_assign: false,
                        source: dynamic_call.arg.clone(),
                        locals: Vec::new(),
                    };
                    match &n.name {
                        Pat::Ident(ident) => {
                            if let Some(member_name) = &dynamic_call.member {
                                builtin.locals.push(Local::Alias(ident.clone(), member_name.clone()));
                            } else {
                                builtin.locals.push(Local::Default(ident.clone()));
                            }
                            assert(locals_view(builtin.locals@) =~= seq![
                                match call_view(dynamic_call).1 {
                                    Some(mm) => LocalView::Alias(ident@, mm),
                                    None => LocalView::Default(ident@),
                                },
                            ]);
                        },
                        _ => {
                            builtin.static_assign = true;
                            let mut names: Vec<String> = Vec::new();
                            pattern_words(&n.name, &mut names);
                            assert(words_view(names@) =~= pattern_names(n.name));
                            let ghost named = pattern_names(n.name).map_values(|w: Seq<char>| LocalView::Named(w));
                            let mut i: usize = 0;
                            while i < names.len()
                                invariant
                                    i <= names@.len(),
                                    builtin.source@ == dynamic_call.arg@,
                                    builtin.static_assign,
                                    words_view(names@) == pattern_names(n.name),
                                    named == pattern_names(n.name).map_values(|w: Seq<char>| LocalView::Named(w)),
                                    locals_view(builtin.locals@) == named.take(i as int),
                                decreases names@.len() - i,
                            {
                                let ghost before = builtin.locals@;
                                builtin.locals.push(Local::Named(names[i].clone()));
                                proof {
                                    assert(words_view(names@)[i as int] == names@[i as int]@);
                                    assert(named[i as int] == LocalView::Named(names@[i as int]@));
                                    assert(locals_view(builtin.locals@) =~= locals_view(before).push(
                                        LocalView::Named(names@[i as int]@),
                                    ));
                                    assert(locals_view(builtin.locals@) =~= named.take(i as int + 1));
                                }
                                i = i + 1;
                            }
                            assert(named.take(names@.len() as int) =~= named);
                        },
                    }
                    proof {
                        lemma_candidates_push(self.candidates@, builtin);
                    }
                    self.candidates.push(builtin);
                }
            }
        }
    }

    /// Visit the callee and arguments of a call; an argument that is a call
    /// to `require()` of a built in package is a builtin use.
    fn visit_call(&mut self, n: &CallExpr, scope: &mut Scope)
        requires
            builder_wf(*old(self)),
        ensures
            visit_ok(*old(self), *final(self), *old(scope), *final(scope)),
            state_of(*final(self), *final(scope)) == args_eff(
                n.args@,
                old(self).ignore_node_global,
                match n.callee {
                    ExprOrSuper::Expr(e) => expr_eff(*e, old(self).ignore_node_global, state_of(*old(self), *old(scope))),
                    ExprOrSuper::Super => state_of(*old(self), *old(scope)),
                },
            ),
        decreases n, 0nat,
    {
        if let ExprOrSuper::Expr(callee) = &n.callee {
            self.visit_expr(callee, scope);
        }
        let ghost (b1, s1) = (*self, *scope);
        assert(decreases_to!(*n => n.args));
        self.visit_args(&n.args, scope);
        proof {
            lemma_visit_ok_trans(*old(self), b1, *self, *old(scope), s1, *scope);
        }
    }

    /// Visit the arguments of a call.
    fn visit_args(&mut self, args: &Vec<Expr>, scope: &mut Scope)
        requires
            builder_wf(*old(self)),
        ensures
            visit_ok(*old(self), *final(self), *old(scope), *final(scope)),
            state_of(*final(self), *final(scope)) == args_eff(
                args@,
                old(self).ignore_node_global,
                state_of(*old(self), *old(scope)),
            ),
        decreases args, 0nat,
    {
        let ghost ig = self.ignore_node_global;
        let ghost st0 = state_of(*self, *scope);
        let mut i: usize = 0;
        while i < args.len()
            invariant
                i <= args@.len(),
                visit_ok(*old(self), *self, *old(scope), *scope),
                self.ignore_node_global == ig,
                state_of(*self, *scope) == args_eff(args@.take(i as int), ig, st0),
            decreases args@.len() - i,
        {
            proof {
                assert(decreases_to!(*args => args[i as int]));
                let t = args@.take(i as int + 1);
                assert(t.subrange(0, t.len() - 1) =~= args@.take(i as int));
                assert(t[t.len() - 1] == args@[i as int]);
            }
            let arg = &args[i];
            let ghost (b1, s1) = (*self, *scope);
            self.visit_expr(arg, scope);
            if let Some(dynamic_call) = is_require_expr(arg) {
                if is_core_package(dynamic_call.arg.as_str()) {
                    let ghost b2 = *self;
                    self.insert_side_effect_builtin(&dynamic_call);
                    proof {
                        lemma_builder_grows_trans(b1, b2, *self);
                    }
                }
            }
            proof {
                lemma_visit_ok_trans(*old(self), b1, *self, *old(scope), s1, *scope);
            }
            i = i + 1;
        }
        assert(args@.take(args@.len() as int) =~= args@);
    }

    /// Visit the callee and arguments of a `new` expression.
    fn visit_new(&mut self, n: &NewExpr, scope: &mut Scope)
        requires
            builder_wf(*old(self)),
        ensures
            visit_ok(*old(self), *final(self), *old(scope), *final(scope)),
            state_of(*final(self), *final(scope)) == match n.args {
                Some(args) => args_eff(
                    args@,
                    old(self).ignore_node_global,
                    expr_eff(*n.callee, old(self).ignore_node_global, state_of(*old(self), *old(scope))),
                ),
                None => expr_eff(*n.callee, old(self).ignore_node_global, state_of(*old(self), *old(scope))),
            },
        decreases n, 0nat,
    {
        self.visit_expr(&n.callee, scope);
        let ghost (b1, s1) = (*self, *scope);
        if let Some(args) = &n.args {
            self.visit_args(args, scope);
            proof {
                lemma_visit_ok_trans(*old(self), b1, *self, *old(scope), s1, *scope);
            }
        }
    }

    /// Visit each expression of a list.
    fn visit_exprs(&mut self, exprs: &Vec<Expr>, scope: &mut Scope)
        requires
            builder_wf(*old(self)),
        ensures
            visit_ok(*old(self), *final(self), *old(scope), *final(scope)),
            state_of(*final(self), *final(scope)) == exprs_eff(
                exprs@,
                old(self).ignore_node_global,
                state_of(*old(self), *old(scope)),
            ),
        decreases exprs, 0nat,
    {
        let ghost ig = self.ignore_node_global;
        let ghost st0 = state_of(*self, *scope);
        let mut i: usize = 0;
        while i < exprs.len()
            invariant
                i <= exprs@.len(),
                visit_ok(*old(self), *self, *old(scope), *scope),
                self.ignore_node_global == ig,
                state_of(*self, *scope) == exprs_eff(exprs@.take(i as int), ig, st0),
            decreases exprs@.len() - i,
        {
            proof {
                assert(decreases_to!(*exprs => exprs[i as int]));
                let t = exprs@.take(i as int + 1);
                assert(t.subrange(0, t.len() - 1) =~= exprs@.take(i as int));
                assert(t[t.len() - 1] == exprs@[i as int]);
            }
            let ghost (b1, s1) = (*self, *scope);
            self.visit_expr(&exprs[i], scope);
            proof {
                lemma_visit_ok_trans(*old(self), b1, *self, *old(scope), s1, *scope);
            }
            i = i + 1;
        }
        assert(exprs@.take(exprs@.len() as int) =~= exprs@);
    }
}

/// Whether a word is a method of functions.
fn is_function_method(s: &String) -> (r: bool)
    ensures
        r <==> function_method(s@),
{
    str_eq(s.as_str(), "call") || str_eq(s.as_str(), "apply") || str_eq(s.as_str(), "bind") || str_eq(
        s.as_str(),
        "toSource",
    ) || str_eq(s.as_str(), "toString")
}

/// The private name of a symbol: its word with the `#` restored, so that it
/// does not shadow a symbol of the same word.
fn private_name_prefix(word: &String) -> (r: String)
    ensures
        r@ == "#"@ + word@,
{
    concat("#", word.as_str())
}

impl ScopeBuilder {
    /// Record the builtin use a reference to a symbol makes when it is a
    /// local of a builtin candidate.
    fn visit_builtin_ident(&mut self, sym: &String)
        requires
            builder_wf(*old(self)),
        ensures
            builder_wf(*final(self)),
            builder_grows(*old(self), *final(self)),
            forall|t: ScopeTree| #[trigger]
                builder_state(*final(self), t) == builtin_ident_effect(builder_state(*old(self), t), sym@),
    {
        if let Some((i, j)) = self.is_builtin_match(sym) {
            let builtin = &self.candidates[i];
            let source = builtin.source.clone();
            let mut words_key: Vec<String> = Vec::new();
            match &builtin.locals[j] {
                Local::Alias(_, alias) => {
                    words_key.push(source);
                    words_key.push(alias.clone());
                },
                _ => {
                    if source == *sym {
                        words_key.push(source);
                    } else if builtin.static_assign {
                        words_key.push(source);
                        words_key.push(sym.clone());
                    } else {
                        words_key.push(source);
                    }
                },
            }
            proof {
                let c = candidates_view(self.candidates@)[i as int];
                assert(c == self.candidates@[i as int]@);
                assert(c.locals[j as int] == self.candidates@[i as int].locals@[j as int]@);
                assert(words_view(words_key@) =~= ident_builtin_key(c, c.locals[j as int], sym@));
            }
            self.insert_builtin(words_key);
        }
    }

    /// Record the builtin use an assignment to a symbol makes when it is a
    /// local of a builtin candidate.
    fn visit_builtin_assign(&mut self, sym: &String)
        requires
            builder_wf(*old(self)),
        ensures
            builder_wf(*final(self)),
            builder_grows(*old(self), *final(self)),
            forall|t: ScopeTree| #[trigger]
                builder_state(*final(self), t) == builtin_assign_effect(builder_state(*old(self), t), sym@),
    {
        if let Some((i, j)) = self.is_builtin_match(sym) {
            let source = self.candidates[i].source.clone();
            let mut words_key: Vec<String> = Vec::new();
            match &self.candidates[i].locals[j] {
                Local::Named(word) => {
                    words_key.push(source);
                    words_key.push(word.clone());
                },
                Local::Default(_) => {
                    words_key.push(source);
                },
                Local::Alias(_, alias) => {
                    words_key.push(source);
                    words_key.push(alias.clone());
                },
            }
            proof {
                let c = candidates_view(self.candidates@)[i as int];
                assert(c == self.candidates@[i as int]@);
                assert(c.locals[j as int] == self.candidates@[i as int].locals@[j as int]@);
                assert(words_view(words_key@) =~= assign_builtin_key(c, c.locals[j as int]));
            }
            self.insert_builtin(words_key);
        }
    }

    /// Record the builtin use of a member expression whose first word is a
    /// local of a builtin candidate: the path starts with the module, and a
    /// trailing method of functions is dropped.
    fn visit_builtin_member(&mut self, member: &MemberExpr)
        requires
            builder_wf(*old(self)),
        ensures
            builder_wf(*final(self)),
            builder_grows(*old(self), *final(self)),
            forall|t: ScopeTree| #[trigger]
                builder_state(*final(self), t) == builtin_member_effect(builder_state(*old(self), t), *member),
    {
        let words = member_expr_words(member);
        let ghost ws = words_view(words@);
        if words.len() > 0 {
            if let Some((i, j)) = self.is_builtin_match(&words[0]) {
                let ghost c = candidates_view(self.candidates@)[i as int];
                let ghost l = c.locals[j as int];
                proof {
                    assert(c == self.candidates@[i as int]@);
                    assert(l == self.candidates@[i as int].locals@[j as int]@);
                }
                let source = self.candidates[i].source.clone();
                let is_default = match &self.candidates[i].locals[j] {
                    Local::Default(_) => true,
                    _ => false,
                };
                let mut words_key = words;
                if !(words_key[0] == source) {
                    if is_default {
                        words_key.remove(0);
                        assert(words_view(words_key@) =~= ws.drop_first());
                    }
                    let ghost mid = words_view(words_key@);
                    words_key.insert(0, source.clone());
                    assert(words_view(words_key@) =~= seq![source@] + mid);
                }
                let ghost qualified = words_view(words_key@);
                assert(qualified == if ws[0] != c.source {
                    seq![c.source] + if l is Default {
                        ws.drop_first()
                    } else {
                        ws
                    }
                } else {
                    ws
                });
                if let Local::Alias(_, alias) = &self.candidates[i].locals[j] {
                    words_key = Vec::new();
                    words_key.push(source.clone());
                    words_key.push(alias.clone());
                    assert(words_view(words_key@) =~= seq![c.source, l->Alias_1]);
                }
                let ghost key = words_view(words_key@);
                assert(key == match l {
                    LocalView::Alias(_, alias) => seq![c.source, alias],
                    _ => qualified,
                });
                assert(words_key@[0]@ == source@);
                let last = words_key.len() - 1;
                if is_function_method(&words_key[last]) {
                    proof {
                        if last == 0 {
                            lemma_core_not_function_method(source@);
                        }
                    }
                    words_key.pop();
                    assert(words_view(words_key@) =~= key.drop_last());
                }
                assert(words_view(words_key@) == member_builtin_key(ws, c, l));
                self.insert_builtin(words_key);
            }
        }
    }

    /// Record a candidate or a builtin use for an assignment whose right is
    /// a call to `require()` of a built in package: an assignment to
    /// `module.exports` re-exports the module, an assignment to a symbol
    /// binds it.
    fn visit_assign_require(&mut self, left: &PatOrExpr, right: &Expr)
        requires
            builder_wf(*old(self)),
        ensures
            builder_wf(*final(self)),
            builder_grows(*old(self), *final(self)),
            forall|t: ScopeTree| #[trigger]
                builder_state(*final(self), t) == assign_require_effect(builder_state(*old(self), t), *left, *right),
    {
        if let Some(dynamic_call) = is_require_expr(right) {
            if is_core_package(dynamic_call.arg.as_str()) {
                let mut builtin = Builtin {
                    static_assign: false,
                    source: dynamic_call.arg.clone(),
                    locals: Vec::new(),
                };
                if is_module_exports(left) {
                    self.insert_side_effect_builtin(&dynamic_call);
                } else {
                    let target = match left {
                        PatOrExpr::Expr(expr) => match &**expr {
                            Expr::Ident(n) => Some(n),
                            _ => None,
                        },
                        PatOrExpr::Pat(pat) => match &**pat {
                            Pat::Ident(ident) => Some(ident),
                            _ => None,
                        },
                    };
                    assert(target matches Some(name) ==> target_name(*left) == Some(name@));
                    assert(target is None ==> target_name(*left) is None);
                    if let Some(name) = target {
                        let local = if let Some(member) = &dynamic_call.member {
                            Local::Alias(dynamic_call.arg.clone(), member.clone())
                        } else {
                            Local::Named(name.clone())
                        };
                        builtin.locals.push(local);
                    }
                    proof {
                        let expected = match target_name(*left) {
                            Some(name) => seq![
                                match call_view(dynamic_call).1 {
                                    Some(mm) => LocalView::Alias(call_view(dynamic_call).0, mm),
                                    None => LocalView::Named(name),
                                },
                            ],
                            None => Seq::empty(),
                        };
                        assert(locals_view(builtin.locals@) =~= expected);
                        lemma_candidates_push(self.candidates@, builtin);
                        assert(builtin@ == (BuiltinView {
                            static_assign: false,
                            source: call_view(dynamic_call).0,
                            locals: expected,
                        }));
                    }
                    self.candidates.push(builtin);
                    proof {
                        assert forall|t: ScopeTree| #[trigger]
                            builder_state(*self, t) == assign_require_effect(
                                builder_state(*old(self), t),
                                *left,
                                *right,
                            ) by {
                            assert(!assigns_module_exports(*left));
                            assert(call_module(*right, "require"@) == Some(call_view(dynamic_call)));
                        }
                    }
                }
            }
        }
    }

    /// Visit an expression.
    fn visit_expr(&mut self, n: &Expr, scope: &mut Scope)
        requires
            builder_wf(*old(self)),
        ensures
            visit_ok(*old(self), *final(self), *old(scope), *final(scope)),
            state_of(*final(self), *final(scope)) == expr_eff(
                *n,
                old(self).ignore_node_global,
                state_of(*old(self), *old(scope)),
            ),
        decreases n, 0nat,
    {
        let ghost ig = self.ignore_node_global;
        let ghost st0 = state_of(*self, *scope);
        match n {
            Expr::Ident(sym) => {
                self.insert_ident(sym.clone(), scope, None);
                let ghost t1 = scope_tree(*scope);
                self.visit_builtin_ident(sym);
                assert(builder_state(*self, t1) == builtin_ident_effect(builder_state(*old(self), t1), sym@));
            },
            Expr::PrivateName(sym) => {
                self.insert_ident(private_name_prefix(sym), scope, None);
            },
            Expr::Bin(left, right) => {
                self.visit_expr(left, scope);
                let ghost (b1, s1) = (*self, *scope);
                self.visit_expr(right, scope);
                proof {
                    lemma_visit_ok_trans(*old(self), b1, *self, *old(scope), s1, *scope);
                }
            },
            Expr::Tpl(exprs) => {
                self.visit_exprs(exprs, scope);
            },
            Expr::TaggedTpl(tag, exprs) => {
                self.visit_expr(tag, scope);
                let ghost (b1, s1) = (*self, *scope);
                self.visit_exprs(exprs, scope);
                proof {
                    lemma_visit_ok_trans(*old(self), b1, *self, *old(scope), s1, *scope);
                }
            },
            Expr::Sequence(exprs) => {
                self.visit_exprs(exprs, scope);
            },
            Expr::Array(elems) => {
                let mut i: usize = 0;
                assert(decreases_to!(*n => *elems));
                while i < elems.len()
                    invariant
                        decreases_to!(*n => *elems),
                        i <= elems@.len(),
                        visit_ok(*old(self), *self, *old(scope), *scope),
                        self.ignore_node_global == ig,
                        state_of(*self, *scope) == opt_exprs_eff(elems@.take(i as int), ig, st0),
                    decreases elems@.len() - i,
                {
                    proof {
                        assert(decreases_to!(*elems => elems[i as int]));
                        let t = elems@.take(i as int + 1);
                        assert(t.subrange(0, t.len() - 1) =~= elems@.take(i as int));
                        assert(t[t.len() - 1] == elems@[i as int]);
                    }
                    let ghost (b1, s1) = (*self, *scope);
                    if let Some(elem) = &elems[i] {
                        self.visit_expr(elem, scope);
                        proof {
                            lemma_visit_ok_trans(*old(self), b1, *self, *old(scope), s1, *scope);
                        }
                    }
                    i = i + 1;
                }
                assert(elems@.take(elems@.len() as int) =~= elems@);
            },
            Expr::Object(props) => {
                let mut i: usize = 0;
                assert(decreases_to!(*n => *props));
                while i < props.len()
                    invariant
                        decreases_to!(*n => *props),
                        i <= props@.len(),
                        visit_ok(*old(self), *self, *old(scope), *scope),
                        self.ignore_node_global == ig,
                        state_of(*self, *scope) == props_eff(props@.take(i as int), ig, st0),
                    decreases props@.len() - i,
                {
                    proof {
                        assert(decreases_to!(*props => props[i as int]));
                        let t = props@.take(i as int + 1);
                        assert(t.subrange(0, t.len() - 1) =~= props@.take(i as int));
                        assert(t[t.len() - 1] == props@[i as int]);
                    }
                    let ghost (b1, s1) = (*self, *scope);
                    match &props[i] {
                        PropOrSpread::Spread(e) => {
                            self.visit_expr(e, scope);
                        },
                        PropOrSpread::Shorthand(id) => {
                            self.insert_ident(id.clone(), scope, None);
                        },
                        PropOrSpread::KeyValue(_, value) => {
                            self.visit_expr(value, scope);
                        },
                        PropOrSpread::Method(..) | PropOrSpread::Other => {},
                    }
                    proof {
                        lemma_visit_ok_trans(*old(self), b1, *self, *old(scope), s1, *scope);
                    }
                    i = i + 1;
                }
                assert(props@.take(props@.len() as int) =~= props@);
            },
            Expr::Paren(e) => {
                self.visit_expr(e, scope);
            },
            Expr::Yield(arg) => {
                if let Some(arg) = arg {
                    self.visit_expr(arg, scope);
                }
            },
            Expr::Cond(test, cons, alt) => {
                self.visit_expr(test, scope);
                let ghost (b1, s1) = (*self, *scope);
                self.visit_expr(cons, scope);
                let ghost (b2, s2) = (*self, *scope);
                self.visit_expr(alt, scope);
                proof {
                    lemma_visit_ok_trans(*old(self), b1, b2, *old(scope), s1, s2);
                    lemma_visit_ok_trans(*old(self), b2, *self, *old(scope), s2, *scope);
                }
            },
            Expr::Await(arg) => {
                self.visit_expr(arg, scope);
            },
            Expr::Arrow(f) => {
                self.visit_arrow(f, scope);
            },
            Expr::Call(call) => {
                self.visit_call(call, scope);
            },
            Expr::Update(arg) => {
                self.visit_expr(arg, scope);
            },
            Expr::Unary(arg) => {
                self.visit_expr(arg, scope);
            },
            Expr::Assign(left, right) => {
                match left {
                    PatOrExpr::Expr(expr) => {
                        self.visit_expr(expr, scope);
                    },
                    PatOrExpr::Pat(pat) => match &**pat {
                        Pat::Ident(ident) => {
                            self.visit_builtin_assign(ident);
                            let ghost sa = state_of(*self, *scope);
                            assert(sa == builtin_assign_effect(st0, ident@));
                            self.insert_ident(ident.clone(), scope, None);
                        },
                        Pat::Expr(expr) => {
                            self.visit_expr(expr, scope);
                        },
                        _ => {},
                    },
                }
                let ghost (b1, s1) = (*self, *scope);
                let ghost st1 = state_of(*self, *scope);
                assert(st1 == match left {
                    PatOrExpr::Expr(e) => expr_eff(**e, ig, st0),
                    PatOrExpr::Pat(p) => match &**p {
                        Pat::Ident(id) => with_ref(builtin_assign_effect(st0, id@), ig, id@, None),
                        Pat::Expr(e) => expr_eff(**e, ig, st0),
                        _ => st0,
                    },
                });
                self.visit_expr(right, scope);
                let ghost (b2, s2) = (*self, *scope);
                let ghost t2 = scope_tree(*scope);
                self.visit_assign_require(left, right);
                proof {
                    lemma_visit_ok_trans(*old(self), b1, b2, *old(scope), s1, s2);
                    lemma_builder_grows_trans(*old(self), b2, *self);
                    assert(builder_state(*self, t2) == assign_require_effect(builder_state(b2, t2), *left, **right));
                }
            },
            Expr::OptChain(e) => {
                self.visit_expr(e, scope);
            },
            Expr::Member(member) => {
                let members = self.compute_member(member, scope);
                let ghost (b1, s1) = (*self, *scope);
                let ghost refs = refs_view(members@);
                let ghost st1 = state_of(*self, *scope);
                let mut i: usize = 0;
                while i < members.len()
                    invariant
                        i <= members@.len(),
                        *self == b1,
                        scope_grows(s1, *scope),
                        refs == refs_view(members@),
                        state_of(*self, *scope) == with_path_refs(st1, ig, refs.take(i as int)),
                        self.ignore_node_global == ig,
                    decreases members@.len() - i,
                {
                    let ghost s2 = *scope;
                    let (word, parts) = &members[i];
                    let copy = copy_words(parts);
                    self.insert_ident(word.clone(), scope, Some(copy));
                    proof {
                        lemma_scope_grows_trans(s1, s2, *scope);
                        let t = refs.take(i as int + 1);
                        assert(t.drop_last() =~= refs.take(i as int));
                        assert(t.last() == (word@, words_view(parts@)));
                    }
                    i = i + 1;
                }
                assert(refs.take(refs.len() as int) =~= refs);
                proof {
                    lemma_scope_grows_trans(*old(scope), s1, *scope);
                }
                if is_require_expr(n).is_none() {
                    let ghost t2 = scope_tree(*scope);
                    let ghost b2 = *self;
                    self.visit_builtin_member(member);
                    proof {
                        lemma_builder_grows_trans(*old(self), b1, *self);
                        assert(builder_state(*self, t2) == builtin_member_effect(builder_state(b2, t2), *member));
                    }
                }
            },
            Expr::New(e) => {
                self.visit_new(e, scope);
            },
            Expr::Fn(ident, f) => {
                let locals = match ident {
                    Some(id) => Some(single_local(id)),
                    None => None,
                };
                assert(opt_names(locals) == own_name(*ident));
                self.visit_function(f, scope, locals);
            },
            Expr::Class(ident, c) => {
                let locals = match ident {
                    Some(id) => Some(single_local(id)),
                    None => None,
                };
                assert(opt_names(locals) == own_name(*ident));
                self.visit_class(c, scope, locals);
            },
            _ => {},
        }
    }

    /// The symbol paths a member expression references: the paths of the
    /// member expressions nested in its parenthesized leaves, then its own
    /// path of leading words.
    fn compute_member(&mut self, n: &MemberExpr, scope: &mut Scope) -> (r: Vec<(String, Vec<String>)>)
        requires
            builder_wf(*old(self)),
        ensures
            visit_ok(*old(self), *final(self), *old(scope), *final(scope)),
            (refs_view(r@), state_of(*final(self), *final(scope))) == member_refs(
                *n,
                old(self).ignore_node_global,
                state_of(*old(self), *old(scope)),
            ),
        decreases n, 3nat,
    {
        let ghost ig = self.ignore_node_global;
        let ghost st0 = state_of(*self, *scope);
        let mut members: Vec<(String, Vec<String>)> = Vec::new();
        if let ExprOrSuper::Super = &n.obj {
            assert(refs_view(members@) =~= Seq::<(Seq<char>, Seq<Seq<char>>)>::empty());
            return members;
        }
        let mut expressions: Vec<&Expr> = Vec::new();
        walk(n, &mut expressions);
        let ghost leaves = member_leaves(*n);
        assert(targets(expressions@) =~= leaves);
        let mut start: usize = 0;
        if expressions.len() > 0 {
            assert(*expressions[0] == leaves[0]);
            match expressions[0] {
                Expr::This => {
                    assert(refs_view(members@) =~= Seq::<(Seq<char>, Seq<Seq<char>>)>::empty());
                    return members;
                },
                Expr::Ident(id) => {
                    if str_eq(id.as_str(), "globalThis") {
                        start = 1;
                    }
                },
                _ => {
                    self.compute_member_nested_expression(n, &expressions, scope);
                    let ghost (b1, s1) = (*self, *scope);
                    members = self.compute_member_nested_members(n, &expressions, scope);
                    proof {
                        lemma_visit_ok_trans(*old(self), b1, *self, *old(scope), s1, *scope);
                    }
                },
            }
        }
        let ghost pre = (refs_view(members@), state_of(*self, *scope));
        assert(pre == if leaves.len() > 0 && !(leaves[0] is Ident) {
            nested_members_pass(*n, 0, ig, nested_pass(*n, 0, ig, st0))
        } else {
            (Seq::empty(), st0)
        });
        assert(start == if leaves.len() > 0 && match leaves[0] {
            Expr::Ident(id) => id@ == "globalThis"@,
            _ => false,
        } {
            1usize
        } else {
            0usize
        });
        let ghost (b3, s3) = (*self, *scope);
        let words = self.compute_member_words(n, &expressions, start, scope);
        let ghost before = members@;
        if let Some(member_expr) = words {
            members.push(member_expr);
        }
        proof {
            lemma_visit_ok_trans(*old(self), b3, *self, *old(scope), s3, *scope);
            let w = words_pass(*n, start as int, ig, pre.1);
            assert(refs_view(members@) =~= pre.0 + if w.0.len() > 0 {
                seq![(w.0[0], w.0.drop_first())]
            } else {
                Seq::empty()
            });
        }
        members
    }

    /// Visit the parenthesized leaves and function leaves of a member
    /// expression: the references of a parenthesized leaf, and a function
    /// leaf in a scope of its own.
    fn compute_member_nested_expression<'a>(&mut self, n: &'a MemberExpr, expressions: &Vec<&'a Expr>, scope: &mut Scope)
        requires
            builder_wf(*old(self)),
            targets(expressions@) == member_leaves(*n),
            forall|k: int| 0 <= k < expressions@.len() ==> decreases_to!(*n => *expressions@[k]),
        ensures
            visit_ok(*old(self), *final(self), *old(scope), *final(scope)),
            state_of(*final(self), *final(scope)) == nested_pass(
                *n,
                0,
                old(self).ignore_node_global,
                state_of(*old(self), *old(scope)),
            ),
        decreases n, 1nat,
    {
        let ghost ig = self.ignore_node_global;
        let ghost goal = nested_pass(*n, 0, ig, state_of(*self, *scope));
        let mut i: usize = 0;
        while i < expressions.len()
            invariant
                i <= expressions@.len(),
                targets(expressions@) == member_leaves(*n),
                forall|k: int| 0 <= k < expressions@.len() ==> decreases_to!(*n => *expressions@[k]),
                visit_ok(*old(self), *self, *old(scope), *scope),
                self.ignore_node_global == ig,
                goal == nested_pass(*n, i as int, ig, state_of(*self, *scope)),
            decreases expressions@.len() - i,
        {
            let expr: &Expr = expressions[i];
            assert(*expr == member_leaves(*n)[i as int]);
            let ghost (b1, s1) = (*self, *scope);
            match expr {
                Expr::Paren(inner) => {
                    self.visit_nested_expression(inner, scope);
                },
                Expr::Fn(ident, f) => {
                    let locals = match ident {
                        Some(id) => Some(single_local(id)),
                        None => None,
                    };
                    assert(opt_names(locals) == own_name(*ident));
                    self.visit_function(f, scope, locals);
                },
                _ => {},
            }
            proof {
                lemma_visit_ok_trans(*old(self), b1, *self, *old(scope), s1, *scope);
            }
            i = i + 1;
        }
    }

    /// The symbol paths of the member expressions nested in the
    /// parenthesized leaves of a member expression, in order.
    fn compute_member_nested_members<'a>(&mut self, n: &'a MemberExpr, expressions: &Vec<&'a Expr>, scope: &mut Scope) -> (r: Vec<(String, Vec<String>)>)
        requires
            builder_wf(*old(self)),
            targets(expressions@) == member_leaves(*n),
            forall|k: int| 0 <= k < expressions@.len() ==> decreases_to!(*n => *expressions@[k]),
        ensures
            visit_ok(*old(self), *final(self), *old(scope), *final(scope)),
            (refs_view(r@), state_of(*final(self), *final(scope))) == nested_members_pass(
                *n,
                0,
                old(self).ignore_node_global,
                state_of(*old(self), *old(scope)),
            ),
        decreases n, 1nat,
    {
        let ghost ig = self.ignore_node_global;
        let ghost goal = nested_members_pass(*n, 0, ig, state_of(*self, *scope));
        let mut members: Vec<(String, Vec<String>)> = Vec::new();
        let mut i: usize = 0;
        while i < expressions.len()
            invariant
                i <= expressions@.len(),
                targets(expressions@) == member_leaves(*n),
                forall|k: int| 0 <= k < expressions@.len() ==> decreases_to!(*n => *expressions@[k]),
                visit_ok(*old(self), *self, *old(scope), *scope),
                self.ignore_node_global == ig,
                goal == (
                    refs_view(members@) + nested_members_pass(*n, i as int, ig, state_of(*self, *scope)).0,
                    nested_members_pass(*n, i as int, ig, state_of(*self, *scope)).1,
                ),
            decreases expressions@.len() - i,
        {
            let expr: &Expr = expressions[i];
            assert(*expr == member_leaves(*n)[i as int]);
            let ghost (b1, s1) = (*self, *scope);
            let ghost before = refs_view(members@);
            match expr {
                Expr::Paren(inner) => {
                    let mut found = self.visit_nested_members(inner, scope);
                    let ghost more = refs_view(found@);
                    members.append(&mut found);
                    assert(refs_view(members@) =~= before + more);
                },
                _ => {},
            }
            proof {
                lemma_visit_ok_trans(*old(self), b1, *self, *old(scope), s1, *scope);
            }
            i = i + 1;
        }
        members
    }

    /// The symbol paths of the member expressions nested in an expression of
    /// a parenthesized leaf: binary operands and parentheses are walked.
    fn visit_nested_members(&mut self, n: &Expr, scope: &mut Scope) -> (r: Vec<(String, Vec<String>)>)
        requires
            builder_wf(*old(self)),
        ensures
            visit_ok(*old(self), *final(self), *old(scope), *final(scope)),
            (refs_view(r@), state_of(*final(self), *final(scope))) == nested_members(
                *n,
                old(self).ignore_node_global,
                state_of(*old(self), *old(scope)),
            ),
        decreases n, 0nat,
    {
        match n {
            Expr::Bin(left, right) => {
                let mut a = self.visit_nested_members(left, scope);
                let ghost (b1, s1) = (*self, *scope);
                let mut b = self.visit_nested_members(right, scope);
                let ghost ra = refs_view(a@);
                let ghost rb = refs_view(b@);
                a.append(&mut b);
                proof {
                    lemma_visit_ok_trans(*old(self), b1, *self, *old(scope), s1, *scope);
                    assert(refs_view(a@) =~= ra + rb);
                }
                a
            },
            Expr::Paren(inner) => self.visit_nested_members(inner, scope),
            Expr::Member(m) => self.compute_member(m, scope),
            _ => {
                let r: Vec<(String, Vec<String>)> = Vec::new();
                assert(refs_view(r@) =~= Seq::<(Seq<char>, Seq<Seq<char>>)>::empty());
                r
            },
        }
    }

    /// Visit an expression nested in a parenthesized leaf: identifiers are
    /// references, binary operands and parentheses are walked.
    fn visit_nested_expression(&self, n: &Expr, scope: &mut Scope)
        ensures
            scope_grows(*old(scope), *final(scope)),
            state_of(*self, *final(scope)) == nested_idents(*n, self.ignore_node_global, state_of(*self, *old(scope))),
        decreases n,
    {
        match n {
            Expr::Ident(sym) => {
                self.insert_ident(sym.clone(), scope, None);
            },
            Expr::Bin(left, right) => {
                self.visit_nested_expression(left, scope);
                let ghost s1 = *scope;
                self.visit_nested_expression(right, scope);
                proof {
                    lemma_scope_grows_trans(*old(scope), s1, *scope);
                }
            },
            Expr::Paren(e) => {
                self.visit_nested_expression(e, scope);
            },
            _ => {},
        }
    }

    /// The leading words of a member expression's leaves from `start` on:
    /// identifiers, and a first call whose callee is an identifier or a
    /// member expression (whose paths are taken whole); the first word and
    /// the rest.
    fn compute_member_words(&mut self, n: &MemberExpr, expressions: &Vec<&Expr>, start: usize, scope: &mut Scope) -> (r:
        Option<(String, Vec<String>)>)
        requires
            builder_wf(*old(self)),
            targets(expressions@) == member_leaves(*n),
            forall|k: int| 0 <= k < expressions@.len() ==> decreases_to!(*n => *expressions@[k]),
        ensures
            visit_ok(*old(self), *final(self), *old(scope), *final(scope)),
            ({
                let w = words_pass(*n, start as int, old(self).ignore_node_global, state_of(*old(self), *old(scope)));
                &&& state_of(*final(self), *final(scope)) == w.1
                &&& r is None <==> w.0.len() == 0
                &&& r matches Some((first, rest)) ==> first@ == w.0[0] && words_view(rest@) == w.0.drop_first()
            }),
        decreases n, 1nat,
    {
        let ghost ig = self.ignore_node_global;
        let ghost goal = words_pass(*n, start as int, ig, state_of(*self, *scope));
        let mut words: Vec<String> = Vec::new();
        let mut done = false;
        let mut i: usize = start;
        while i < expressions.len() && !done
            invariant
                targets(expressions@) == member_leaves(*n),
                forall|k: int| 0 <= k < expressions@.len() ==> decreases_to!(*n => *expressions@[k]),
                visit_ok(*old(self), *self, *old(scope), *scope),
                self.ignore_node_global == ig,
                start <= i,
                !done ==> goal == (
                    words_view(words@) + words_pass(*n, i as int, ig, state_of(*self, *scope)).0,
                    words_pass(*n, i as int, ig, state_of(*self, *scope)).1,
                ),
                done ==> goal == (words_view(words@), state_of(*self, *scope)),
            decreases expressions@.len() - i, if done {
                0int
            } else {
                1int
            },
        {
            let expr: &Expr = expressions[i];
            assert(*expr == member_leaves(*n)[i as int]);
            let ghost before = words_view(words@);
            let ghost cur = state_of(*self, *scope);
            match expr {
                Expr::Ident(id) => {
                    words.push(id.clone());
                    assert(words_view(words@) =~= before + seq![id@]);
                    let ghost rest = words_pass(*n, i as int + 1, ig, cur);
                    assert(before + (seq![id@] + rest.0) =~= words_view(words@) + rest.0);
                    i = i + 1;
                },
                Expr::Call(call) => {
                    if let ExprOrSuper::Expr(callee) = &call.callee {
                        match &**callee {
                            Expr::Ident(id) => {
                                words.push(id.clone());
                                assert(words_view(words@) =~= before + seq![id@]);
                            },
                            Expr::Member(m) => {
                                let ghost (b1, s1) = (*self, *scope);
                                let computed = self.compute_member(m, scope);
                                proof {
                                    lemma_visit_ok_trans(*old(self), b1, *self, *old(scope), s1, *scope);
                                }
                                let ghost refs = refs_view(computed@);
                                let mut j: usize = 0;
                                while j < computed.len()
                                    invariant
                                        j <= computed@.len(),
                                        refs == refs_view(computed@),
                                        words_view(words@) == before + flat_words(refs.take(j as int)),
                                    decreases computed@.len() - j,
                                {
                                    let (word, parts) = &computed[j];
                                    let ghost w0 = words_view(words@);
                                    words.push(word.clone());
                                    let mut rest = copy_words(parts);
                                    let ghost rv = words_view(rest@);
                                    words.append(&mut rest);
                                    proof {
                                        assert(words_view(words@) =~= w0 + seq![word@] + rv);
                                        let t = refs.take(j as int + 1);
                                        assert(t.drop_last() =~= refs.take(j as int));
                                        assert(t.last() == (word@, words_view(parts@)));
                                        assert(words_view(words@) =~= before + flat_words(t));
                                    }
                                    j = j + 1;
                                }
                                assert(refs.take(refs.len() as int) =~= refs);
                            },
                            _ => {
                                assert(words_view(words@) =~= before + Seq::<Seq<char>>::empty());
                            },
                        }
                    } else {
                        assert(words_view(words@) =~= before + Seq::<Seq<char>>::empty());
                    }
                    done = true;
                },
                _ => {
                    assert(words_view(words@) =~= before + Seq::<Seq<char>>::empty());
                    done = true;
                },
            }
        }
        proof {
            if !done {
                assert(words_pass(*n, i as int, ig, state_of(*self, *scope)).0 =~= Seq::<Seq<char>>::empty());
                assert(words_view(words@) + Seq::<Seq<char>>::empty() =~= words_view(words@));
            }
        }
        if words.len() == 0 {
            None
        } else {
            let ghost all = words_view(words@);
            let first = words.remove(0);
            assert(words_view(words@) =~= all.drop_first());
            Some((first, words))
        }
    }
}

} // verus!
