//! The module graph reached from an entry point, and the depth-first walk
//! that visits the dependencies of its modules.
//!
//! A module is loaded the first time the walk meets it; its dependencies
//! then leave out the modules that were loaded before it, so that a module
//! graph with shared dependencies is not walked again and again.
use vstd::prelude::*;

use crate::analysis::dependencies::{is_core_package, latest_core_package};

verus! {

/// Where the resolver sent an import specifier.
pub enum Resolved {
    /// A file on disk, by its index in the graph.
    File(usize),
    /// A name that is not a file on disk.
    Custom(String),
    /// Any other kind of file name.
    Other,
}

/// A file of the module graph.
pub enum GraphFile {
    /// A JavaScript module and its import specifiers, each with where it
    /// resolved to.
    Module(Vec<(String, Resolved)>),
    /// A JSON module.
    Json,
    /// A module that could not be read, parsed or resolved, with the reason.
    Failed(String),
}

/// The files reachable from an entry point, each with its path.
pub struct ModuleGraph {
    /// The path of each file.
    pub paths: Vec<String>,
    /// The content of each file.
    pub files: Vec<GraphFile>,
}

/// Stores the branch state for the tree printer.
#[derive(Debug, Clone, Copy)]
pub struct BranchState {
    /// Determine if this node is the last child
    /// of it's parent.
    pub last: bool,
}

/// Represents a visited dependency.
pub struct VisitedDependency {
    /// The dependency specifier.
    pub spec: String,
    /// The file name for the dependency.
    pub file_name: String,
    /// The path of the file, when the dependency resolved to a file on disk.
    pub path: Option<String>,
    /// Whether this dependency is the last child.
    pub last: bool,
    /// The stack of branch states, the last one for this dependency.
    pub open: Vec<BranchState>,
    /// The file name of the parent that closes a cycle, if there is one.
    pub cycle: Option<String>,
}

/// What a walk of the module graph gives: the dependencies in the order in
/// which they were visited, the paths of the modules loaded in the order in
/// which they were loaded, and the reason the walk stopped early, if it did.
pub struct WalkResult {
    /// The visited dependencies.
    pub dependencies: Vec<VisitedDependency>,
    /// The paths of the loaded modules.
    pub modules: Vec<String>,
    /// Why a module could not be loaded.
    pub error: Option<String>,
}

/// The index of every resolved file is in the graph, and no two files
/// share a path.
pub open spec fn graph_wf(g: ModuleGraph) -> bool {
    &&& g.paths@.len() == g.files@.len()
    &&& forall|x: int, k: int|
        0 <= x < g.files@.len() && 0 <= k < file_deps(g.files@[x]).len() ==> ((#[trigger] file_deps(g.files@[x])[k]).1 matches Resolved::File(
            j,
        ) ==> j < g.files@.len())
    &&& forall|x: int, y: int|
        0 <= x < g.paths@.len() && 0 <= y < g.paths@.len() && x != y ==> (#[trigger] g.paths@[x])@ != (
        #[trigger] g.paths@[y])@
}

impl ModuleGraph {
    /// Whether the graph is well formed: a file for each path, every
    /// dependency that resolved to a file points into the graph, and no path
    /// is listed twice.
    pub fn well_formed(&self) -> (r: bool)
        ensures
            r == graph_wf(*self),
    {
        if self.paths.len() != self.files.len() {
            return false;
        }
        let n = self.files.len();
        let mut x: usize = 0;
        while x < n
            invariant
                n == self.files@.len(),
                n == self.paths@.len(),
                x <= n,
                forall|a: int, k: int|
                    0 <= a < x && 0 <= k < file_deps(self.files@[a]).len() ==> ((#[trigger] file_deps(
                        self.files@[a],
                    )[k]).1 matches Resolved::File(j) ==> j < n),
            decreases n - x,
        {
            if let GraphFile::Module(deps) = &self.files[x] {
                let mut k: usize = 0;
                while k < deps.len()
                    invariant
                        n == self.files@.len(),
                        x < n,
                        deps@ == file_deps(self.files@[x as int]),
                        k <= deps@.len(),
                        forall|a: int, kk: int|
                            0 <= a < x && 0 <= kk < file_deps(self.files@[a]).len() ==> ((#[trigger] file_deps(
                                self.files@[a],
                            )[kk]).1 matches Resolved::File(j) ==> j < n),
                        forall|kk: int| 0 <= kk < k ==> ((#[trigger] deps@[kk]).1 matches Resolved::File(j) ==> j < n),
                    decreases deps@.len() - k,
                {
                    if let Resolved::File(j) = &deps[k].1 {
                        if *j >= n {
                            assert(file_deps(self.files@[x as int])[k as int].1 matches Resolved::File(i) && i >= n);
                            return false;
                        }
                    }
                    k = k + 1;
                }
            }
            x = x + 1;
        }
        let mut a: usize = 0;
        while a < n
            invariant
                n == self.files@.len(),
                n == self.paths@.len(),
                a <= n,
                forall|p: int, k: int|
                    0 <= p < n && 0 <= k < file_deps(self.files@[p]).len() ==> ((#[trigger] file_deps(
                        self.files@[p],
                    )[k]).1 matches Resolved::File(j) ==> j < n),
                forall|p: int, q: int|
                    0 <= p < a && 0 <= q < n && p != q ==> (#[trigger] self.paths@[p])@ != (#[trigger] self.paths@[q])@,
            decreases n - a,
        {
            let mut b: usize = 0;
            while b < n
                invariant
                    n == self.paths@.len(),
                    a < n,
                    b <= n,
                    forall|q: int| 0 <= q < b && q != a ==> self.paths@[a as int]@ != (#[trigger] self.paths@[q])@,
                decreases n - b,
            {
                if b != a && crate::text::str_eq(self.paths[a].as_str(), self.paths[b].as_str()) {
                    assert(self.paths@[a as int]@ == self.paths@[b as int]@);
                    return false;
                }
                b = b + 1;
            }
            a = a + 1;
        }
        true
    }
}

/// The dependencies of a file: none unless it is a module.
pub open spec fn file_deps(f: GraphFile) -> Seq<(String, Resolved)> {
    match f {
        GraphFile::Module(deps) => deps@,
        _ => Seq::empty(),
    }
}

/// The number of loaded modules.
pub open spec fn count_loaded(cache: Seq<Option<(usize, Vec<usize>)>>) -> nat
    decreases cache.len(),
{
    if cache.len() == 0 {
        0
    } else {
        count_loaded(cache.drop_last()) + if cache.last() is Some {
            1nat
        } else {
            0nat
        }
    }
}

/// No more modules are loaded than there are files, and fewer while one is
/// not loaded.
proof fn lemma_count_loaded(cache: Seq<Option<(usize, Vec<usize>)>>, x: int)
    requires
        0 <= x < cache.len(),
    ensures
        count_loaded(cache) <= cache.len(),
        cache[x] is None ==> count_loaded(cache) < cache.len(),
    decreases cache.len(),
{
    lemma_count_loaded_bound(cache);
    if x < cache.len() - 1 {
        lemma_count_loaded(cache.drop_last(), x);
        assert(cache.drop_last()[x] == cache[x]);
    } else {
        lemma_count_loaded_bound(cache.drop_last());
    }
}

/// No more modules are loaded than there are files.
proof fn lemma_count_loaded_bound(cache: Seq<Option<(usize, Vec<usize>)>>)
    ensures
        count_loaded(cache) <= cache.len(),
    decreases cache.len(),
{
    if cache.len() > 0 {
        lemma_count_loaded_bound(cache.drop_last());
    }
}

/// Loading one more module adds one to the count.
proof fn lemma_count_loaded_update(cache: Seq<Option<(usize, Vec<usize>)>>, x: int, v: (usize, Vec<usize>))
    requires
        0 <= x < cache.len(),
        cache[x] is None,
    ensures
        count_loaded(cache.update(x, Some(v))) == count_loaded(cache) + 1,
    decreases cache.len(),
{
    let u = cache.update(x, Some(v));
    if x < cache.len() - 1 {
        assert(u.drop_last() =~= cache.drop_last().update(x, Some(v)));
        lemma_count_loaded_update(cache.drop_last(), x, v);
    } else {
        assert(u.drop_last() =~= cache.drop_last());
    }
}

/// Whether a path is one of the parents being walked.
pub open spec fn has_parent(parents: Seq<String>, p: Seq<char>) -> bool {
    exists|i: int| 0 <= i < parents.len() && (#[trigger] parents[i])@ == p
}

/// Growing the cache twice grows it.
proof fn lemma_cache_grows_trans(a: Walk, b: Walk, c: Walk)
    requires
        cache_grows(a, b),
        cache_grows(b, c),
    ensures
        cache_grows(a, c),
{
    assert forall|x: int| 0 <= x < a.cache@.len() && (#[trigger] a.cache@[x]) is Some implies c.cache@[x] == a.cache@[x] by {
        assert(b.cache@[x] == a.cache@[x]);
    }
    assert forall|r: int| 0 <= r < a.order@.len() implies (#[trigger] c.order@[r]) == a.order@[r] by {
        assert(b.order@[r] == a.order@[r]);
    }
}

/// The state of a walk.
struct Walk {
    /// For each file, once loaded as a module: its place in the load order
    /// and the indices of the dependencies kept at load time.
    cache: Vec<Option<(usize, Vec<usize>)>>,
    /// The files loaded, in order.
    order: Vec<usize>,
    /// The branch states of the dependencies being walked.
    open: Vec<BranchState>,
    /// The paths of the modules being walked.
    parents: Vec<String>,
    /// The dependencies visited so far.
    out: Vec<VisitedDependency>,
}

/// The load rank of a loaded file.
spec fn rank(w: Walk, x: int) -> int {
    w.cache@[x].unwrap().0 as int
}

/// What a walk keeps true of its cache: each loaded file is a module with
/// its rank in the load order, and every file kept among its dependencies
/// was not loaded before it.
spec fn walk_wf(w: Walk, g: ModuleGraph) -> bool {
    &&& w.cache@.len() == g.files@.len()
    &&& w.order@.len() == count_loaded(w.cache@)
    &&& forall|r: int|
        0 <= r < w.order@.len() ==> (#[trigger] w.order@[r]) < w.cache@.len() && w.cache@[w.order@[r] as int] is Some
            && rank(w, w.order@[r] as int) == r
    &&& forall|x: int|
        0 <= x < w.cache@.len() && (#[trigger] w.cache@[x]) is Some ==> {
            &&& g.files@[x] is Module
            &&& rank(w, x) < w.order@.len()
            &&& w.order@[rank(w, x)] == x
            &&& forall|t: int|
                0 <= t < w.cache@[x].unwrap().1@.len() ==> {
                    let k = (#[trigger] w.cache@[x].unwrap().1@[t]) as int;
                    &&& 0 <= k < file_deps(g.files@[x]).len()
                    &&& file_deps(g.files@[x])[k].1 matches Resolved::File(j) ==> (j == x || w.cache@[j as int] is None
                        || rank(w, j as int) > rank(w, x))
                }
        }
    &&& forall|d: int|
        0 <= d < w.out@.len() ==> dependency_wf(#[trigger] w.out@[d])
}

/// What holds of each visited dependency: its branch state is the last
/// one; a file on disk is named by its path; a dependency that is not a
/// file is a builtin package; a cycle is closed by the dependency's own
/// file.
pub open spec fn dependency_wf(d: VisitedDependency) -> bool {
    &&& d.open@.len() >= 1
    &&& d.open@.last().last == d.last
    &&& d.path matches Some(p) ==> p@ == d.file_name@
    &&& d.path is None ==> latest_core_package(d.file_name@)
    &&& d.cycle matches Some(c) ==> d.path is Some && c@ == d.file_name@
}

/// The cache grows: loaded files stay loaded with their rank and kept
/// dependencies.
spec fn cache_grows(a: Walk, b: Walk) -> bool {
    &&& a.cache@.len() == b.cache@.len()
    &&& forall|x: int| 0 <= x < a.cache@.len() && (#[trigger] a.cache@[x]) is Some ==> b.cache@[x] == a.cache@[x]
    &&& a.order@.len() <= b.order@.len()
    &&& forall|r: int| 0 <= r < a.order@.len() ==> (#[trigger] b.order@[r]) == a.order@[r]
}

/// Whether a message is the reason of a file that could not be loaded.
pub open spec fn failure_of(g: ModuleGraph, m: Seq<char>) -> bool {
    exists|x: int| 0 <= x < g.files@.len() && ((#[trigger] g.files@[x]) matches GraphFile::Failed(r) && r@ == m)
}

/// The content of a visited dependency.
pub struct DepView {
    /// The dependency specifier.
    pub spec: Seq<char>,
    /// The file name for the dependency.
    pub file_name: Seq<char>,
    /// The path of the file, for a file on disk.
    pub path: Option<Seq<char>>,
    /// Whether the dependency is the last child.
    pub last: bool,
    /// The branch states, as whether each is the last child.
    pub open: Seq<bool>,
    /// The file name of the parent that closes a cycle.
    pub cycle: Option<Seq<char>>,
}

/// The content of an optional string.
pub open spec fn opt_view(s: Option<String>) -> Option<Seq<char>> {
    match s {
        Some(v) => Some(v@),
        None => None,
    }
}

/// The reason carried by the result of a step of a walk.
pub open spec fn err_view(r: Result<(), String>) -> Option<Seq<char>> {
    match r {
        Ok(()) => None,
        Err(m) => Some(m@),
    }
}

/// The content of a visited dependency.
pub open spec fn dep_view(d: VisitedDependency) -> DepView {
    DepView {
        spec: d.spec@,
        file_name: d.file_name@,
        path: opt_view(d.path),
        last: d.last,
        open: d.open@.map_values(|b: BranchState| b.last),
        cycle: opt_view(d.cycle),
    }
}

/// The contents of a list of visited dependencies.
pub open spec fn deps_view(s: Seq<VisitedDependency>) -> Seq<DepView> {
    s.map_values(|d: VisitedDependency| dep_view(d))
}

/// The content of the state of a walk: for each file, once loaded as a
/// module, its place in the load order and the dependencies kept for it;
/// the files loaded in order; the branch states and the parents being
/// walked; the dependencies visited.
pub struct WalkView {
    /// The loaded files.
    pub cache: Seq<Option<(usize, Seq<usize>)>>,
    /// The load order.
    pub order: Seq<usize>,
    /// The branch states, as whether each is the last child.
    pub open: Seq<bool>,
    /// The paths of the parents.
    pub parents: Seq<Seq<char>>,
    /// The visited dependencies.
    pub out: Seq<DepView>,
}

/// The content of a walk.
spec fn walk_view(w: Walk) -> WalkView {
    WalkView {
        cache: w.cache@.map_values(
            |c: Option<(usize, Vec<usize>)>|
                match c {
                    Some(e) => Some((e.0, e.1@)),
                    None => None,
                },
        ),
        order: w.order@,
        open: w.open@.map_values(|b: BranchState| b.last),
        parents: w.parents@.map_values(|p: String| p@),
        out: deps_view(w.out@),
    }
}

/// A walk that has loaded nothing yet.
pub open spec fn initial_walk(n: nat) -> WalkView {
    WalkView {
        cache: Seq::new(n, |i: int| None),
        order: Seq::empty(),
        open: Seq::empty(),
        parents: Seq::empty(),
        out: Seq::empty(),
    }
}

/// The dependencies among the first `k` of a module that are kept when it
/// is loaded: those that do not resolve to a module loaded before.
pub open spec fn kept_deps(deps: Seq<(String, Resolved)>, cache: Seq<Option<(usize, Seq<usize>)>>, k: int) -> Seq<usize>
    decreases k,
{
    if k <= 0 {
        Seq::empty()
    } else {
        let prev = kept_deps(deps, cache, k - 1);
        match deps[k - 1].1 {
            Resolved::File(j) => if cache[j as int] is Some {
                prev
            } else {
                prev.push((k - 1) as usize)
            },
            _ => prev.push((k - 1) as usize),
        }
    }
}

/// The walk after loading a file, and the reason it could not be loaded:
/// a module not loaded yet is cached with its kept dependencies and takes
/// the next place in the load order.
pub open spec fn load_eff(g: ModuleGraph, x: int, st: WalkView) -> (WalkView, Option<Seq<char>>) {
    if st.cache[x] is Some {
        (st, None)
    } else {
        match g.files@[x] {
            GraphFile::Failed(m) => (st, Some(m@)),
            GraphFile::Json => (st, None),
            GraphFile::Module(deps) => (
                WalkView {
                    cache: st.cache.update(x, Some((st.order.len() as usize, kept_deps(deps@, st.cache, deps@.len() as int)))),
                    order: st.order.push(x as usize),
                    open: st.open,
                    parents: st.parents,
                    out: st.out,
                },
                None,
            ),
        }
    }
}

/// The walk with its last branch state dropped.
pub open spec fn pop_open(st: WalkView) -> WalkView {
    WalkView { cache: st.cache, order: st.order, open: st.open.drop_last(), parents: st.parents, out: st.out }
}

/// The measure of a walk into the dependencies of a loaded module.
pub open spec fn walk_measure(n: int, st: WalkView, node: int) -> int {
    2 * (n - st.cache[node].unwrap().0) + if st.parents.len() == 0 {
        1int
    } else {
        0int
    }
}

/// The walk after visiting the dependencies of a loaded module, depth
/// first, and the reason it stopped early, if it did.
pub open spec fn visit_all_eff(g: ModuleGraph, node: int, st: WalkView, fuel: int) -> (WalkView, Option<Seq<char>>)
    decreases fuel, 1int,
{
    match g.files@[node] {
        GraphFile::Module(deps) => {
            let kept = match st.cache[node] {
                Some(e) => e.1,
                None => Seq::empty(),
            };
            let st1 = WalkView {
                cache: st.cache,
                order: st.order,
                open: st.open.push(false),
                parents: st.parents,
                out: st.out,
            };
            deps_eff(g, node, kept, 0, st1, fuel)
        },
        _ => (st, None),
    }
}

/// The dependency visited for a kept dependency that resolved to a file
/// or a builtin package, and the module walked into when there is one.
pub open spec fn dep_step(g: ModuleGraph, d: (String, Resolved)) -> Option<(Seq<char>, Option<Seq<char>>, Option<usize>)> {
    match d.1 {
        Resolved::File(j) => Some(
            (
                g.paths@[j as int]@,
                Some(g.paths@[j as int]@),
                if g.files@[j as int] is Module {
                    Some(j)
                } else {
                    None
                },
            ),
        ),
        Resolved::Custom(name) => if latest_core_package(name@) {
            Some((name@, None, None))
        } else {
            None
        },
        Resolved::Other => None,
    }
}

/// The walk after loading the file a dependency resolved to, if it is a
/// file, and the reason the file could not be loaded.
pub open spec fn dep_load(g: ModuleGraph, d: (String, Resolved), st: WalkView) -> (WalkView, Option<Seq<char>>) {
    match d.1 {
        Resolved::File(j) => load_eff(g, j as int, st),
        _ => (st, None),
    }
}

/// The walk after recording a dependency, with the branch state of the
/// dependency set, and its file as the cycle when it is one of the parents.
pub open spec fn dep_record(
    d: (String, Resolved),
    sv: (Seq<char>, Option<Seq<char>>, Option<usize>),
    last: bool,
    st: WalkView,
) -> WalkView {
    let open = st.open.update(st.open.len() - 1, last);
    let cycle = match sv.1 {
        Some(p) => if st.parents.contains(p) {
            Some(p)
        } else {
            None
        },
        None => None,
    };
    WalkView {
        cache: st.cache,
        order: st.order,
        open,
        parents: st.parents,
        out: st.out.push(DepView { spec: d.0@, file_name: sv.0, path: sv.1, last, open, cycle }),
    }
}

/// Whether the walk goes into the module of a recorded dependency: it
/// closes no cycle and the module has kept dependencies.
pub open spec fn walks_into(sv: (Seq<char>, Option<Seq<char>>, Option<usize>), st: WalkView) -> bool {
    match sv.2 {
        Some(j) => st.out.last().cycle is None && st.cache[j as int] is Some && st.cache[j as int].unwrap().1.len() > 0,
        None => false,
    }
}

/// The walk with a parent added.
pub open spec fn push_parent(st: WalkView, p: Seq<char>) -> WalkView {
    WalkView { cache: st.cache, order: st.order, open: st.open, parents: st.parents.push(p), out: st.out }
}

/// The walk with its last parent dropped.
pub open spec fn pop_parent(st: WalkView) -> WalkView {
    WalkView { cache: st.cache, order: st.order, open: st.open, parents: st.parents.drop_last(), out: st.out }
}

/// The walk after visiting the kept dependencies of a module from the
/// `t`-th on: a dependency that resolves to a file loads it first; the
/// dependency is recorded with the branch states, its file as the cycle
/// when it is one of the parents; a module with kept dependencies that
/// closes no cycle is walked into; a dependency that is neither a file nor
/// a builtin package ends the list.
pub open spec fn deps_eff(g: ModuleGraph, node: int, kept: Seq<usize>, t: int, st: WalkView, fuel: int) -> (
    WalkView,
    Option<Seq<char>>,
)
    decreases fuel, 0int, kept.len() - t,
{
    let deps = file_deps(g.files@[node]);
    if t < 0 || t >= kept.len() || kept[t] as int >= deps.len() {
        (pop_open(st), None)
    } else {
        let d = deps[kept[t] as int];
        let l = dep_load(g, d, st);
        if l.1 is Some {
            l
        } else {
            match dep_step(g, d) {
                None => (pop_open(l.0), None),
                Some(sv) => {
                    let st2 = dep_record(d, sv, t == kept.len() - 1, l.0);
                    if walks_into(sv, st2) {
                        let j = sv.2.unwrap() as int;
                        let st3 = push_parent(st2, g.paths@[j]@);
                        let callee = walk_measure(g.files@.len() as int, st3, j);
                        if 0 <= callee < fuel {
                            let v = visit_all_eff(g, j, st3, callee);
                            if v.1 is Some {
                                v
                            } else {
                                deps_eff(g, node, kept, t + 1, pop_parent(v.0), fuel)
                            }
                        } else {
                            (st3, None)
                        }
                    } else {
                        deps_eff(g, node, kept, t + 1, st2, fuel)
                    }
                },
            }
        }
    }
}

/// The walk from an entry point and the reason it stopped early, if it
/// did: the entry is loaded, then, when it is a module, its dependencies
/// are visited.
pub open spec fn walk_outcome(g: ModuleGraph, entry: int) -> (WalkView, Option<Seq<char>>) {
    let l = load_eff(g, entry, initial_walk(g.files@.len()));
    if l.1 is Some {
        l
    } else if l.0.cache[entry] is Some {
        visit_all_eff(g, entry, l.0, walk_measure(g.files@.len() as int, l.0, entry))
    } else {
        l
    }
}

/// The content of the step of a walk for a dependency.
spec fn step_view(step: Option<(String, Option<String>, Option<usize>)>) -> Option<(Seq<char>, Option<Seq<char>>, Option<usize>)> {
    match step {
        Some((f, p, c)) => Some((f@, opt_view(p), c)),
        None => None,
    }
}

/// A path is one of the parents exactly when it is among their contents.
proof fn lemma_has_parent_contains(parents: Seq<String>, p: Seq<char>)
    ensures
        has_parent(parents, p) <==> parents.map_values(|q: String| q@).contains(p),
{
    let ps = parents.map_values(|q: String| q@);
    if has_parent(parents, p) {
        let i = choose|i: int| 0 <= i < parents.len() && (#[trigger] parents[i])@ == p;
        assert(ps[i] == p);
    }
    if ps.contains(p) {
        let i = choose|i: int| 0 <= i < ps.len() && ps[i] == p;
        assert(parents[i]@ == p);
    }
}

/// A copy of a list of indices.
fn copy_indices(v: &Vec<usize>) -> (r: Vec<usize>)
    ensures
        r@ == v@,
{
    let mut r: Vec<usize> = Vec::new();
    let mut i: usize = 0;
    while i < v.len()
        invariant
            i <= v@.len(),
            r@ == v@.take(i as int),
        decreases v@.len() - i,
    {
        r.push(v[i]);
        proof {
            assert(v@.take(i as int + 1) =~= v@.take(i as int).push(v@[i as int]));
        }
        i = i + 1;
    }
    assert(v@.take(v@.len() as int) =~= v@);
    r
}

/// A copy of a stack of branch states.
fn copy_states(v: &Vec<BranchState>) -> (r: Vec<BranchState>)
    ensures
        r@ == v@,
{
    let mut r: Vec<BranchState> = Vec::new();
    let mut i: usize = 0;
    while i < v.len()
        invariant
            i <= v@.len(),
            r@ == v@.take(i as int),
        decreases v@.len() - i,
    {
        r.push(BranchState { last: v[i].last });
        proof {
            assert(v@.take(i as int + 1) =~= v@.take(i as int).push(v@[i as int]));
        }
        i = i + 1;
    }
    assert(v@.take(v@.len() as int) =~= v@);
    r
}

/// Whether one of the parents has a path.
fn find_parent(parents: &Vec<String>, p: &String) -> (r: bool)
    ensures
        r <==> has_parent(parents@, p@),
{
    let mut i: usize = 0;
    while i < parents.len()
        invariant
            i <= parents@.len(),
            forall|j: int| 0 <= j < i ==> (#[trigger] parents@[j])@ != p@,
        decreases parents@.len() - i,
    {
        if parents[i] == *p {
            return true;
        }
        i = i + 1;
    }
    false
}

impl Walk {
    /// Load a file: a module not loaded yet is cached with the dependencies
    /// that do not resolve to a module loaded before it; a file that could
    /// not be loaded stops the walk with its reason.
    fn load(&mut self, g: &ModuleGraph, x: usize) -> (r: Result<(), String>)
        requires
            graph_wf(*g),
            walk_wf(*old(self), *g),
            x < g.files@.len(),
        ensures
            walk_wf(*final(self), *g),
            cache_grows(*old(self), *final(self)),
            final(self).open@ == old(self).open@,
            final(self).parents@ == old(self).parents@,
            final(self).out@ == old(self).out@,
            r is Ok ==> (g.files@[x as int] is Module ==> final(self).cache@[x as int] is Some),
            r is Ok && old(self).cache@[x as int] is Some ==> *final(self) == *old(self),
            r is Ok ==> forall|y: int|
                0 <= y < old(self).cache@.len() && old(self).cache@[y] is None && (#[trigger] final(self).cache@[y]) is Some ==> y == x,
            r matches Err(m) ==> failure_of(*g, m@),
            old(self).cache@[x as int] is None ==> (g.files@[x as int] matches GraphFile::Failed(m) ==> r == Err::<
                (),
                String,
            >(m)),
            g.files@[x as int] is Json ==> r is Ok && *final(self) == *old(self),
            r is Err ==> *final(self) == *old(self) && g.files@[x as int] is Failed,
            r is Ok && old(self).cache@[x as int] is None && final(self).cache@[x as int] is Some ==> final(self).order@
                == old(self).order@.push(x),
            (walk_view(*final(self)), err_view(r)) == load_eff(*g, x as int, walk_view(*old(self))),
    {
        let ghost v0 = walk_view(*self);
        if self.cache[x].is_some() {
            return Ok(());
        }
        match &g.files[x] {
            GraphFile::Failed(reason) => {
                return Err(reason.clone());
            },
            GraphFile::Json => {
                return Ok(());
            },
            GraphFile::Module(deps) => {
                let mut kept: Vec<usize> = Vec::new();
                let mut k: usize = 0;
                while k < deps.len()
                    invariant
                        k <= deps@.len(),
                        graph_wf(*g),
                        g.files@[x as int] == GraphFile::Module(*deps),
                        x < g.files@.len(),
                        walk_wf(*self, *g),
                        self.cache@[x as int] is None,
                        forall|t: int|
                            0 <= t < kept@.len() ==> {
                                let kk = (#[trigger] kept@[t]) as int;
                                &&& 0 <= kk < k
                                &&& deps@[kk].1 matches Resolved::File(j) ==> self.cache@[j as int] is None
                            },
                        *self == *old(self),
                        v0 == walk_view(*self),
                        kept@ == kept_deps(deps@, v0.cache, k as int),
                    decreases deps@.len() - k,
                {
                    let keep = match &deps[k].1 {
                        Resolved::File(j) => {
                            assert(file_deps(g.files@[x as int])[k as int] == deps@[k as int]);
                            self.cache[*j].is_none()
                        },
                        _ => true,
                    };
                    if keep {
                        kept.push(k);
                    }
                    k = k + 1;
                }
                let ghost before = *self;
                let r = self.order.len();
                proof {
                    lemma_count_loaded(self.cache@, x as int);
                }
                let ghost kept_view = kept@;
                self.cache.set(x, Some((r, kept)));
                self.order.push(x);
                proof {
                    assert(walk_view(*self).cache =~= v0.cache.update(x as int, Some((r, kept_view))));
                    lemma_count_loaded_update(before.cache@, x as int, (r, kept));
                    let w = *self;
                    assert forall|y: int| 0 <= y < w.cache@.len() && (#[trigger] w.cache@[y]) is Some implies {
                        &&& g.files@[y] is Module
                        &&& rank(w, y) < w.order@.len()
                        &&& w.order@[rank(w, y)] == y
                        &&& forall|t: int|
                            0 <= t < w.cache@[y].unwrap().1@.len() ==> {
                                let k = (#[trigger] w.cache@[y].unwrap().1@[t]) as int;
                                &&& 0 <= k < file_deps(g.files@[y]).len()
                                &&& file_deps(g.files@[y])[k].1 matches Resolved::File(j) ==> (j == y || w.cache@[j as int]
                                    is None || rank(w, j as int) > rank(w, y))
                            }
                    } by {
                        if y != x {
                            assert(before.cache@[y] is Some);
                            assert(w.cache@[y] == before.cache@[y]);
                            assert forall|t: int| 0 <= t < w.cache@[y].unwrap().1@.len() implies {
                                let k = (#[trigger] w.cache@[y].unwrap().1@[t]) as int;
                                &&& 0 <= k < file_deps(g.files@[y]).len()
                                &&& file_deps(g.files@[y])[k].1 matches Resolved::File(j) ==> (j == y || w.cache@[j as int]
                                    is None || rank(w, j as int) > rank(w, y))
                            } by {
                                let k = w.cache@[y].unwrap().1@[t] as int;
                                if let Resolved::File(j) = file_deps(g.files@[y])[k].1 {
                                    if j as int == x as int {
                                        assert(rank(w, j as int) == r);
                                    } else if w.cache@[j as int] is Some {
                                        assert(before.cache@[j as int] == w.cache@[j as int]);
                                    }
                                }
                            }
                        } else {
                            assert forall|t: int| 0 <= t < w.cache@[y].unwrap().1@.len() implies {
                                let k = (#[trigger] w.cache@[y].unwrap().1@[t]) as int;
                                &&& 0 <= k < file_deps(g.files@[y]).len()
                                &&& file_deps(g.files@[y])[k].1 matches Resolved::File(j) ==> (j == y || w.cache@[j as int]
                                    is None || rank(w, j as int) > rank(w, y))
                            } by {
                                let k = w.cache@[y].unwrap().1@[t] as int;
                                if let Resolved::File(j) = file_deps(g.files@[y])[k].1 {
                                    if j as int != x as int {
                                        assert(before.cache@[j as int] is None);
                                        assert(w.cache@[j as int] == before.cache@[j as int]);
                                    }
                                }
                            }
                        }
                    }
                    assert forall|q: int| 0 <= q < w.order@.len() implies (#[trigger] w.order@[q]) < w.cache@.len()
                        && w.cache@[w.order@[q] as int] is Some && rank(w, w.order@[q] as int) == q by {
                        if q < before.order@.len() {
                            assert(w.order@[q] == before.order@[q]);
                            assert(before.cache@[before.order@[q] as int] is Some);
                        }
                    }
                }
                Ok(())
            },
        }
    }
    /// Visit the dependencies kept for a loaded module, depth first: each
    /// dependency that resolved to a file loads it; one that resolved to a
    /// builtin package is visited as it is; any other ends the module's
    /// dependencies. A dependency whose file is one of the parents closes a
    /// cycle and is not walked into.
    #[verifier::rlimit(100)]
    fn visit_all(&mut self, g: &ModuleGraph, node: usize, Ghost(measure): Ghost<int>) -> (r: Result<(), String>)
        requires
            measure == 2 * (g.files@.len() - rank(*old(self), node as int)) + if old(self).parents@.len() == 0 {
                1int
            } else {
                0int
            },
            graph_wf(*g),
            walk_wf(*old(self), *g),
            node < g.files@.len(),
            old(self).cache@[node as int] is Some,
            has_parent(old(self).parents@, g.paths@[node as int]@) || old(self).parents@.len() == 0,
        ensures
            walk_wf(*final(self), *g),
            cache_grows(*old(self), *final(self)),
            r is Ok ==> final(self).open@ == old(self).open@ && final(self).parents@ == old(self).parents@,
            final(self).out@.len() >= old(self).out@.len(),
            forall|d: int| 0 <= d < old(self).out@.len() ==> #[trigger] final(self).out@[d] == old(self).out@[d],
            r matches Err(m) ==> failure_of(*g, m@),
            (walk_view(*final(self)), err_view(r)) == visit_all_eff(*g, node as int, walk_view(*old(self)), measure),
        decreases measure,
    {
        let ghost w0 = *self;
        let ghost n = g.files@.len();
        let ghost goal = visit_all_eff(*g, node as int, walk_view(w0), measure);
        let kept = match &self.cache[node] {
            Some(entry) => copy_indices(&entry.1),
            None => Vec::new(),
        };
        let deps = match &g.files[node] {
            GraphFile::Module(deps) => deps,
            _ => {
                return Ok(());
            },
        };
        proof {
            assert(rank(w0, node as int) < w0.order@.len());
            lemma_count_loaded_bound(w0.cache@);
        }
        self.open.push(BranchState { last: false });
        proof {
            assert(walk_view(*self).open =~= walk_view(w0).open.push(false));
            assert(walk_view(*self) == (WalkView {
                cache: walk_view(w0).cache,
                order: walk_view(w0).order,
                open: walk_view(w0).open.push(false),
                parents: walk_view(w0).parents,
                out: walk_view(w0).out,
            }));
            assert(walk_view(w0).cache[node as int] == Some((w0.cache@[node as int].unwrap().0, kept@)));
        }
        let len = kept.len();
        let mut t: usize = 0;
        while t < len
            invariant
                goal == visit_all_eff(*g, node as int, walk_view(w0), measure),
                goal == deps_eff(*g, node as int, kept@, t as int, walk_view(*self), measure),
                graph_wf(*g),
                n == g.files@.len(),
                node < n,
                len == kept@.len(),
                t <= len,
                w0.cache@[node as int] is Some,
                kept@ == w0.cache@[node as int].unwrap().1@,
                g.files@[node as int] == GraphFile::Module(*deps),
                w0 == *old(self),
                measure == 2 * (n - rank(w0, node as int)) + if w0.parents@.len() == 0 {
                    1int
                } else {
                    0int
                },
                walk_wf(w0, *g),
                walk_wf(*self, *g),
                cache_grows(w0, *self),
                self.parents@ == w0.parents@,
                self.open@.len() == w0.open@.len() + 1,
                self.open@.drop_last() == w0.open@,
                self.out@.len() >= w0.out@.len(),
                forall|d: int| 0 <= d < w0.out@.len() ==> #[trigger] self.out@[d] == w0.out@[d],
                has_parent(w0.parents@, g.paths@[node as int]@) || w0.parents@.len() == 0,
                rank(w0, node as int) < w0.order@.len(),
                w0.order@.len() <= n,
            decreases len - t,
        {
            let k = kept[t];
            proof {
                assert(self.cache@[node as int] == w0.cache@[node as int]);
                assert(0 <= k < file_deps(g.files@[node as int]).len());
            }
            let ghost cur = walk_view(*self);
            let ghost d = deps@[k as int];
            assert(file_deps(g.files@[node as int]) == deps@);
            assert(kept@[t as int] == k);
            let spec = &deps[k].0;
            let step: Option<(String, Option<String>, Option<usize>)> = match &deps[k].1 {
                Resolved::File(j) => {
                    let j = *j;
                    proof {
                        assert(file_deps(g.files@[node as int])[k as int] == deps@[k as int]);
                    }
                    let ghost before_load = *self;
                    let loaded = self.load(g, j);
                    proof {
                        lemma_cache_grows_trans(w0, before_load, *self);
                    }
                    match loaded {
                        Ok(()) => {},
                        Err(m) => {
                            assert(deps_eff(*g, node as int, kept@, t as int, cur, measure) == load_eff(
                                *g,
                                j as int,
                                cur,
                            ));
                            return Err(m);
                        },
                    }
                    let child = match &g.files[j] {
                        GraphFile::Module(_) => Some(j),
                        _ => None,
                    };
                    Some((g.paths[j].clone(), Some(g.paths[j].clone()), child))
                },
                Resolved::Custom(name) => {
                    if is_core_package(name.as_str()) {
                        Some((name.clone(), None, None))
                    } else {
                        None
                    }
                },
                Resolved::Other => None,
            };
            let ghost st1 = walk_view(*self);
            proof {
                let l = match d.1 {
                    Resolved::File(j) => load_eff(*g, j as int, cur),
                    _ => (cur, None),
                };
                assert(l.1 is None);
                assert(st1 == l.0);
                assert(step_view(step) == dep_step(*g, d));
            }
            match step {
                None => {
                    assert(goal == (pop_open(walk_view(*self)), None::<Seq<char>>));
                    t = len;
                },
                Some((file_name, path, child)) => {
                    let last = t == len - 1;
                    let top = self.open.len() - 1;
                    self.open.set(top, BranchState { last });
                    let cycle = match &path {
                        Some(p) => if find_parent(&self.parents, p) {
                            Some(p.clone())
                        } else {
                            None
                        },
                        None => None,
                    };
                    let open = copy_states(&self.open);
                    let walk_into = cycle.is_none();
                    proof {
                        lemma_has_parent_contains(self.parents@, opt_view(path).unwrap_or(Seq::empty()));
                    }
                    let dep = VisitedDependency { spec: spec.clone(), file_name, path, last, open, cycle };
                    let ghost before_push = self.out@;
                    let ghost dv = dep_view(dep);
                    self.out.push(dep);
                    let ghost st2 = walk_view(*self);
                    proof {
                        let sv = dep_step(*g, d).unwrap();
                        let spec_open = st1.open.update(st1.open.len() - 1, last);
                        assert(st2.open =~= spec_open);
                        assert(dv.open =~= spec_open);
                        assert(st2.out =~= st1.out.push(dv));
                        assert(st2 == dep_record(d, sv, t == len - 1, st1));
                        assert(walks_into(sv, st2) == (walk_into && child.is_some() && self.cache@[child.unwrap() as int] is Some
                            && self.cache@[child.unwrap() as int].unwrap().1@.len() > 0));
                    }
                    proof {
                        assert forall|d: int| 0 <= d < self.out@.len() implies dependency_wf(#[trigger] self.out@[d]) by {
                            if d < before_push.len() {
                                assert(self.out@[d] == before_push[d]);
                            }
                        }
                        assert(self.open@.drop_last() =~= w0.open@);
                    }
                    let ghost sv = dep_step(*g, d).unwrap();
                    let ghost mut nxt = st2;
                    proof {
                        assert(deps_eff(*g, node as int, kept@, t as int, cur, measure) == if walks_into(sv, st2) {
                            let jj = sv.2.unwrap() as int;
                            let st3 = push_parent(st2, g.paths@[jj]@);
                            let callee = walk_measure(g.files@.len() as int, st3, jj);
                            if 0 <= callee < measure {
                                let v = visit_all_eff(*g, jj, st3, callee);
                                if v.1 is Some {
                                    v
                                } else {
                                    deps_eff(*g, node as int, kept@, t + 1, pop_parent(v.0), measure)
                                }
                            } else {
                                (st3, None)
                            }
                        } else {
                            deps_eff(*g, node as int, kept@, t + 1, st2, measure)
                        });
                    }
                    if walk_into {
                        if let Some(j) = child {
                            let has_deps = match &self.cache[j] {
                                Some(entry) => entry.1.len() > 0,
                                None => false,
                            };
                            if has_deps {
                                let p = match &self.out[self.out.len() - 1].path {
                                    Some(p) => p.clone(),
                                    None => g.paths[j].clone(),
                                };
                                let ghost w1 = *self;
                                proof {
                                    assert(p@ == g.paths@[j as int]@);
                                    assert(!has_parent(w1.parents@, g.paths@[j as int]@));
                                    let kk = k as int;
                                    assert(w1.cache@[node as int] == w0.cache@[node as int]);
                                    assert(kept@[t as int] == k);
                                    if j != node {
                                        assert(rank(w1, j as int) > rank(w1, node as int));
                                    }
                                    assert(rank(w1, node as int) == rank(w0, node as int));
                                }
                                self.parents.push(p);
                                let ghost st3 = walk_view(*self);
                                proof {
                                    assert(st3.parents =~= st2.parents.push(g.paths@[j as int]@));
                                    assert(st3 == push_parent(st2, g.paths@[j as int]@));
                                    assert(self.parents@[self.parents@.len() - 1]@ == g.paths@[j as int]@);
                                    assert(has_parent(self.parents@, g.paths@[j as int]@));
                                    if j == node {
                                        assert(!has_parent(w0.parents@, g.paths@[node as int]@));
                                        assert(w0.parents@.len() == 0);
                                    }
                                }
                                let ghost before_visit = *self;
                                proof {
                                    lemma_count_loaded_bound(before_visit.cache@);
                                    assert(before_visit.cache@ == w1.cache@);
                                    assert(before_visit.cache@[j as int] is Some);
                                    assert(rank(before_visit, j as int) < before_visit.order@.len());
                                }
                                let ghost callee_measure = 2 * (n - rank(before_visit, j as int)) + if before_visit.parents@.len() == 0 {
                                    1int
                                } else {
                                    0int
                                };
                                assert(callee_measure < measure);
                                assert(0 <= callee_measure);
                                assert(callee_measure == walk_measure(g.files@.len() as int, st3, j as int));
                                let visited = self.visit_all(g, j, Ghost(callee_measure));
                                let ghost v = (walk_view(*self), err_view(visited));
                                proof {
                                    lemma_count_loaded_bound(before_visit.cache@);
                                    assert(before_visit.cache@ == w1.cache@);
                                    assert(has_parent(before_visit.parents@, g.paths@[j as int]@));
                                }
                                assert(cache_grows(w0, before_visit));
                                proof {
                                    let caller_m = 2 * (n - rank(w0, node as int)) + if w0.parents@.len() == 0 {
                                        1int
                                    } else {
                                        0int
                                    };
                                    let callee_m = 2 * (n - rank(before_visit, j as int)) + if before_visit.parents@.len() == 0 {
                                        1int
                                    } else {
                                        0int
                                    };
                                    assert(rank(before_visit, j as int) < n);
                                    assert(callee_m >= 0);
                                    assert(callee_m < caller_m);
                                    assert(decreases_to!(caller_m => callee_m));
                                    assert(caller_m == 2 * (g.files@.len() - rank(*old(self), node as int)) + if old(self).parents@.len() == 0 {
                                        1int
                                    } else {
                                        0int
                                    });
                                }
                                proof {
                                    lemma_cache_grows_trans(w0, before_visit, *self);
                                }
                                match visited {
                                    Ok(()) => {},
                                    Err(m) => {
                                        assert(goal == (walk_view(*self), Some(m@)));
                                        return Err(m);
                                    },
                                }
                                self.parents.pop();
                                proof {
                                    assert(self.parents@ =~= w0.parents@);
                                    assert(walk_view(*self).parents =~= v.0.parents.drop_last());
                                    assert(walk_view(*self) == pop_parent(v.0));
                                    nxt = pop_parent(v.0);
                                }
                            }
                        }
                    }
                    assert(walk_view(*self) == nxt);
                    assert(goal == deps_eff(*g, node as int, kept@, t + 1, nxt, measure));
                    t = t + 1;
                },
            }
        }
        let ghost before_pop = walk_view(*self);
        assert(goal == (pop_open(before_pop), None::<Seq<char>>));
        self.open.pop();
        assert(walk_view(*self).open =~= before_pop.open.drop_last());
        assert(walk_view(*self) == pop_open(before_pop));
        proof {
            assert(self.open@ =~= w0.open@);
        }
        Ok(())
    }
}

/// No module of a cache that holds nothing is loaded.
proof fn lemma_count_none(cache: Seq<Option<(usize, Vec<usize>)>>)
    requires
        forall|x: int| 0 <= x < cache.len() ==> (#[trigger] cache[x]) is None,
    ensures
        count_loaded(cache) == 0,
    decreases cache.len(),
{
    if cache.len() > 0 {
        lemma_count_none(cache.drop_last());
    }
}

/// Walk the module graph from an entry point, depth first.
///
/// The entry point is loaded first: when it cannot be loaded the walk
/// gives its reason, and a JSON entry has no dependencies to visit. The
/// modules loaded during the walk are given in the order in which they were
/// loaded; a module that cannot be loaded stops the walk.
pub fn visit(g: &ModuleGraph, entry: usize) -> (r: WalkResult)
    requires
        graph_wf(*g),
        entry < g.files@.len(),
    ensures
        forall|d: int| 0 <= d < r.dependencies@.len() ==> dependency_wf(#[trigger] r.dependencies@[d]),
        r.error matches Some(m) ==> failure_of(*g, m@),
        g.files@[entry as int] matches GraphFile::Failed(m) ==> r.error == Some(m) && r.dependencies@.len() == 0
            && r.modules@.len() == 0,
        g.files@[entry as int] is Json ==> r.error is None && r.dependencies@.len() == 0 && r.modules@.len() == 0,
        g.files@[entry as int] is Module ==> r.modules@.len() >= 1 && r.modules@[0]@ == g.paths@[entry as int]@,
        forall|i: int|
            0 <= i < r.modules@.len() ==> exists|x: int|
                0 <= x < g.files@.len() && g.files@[x] is Module && (#[trigger] r.modules@[i])@ == g.paths@[x]@,
        forall|i: int, k: int|
            0 <= i < r.modules@.len() && 0 <= k < r.modules@.len() && i != k ==> (#[trigger] r.modules@[i])@ != (
            #[trigger] r.modules@[k])@,
        deps_view(r.dependencies@) == walk_outcome(*g, entry as int).0.out,
        r.modules@.map_values(|p: String| p@) == walk_outcome(*g, entry as int).0.order.map_values(
            |x: usize| g.paths@[x as int]@,
        ),
        opt_view(r.error) == walk_outcome(*g, entry as int).1,
{
    let mut cache: Vec<Option<(usize, Vec<usize>)>> = Vec::new();
    let mut i: usize = 0;
    while i < g.files.len()
        invariant
            i <= g.files@.len(),
            cache@.len() == i,
            forall|x: int| 0 <= x < i ==> (#[trigger] cache@[x]) is None,
        decreases g.files@.len() - i,
    {
        cache.push(None);
        i = i + 1;
    }
    proof {
        lemma_count_none(cache@);
    }
    let mut w = Walk { cache, order: Vec::new(), open: Vec::new(), parents: Vec::new(), out: Vec::new() };
    proof {
        let v = walk_view(w);
        let i0 = initial_walk(g.files@.len());
        assert(v.cache =~= i0.cache);
        assert(v.order =~= i0.order);
        assert(v.open =~= i0.open);
        assert(v.parents =~= i0.parents);
        assert(v.out =~= i0.out);
        assert(v == i0);
    }
    let ghost outcome = walk_outcome(*g, entry as int);
    let mut error: Option<String> = None;
    match w.load(g, entry) {
        Err(m) => {
            assert(!(g.files@[entry as int] is Module));
            error = Some(m);
        },
        Ok(()) => {
            if w.cache[entry].is_some() {
                proof {
                    assert(w.order@.len() == 1 && w.order@[0] == entry);
                    lemma_count_loaded_bound(w.cache@);
                }
                let ghost m = 2 * (g.files@.len() - rank(w, entry as int)) + 1int;
                let ghost w1 = w;
                assert(m == walk_measure(g.files@.len() as int, walk_view(w1), entry as int));
                let visited = w.visit_all(g, entry, Ghost(m));
                proof {
                    assert(w.order@[0] == w1.order@[0]);
                    assert(w.order@.len() >= 1);
                    assert(w.order@[0] == entry);
                }
                match visited {
                    Ok(()) => {},
                    Err(m) => {
                        error = Some(m);
                    },
                }
            }
        },
    }
    let ghost entry_first = g.files@[entry as int] is Module ==> w.order@.len() >= 1 && w.order@[0] == entry;
    assert(entry_first);
    assert(walk_view(w) == outcome.0);
    assert(opt_view(error) == outcome.1);
    let mut modules: Vec<String> = Vec::new();
    let mut q: usize = 0;
    while q < w.order.len()
        invariant
            graph_wf(*g),
            walk_wf(w, *g),
            q <= w.order@.len(),
            modules@.len() == q,
            forall|t: int| 0 <= t < q ==> (#[trigger] modules@[t])@ == g.paths@[w.order@[t] as int]@,
        decreases w.order@.len() - q,
    {
        let x = w.order[q];
        modules.push(g.paths[x].clone());
        q = q + 1;
    }
    proof {
        assert forall|t: int| 0 <= t < modules@.len() implies exists|x: int|
            0 <= x < g.files@.len() && g.files@[x] is Module && (#[trigger] modules@[t])@ == g.paths@[x]@ by {
            let x = w.order@[t] as int;
            assert(w.cache@[x] is Some);
        }
        assert forall|t: int, k: int| 0 <= t < modules@.len() && 0 <= k < modules@.len() && t != k implies (
        #[trigger] modules@[t])@ != (#[trigger] modules@[k])@ by {
            assert(rank(w, w.order@[t] as int) == t);
            assert(rank(w, w.order@[k] as int) == k);
        }
        assert(modules@.map_values(|p: String| p@) =~= outcome.0.order.map_values(|x: usize| g.paths@[x as int]@));
    }
    WalkResult { dependencies: w.out, modules, error }
}

} // verus!
