//! Symbol paths for policy analysis: dotted words, the references a scope
//! holds, and the flattening of deep paths into their parents.
use vstd::prelude::*;

pub mod dynamic_import;
pub mod globals_scope;
pub mod member_expr;
pub mod module_exports;
pub mod scope_builder;
pub mod scope_model;

use indexmap::IndexSet;

use crate::collections::{
    inserted, path_items, paths_get, paths_insert, paths_len, paths_new, name_items, names_insert,
    names_new,
};

verus! {

/// The views of the words of a path.
pub open spec fn words_view(words: Seq<String>) -> Seq<Seq<char>> {
    words.map_values(|w: String| w@)
}

/// The words of a path joined with `.` delimiters.
pub open spec fn joined(ws: Seq<Seq<char>>) -> Seq<char>
    decreases ws.len(),
{
    if ws.len() == 0 {
        Seq::empty()
    } else if ws.len() == 1 {
        ws[0]
    } else {
        joined(ws.drop_last()) + seq!['.'] + ws.last()
    }
}

/// The views of a list of words with a word appended.
pub proof fn lemma_words_view_push(s: Seq<String>, w: String)
    ensures
        words_view(s.push(w)) == words_view(s).push(w@),
{
    assert(words_view(s.push(w)) =~= words_view(s).push(w@));
}

/// A copy of a list of words.
pub fn copy_words(words: &Vec<String>) -> (r: Vec<String>)
    ensures
        words_view(r@) == words_view(words@),
{
    let mut out: Vec<String> = Vec::new();
    let mut i: usize = 0;
    while i < words.len()
        invariant
            i <= words@.len(),
            words_view(out@) == words_view(words@.take(i as int)),
        decreases words@.len() - i,
    {
        let ghost before = out@;
        let w = words[i].clone();
        out.push(w);
        proof {
            lemma_words_view_push(before, w);
            lemma_words_view_push(words@.take(i as int), words@[i as int]);
            assert(words@.take(i as int).push(words@[i as int]) =~= words@.take(i as int + 1));
        }
        i = i + 1;
    }
    assert(words@.take(words@.len() as int) =~= words@);
    out
}

/// Join the words into a single dot-delimited word.
pub fn join_words(words: &Vec<String>) -> (r: String)
    ensures
        r@ == joined(words_view(words@)),
{
    proof {
        reveal_strlit(".");
    }
    let mut out = String::new();
    let mut i: usize = 0;
    while i < words.len()
        invariant
            i <= words@.len(),
            out@ == joined(words_view(words@.take(i as int))),
            "."@ == seq!['.'],
        decreases words@.len() - i,
    {
        let ghost before = out@;
        if i > 0 {
            out.append(".");
        }
        out.append(words[i].as_str());
        proof {
            let t = words_view(words@.take(i as int + 1));
            assert(t.drop_last() =~= words_view(words@.take(i as int)));
            if i == 0 {
                assert(before =~= Seq::<char>::empty());
                assert(out@ =~= t[0]);
            } else {
                assert(out@ =~= before + seq!['.'] + t.last());
            }
        }
        i = i + 1;
    }
    assert(words@.take(words@.len() as int) =~= words@);
    out
}

/// The items of a sequence inserted one after the other into a set whose
/// items were `acc`.
pub open spec fn insert_all<A>(acc: Seq<A>, s: Seq<A>) -> Seq<A>
    decreases s.len(),
{
    if s.len() == 0 {
        acc
    } else {
        inserted(insert_all(acc, s.drop_last()), s.last())
    }
}

/// The paths of a set joined into dotted words.
pub open spec fn joined_all(s: Seq<Seq<Seq<char>>>) -> Seq<Seq<char>> {
    s.map_values(|p: Seq<Seq<char>>| joined(p))
}

/// Join the keys of a set into a single dot-delimited word.
pub fn join_keys(set: IndexSet<Vec<String>>) -> (r: IndexSet<String>)
    ensures
        name_items(r) == insert_all(Seq::empty(), joined_all(path_items(set))),
{
    let mut out = names_new();
    let n = paths_len(&set);
    let mut i: usize = 0;
    while i < n
        invariant
            n == path_items(set).len(),
            i <= n,
            name_items(out) == insert_all(Seq::empty(), joined_all(path_items(set).take(i as int))),
        decreases n - i,
    {
        let words = paths_get(&set, i);
        let word = join_words(words);
        names_insert(&mut out, word);
        proof {
            let t = joined_all(path_items(set).take(i as int + 1));
            assert(t.drop_last() =~= joined_all(path_items(set).take(i as int)));
        }
        i = i + 1;
    }
    assert(path_items(set).take(n as int) =~= path_items(set));
    out
}

/// Whether path `a` is shorter than path `b` and `b` starts with it.
pub open spec fn strict_prefix(a: Seq<Seq<char>>, b: Seq<Seq<char>>) -> bool {
    a.len() < b.len() && b.take(a.len() as int) == a
}

/// Whether some path of `all` is a strict prefix of `k`.
pub open spec fn has_parent_in(all: Seq<Seq<Seq<char>>>, k: Seq<Seq<char>>) -> bool {
    exists|j: int| 0 <= j < all.len() && strict_prefix(#[trigger] all[j], k)
}

/// The paths of `s` that have no strict prefix among `all`, in order.
pub open spec fn unprefixed(s: Seq<Seq<Seq<char>>>, all: Seq<Seq<Seq<char>>>) -> Seq<Seq<Seq<char>>>
    decreases s.len(),
{
    if s.len() == 0 {
        Seq::empty()
    } else if has_parent_in(all, s.last()) {
        unprefixed(s.drop_last(), all)
    } else {
        unprefixed(s.drop_last(), all).push(s.last())
    }
}

/// The paths of a set that have no strict prefix in the set.
pub open spec fn flattened(s: Seq<Seq<Seq<char>>>) -> Seq<Seq<Seq<char>>> {
    unprefixed(s, s)
}

/// Whether path `a` is a strict prefix of path `b`.
fn is_strict_prefix(a: &Vec<String>, b: &Vec<String>) -> (r: bool)
    ensures
        r <==> strict_prefix(words_view(a@), words_view(b@)),
{
    if a.len() >= b.len() {
        return false;
    }
    let mut i: usize = 0;
    while i < a.len()
        invariant
            a@.len() < b@.len(),
            i <= a@.len(),
            forall|j: int| 0 <= j < i ==> a@[j]@ == b@[j]@,
        decreases a@.len() - i,
    {
        if a[i] != b[i] {
            assert(words_view(b@).take(a@.len() as int)[i as int] != words_view(a@)[i as int]);
            return false;
        }
        i = i + 1;
    }
    assert(words_view(b@).take(a@.len() as int) =~= words_view(a@));
    true
}

/// Flatten the computed symbol list so that deep properties are
/// accumulated with the parent reference.
///
/// For example, if we have `Buffer` and `Buffer.alloc` the `Buffer.alloc`
/// entry is removed and we defer to the parent `Buffer`.
pub fn flatten(set: IndexSet<Vec<String>>) -> (r: IndexSet<Vec<String>>)
    ensures
        path_items(r) == insert_all(Seq::empty(), flattened(path_items(set))),
        path_items(r) == flattened(path_items(set)),
{
    let ghost all = path_items(set);
    let mut out = paths_new();
    let n = paths_len(&set);
    let mut i: usize = 0;
    while i < n
        invariant
            n == all.len(),
            all == path_items(set),
            i <= n,
            path_items(out) == insert_all(Seq::empty(), unprefixed(all.take(i as int), all)),
            forall|a: int, b: int| 0 <= a < i && 0 <= b < n && a != b ==> all[a] != all[b],
        decreases n - i,
    {
        let k = paths_get(&set, i);
        let mut keep = true;
        let mut j: usize = 0;
        while j < n
            invariant
                n == all.len(),
                all == path_items(set),
                i < n,
                words_view(k@) == all[i as int],
                j <= n,
                keep <==> !exists|m: int| 0 <= m < j && strict_prefix(#[trigger] all[m], all[i as int]),
            decreases n - j,
        {
            let key = paths_get(&set, j);
            if is_strict_prefix(key, k) {
                keep = false;
            }
            j = j + 1;
        }
        proof {
            let t = all.take(i as int + 1);
            assert(t.drop_last() =~= all.take(i as int));
            assert(t.last() == all[i as int]);
        }
        proof {
            let t = all.take(i as int + 1);
            if keep {
                assert(!has_parent_in(all, t.last()));
            } else {
                assert(has_parent_in(all, t.last()));
            }
        }
        if keep {
            let copy = copy_words(k);
            paths_insert(&mut out, copy);
            proof {
                let t = all.take(i as int + 1);
                let u = unprefixed(t, all);
                assert(u == unprefixed(all.take(i as int), all).push(all[i as int]));
                assert(u.drop_last() =~= unprefixed(all.take(i as int), all));
            }
        }
        i = i + 1;
    }
    assert(all.take(n as int) =~= all);
    proof {
        assert(all.no_duplicates());
        lemma_unprefixed_no_duplicates(all, all);
        lemma_insert_all_distinct(flattened(all));
    }
    out
}

/// The paths `unprefixed` keeps of a sequence without duplicates are
/// without duplicates.
pub proof fn lemma_unprefixed_no_duplicates(s: Seq<Seq<Seq<char>>>, all: Seq<Seq<Seq<char>>>)
    requires
        s.no_duplicates(),
    ensures
        unprefixed(s, all).no_duplicates(),
    decreases s.len(),
{
    if s.len() > 0 {
        let t = s.drop_last();
        assert(t.no_duplicates());
        lemma_unprefixed_no_duplicates(t, all);
        if !has_parent_in(all, s.last()) {
            lemma_unprefixed_members(t, all, s.last());
            if t.contains(s.last()) {
                let i = choose|i: int| 0 <= i < t.len() && t[i] == s.last();
                assert(s[i] == s[s.len() - 1]);
            }
            let u = unprefixed(t, all);
            assert forall|a: int, b: int| 0 <= a < u.len() + 1 && 0 <= b < u.len() + 1 && a != b implies
                #[trigger] u.push(s.last())[a] != #[trigger] u.push(s.last())[b] by {
                if a < u.len() && b < u.len() {
                    assert(u[a] != u[b]);
                } else if a < u.len() {
                    assert(u.contains(u[a]));
                } else {
                    assert(u.contains(u[b]));
                }
            }
        }
    }
}

/// Every path kept by `unprefixed` is a path of `s` without a strict
/// prefix in `all`, and every such path of `s` is kept.
pub proof fn lemma_unprefixed_members(s: Seq<Seq<Seq<char>>>, all: Seq<Seq<Seq<char>>>, x: Seq<Seq<char>>)
    ensures
        unprefixed(s, all).contains(x) <==> (s.contains(x) && !has_parent_in(all, x)),
    decreases s.len(),
{
    if s.len() > 0 {
        let t = s.drop_last();
        lemma_unprefixed_members(t, all, x);
        lemma_push_contains(t, s.last(), x);
        assert(t.push(s.last()) =~= s);
        if !has_parent_in(all, s.last()) {
            lemma_push_contains(unprefixed(t, all), s.last(), x);
        }
    }
}

/// An item is in a sequence with an item appended exactly when it is that
/// item or in the sequence.
pub proof fn lemma_push_contains<A>(s: Seq<A>, a: A, x: A)
    ensures
        s.push(a).contains(x) <==> (s.contains(x) || x == a),
{
    let t = s.push(a);
    if s.contains(x) {
        let i = choose|i: int| 0 <= i < s.len() && s[i] == x;
        assert(t[i] == x);
    }
    if x == a {
        assert(t[s.len() as int] == x);
    }
    if t.contains(x) {
        let i = choose|i: int| 0 <= i < t.len() && t[i] == x;
        if i < s.len() {
            assert(s[i] == x);
        }
    }
}

/// Keeping the paths without a strict prefix keeps every path of a set
/// whose paths have no strict prefix in it.
proof fn lemma_unprefixed_all_kept(s: Seq<Seq<Seq<char>>>, all: Seq<Seq<Seq<char>>>)
    requires
        forall|i: int| 0 <= i < s.len() ==> !has_parent_in(all, #[trigger] s[i]),
    ensures
        unprefixed(s, all) == s,
    decreases s.len(),
{
    if s.len() > 0 {
        assert(!has_parent_in(all, s[s.len() - 1]));
        lemma_unprefixed_all_kept(s.drop_last(), all);
        assert(s.drop_last().push(s.last()) =~= s);
    }
}

/// Flattening a flattened set of paths changes nothing.
pub proof fn lemma_flatten_idempotent(s: Seq<Seq<Seq<char>>>)
    ensures
        flattened(flattened(s)) == flattened(s),
{
    let u = flattened(s);
    assert forall|i: int| 0 <= i < u.len() implies !has_parent_in(u, #[trigger] u[i]) by {
        lemma_unprefixed_members(s, s, u[i]);
        assert(u.contains(u[i]));
        if has_parent_in(u, u[i]) {
            let j = choose|j: int| 0 <= j < u.len() && strict_prefix(#[trigger] u[j], u[i]);
            lemma_unprefixed_members(s, s, u[j]);
            assert(u.contains(u[j]));
            let m = choose|m: int| 0 <= m < s.len() && s[m] == u[j];
            assert(strict_prefix(s[m], u[i]));
        }
    }
    lemma_unprefixed_all_kept(u, u);
}

/// Every path of a set is covered after flattening: some flattened path is
/// the path itself or one of its prefixes.
pub proof fn lemma_flatten_covers(s: Seq<Seq<Seq<char>>>, x: Seq<Seq<char>>)
    requires
        s.contains(x),
    ensures
        exists|y: Seq<Seq<char>>| #[trigger] flattened(s).contains(y) && y.len() <= x.len() && x.take(y.len() as int) == y,
    decreases x.len(),
{
    lemma_unprefixed_members(s, s, x);
    if has_parent_in(s, x) {
        let j = choose|j: int| 0 <= j < s.len() && strict_prefix(#[trigger] s[j], x);
        let p = s[j];
        assert(s.contains(p));
        lemma_flatten_covers(s, p);
        let y = choose|y: Seq<Seq<char>>| #[trigger] flattened(s).contains(y) && y.len() <= p.len() && p.take(y.len() as int) == y;
        assert(x.take(y.len() as int) =~= p.take(y.len() as int));
    } else {
        assert(x.take(x.len() as int) =~= x);
        assert(flattened(s).contains(x));
    }
}

/// Inserting the items of a sequence without duplicates into an empty set
/// gives that sequence.
pub proof fn lemma_insert_all_distinct<A>(s: Seq<A>)
    requires
        s.no_duplicates(),
    ensures
        insert_all(Seq::empty(), s) == s,
    decreases s.len(),
{
    if s.len() > 0 {
        let t = s.drop_last();
        assert(t.no_duplicates());
        lemma_insert_all_distinct(t);
        if t.contains(s.last()) {
            let i = choose|i: int| 0 <= i < t.len() && t[i] == s.last();
            assert(s[i] == s[s.len() - 1]);
        }
        assert(t.push(s.last()) =~= s);
    }
}

/// A set of paths holds an item exactly when the sequence inserted into it
/// (after its earlier items) does or its earlier items do.
pub proof fn lemma_insert_all_contains<A>(acc: Seq<A>, s: Seq<A>, x: A)
    ensures
        insert_all(acc, s).contains(x) <==> (acc.contains(x) || s.contains(x)),
    decreases s.len(),
{
    if s.len() > 0 {
        let t = s.drop_last();
        lemma_insert_all_contains(acc, t, x);
        lemma_push_contains(t, s.last(), x);
        assert(t.push(s.last()) =~= s);
        let prev = insert_all(acc, t);
        lemma_push_contains(prev, s.last(), x);
        lemma_insert_all_contains(acc, t, s.last());
    }
}

/// Inserting into a set without duplicates keeps it without duplicates.
pub proof fn lemma_insert_all_no_duplicates<A>(acc: Seq<A>, s: Seq<A>)
    requires
        acc.no_duplicates(),
    ensures
        insert_all(acc, s).no_duplicates(),
    decreases s.len(),
{
    if s.len() > 0 {
        lemma_insert_all_no_duplicates(acc, s.drop_last());
        let prev = insert_all(acc, s.drop_last());
        if !prev.contains(s.last()) {
            let t = prev.push(s.last());
            assert forall|i: int, j: int| 0 <= i < t.len() && 0 <= j < t.len() && i != j implies t[i] != t[j] by {
                if i == prev.len() {
                    assert(!prev.contains(t[j]) || t[j] != s.last());
                } else if j == prev.len() {
                    assert(prev[i] != s.last());
                }
            }
        }
    }
}

/// Represents a symbol word or a member expression path.
#[derive(Debug, Clone, PartialEq, Eq, Hash)]
pub enum WordOrPath {
    /// Symbol word.
    Word(String),
    /// Member expression path.
    Path(String, Vec<String>),
}

/// The abstract content of a symbol reference.
pub enum WordOrPathView {
    /// A symbol word.
    Word(Seq<char>),
    /// A member path: the first word and the following words.
    Path(Seq<char>, Seq<Seq<char>>),
}

impl View for WordOrPath {
    type V = WordOrPathView;

    open spec fn view(&self) -> WordOrPathView {
        match self {
            WordOrPath::Word(w) => WordOrPathView::Word(w@),
            WordOrPath::Path(w, parts) => WordOrPathView::Path(w@, words_view(parts@)),
        }
    }
}

/// All the words of a reference, the first word first.
pub open spec fn reference_words(r: WordOrPathView) -> Seq<Seq<char>> {
    match r {
        WordOrPathView::Word(w) => seq![w],
        WordOrPathView::Path(w, parts) => seq![w] + parts,
    }
}

/// The first word of a reference.
pub open spec fn first_word(r: WordOrPathView) -> Seq<char> {
    match r {
        WordOrPathView::Word(w) => w,
        WordOrPathView::Path(w, _) => w,
    }
}

impl WordOrPath {
    /// Convert into a dot delimited path.
    pub fn into_path(&self) -> (r: String)
        ensures
            r@ == joined(reference_words(self@)),
    {
        match self {
            WordOrPath::Word(word) => {
                proof {
                    assert(reference_words(self@) =~= seq![word@]);
                }
                word.clone()
            },
            WordOrPath::Path(word, parts) => {
                let words = self.to_words();
                join_words(&words)
            },
        }
    }

    /// All the words of the reference, the first word first.
    pub fn to_words(&self) -> (r: Vec<String>)
        ensures
            words_view(r@) == reference_words(self@),
    {
        match self {
            WordOrPath::Word(word) => {
                let mut out: Vec<String> = Vec::new();
                out.push(word.clone());
                assert(words_view(out@) =~= reference_words(self@));
                out
            },
            WordOrPath::Path(word, parts) => {
                let mut out: Vec<String> = Vec::new();
                out.push(word.clone());
                let mut rest = copy_words(parts);
                out.append(&mut rest);
                assert(words_view(out@) =~= reference_words(self@));
                out
            },
        }
    }

    /// The first word of the reference: a member path compares with the
    /// locals of a scope by its first word only.
    pub fn first_word(&self) -> (r: String)
        ensures
            r@ == first_word(self@),
    {
        match self {
            WordOrPath::Word(word) => word.clone(),
            WordOrPath::Path(word, _) => word.clone(),
        }
    }
}

} // verus!
