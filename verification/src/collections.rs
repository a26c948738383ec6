//! Insertion-ordered sets and maps from `indexmap`, seen through the
//! sequence of their items.
//!
//! An `IndexSet` keeps each distinct item once, in the order in which it
//! was first inserted.  Items compare by `Eq`: strings and vectors of
//! strings by their characters, symbol references by their words.  The
//! contents of each kind of set the library uses are named by a function
//! from the set to the sequence of its items' views.  An `IndexMap` is
//! seen in the same way through the sequence of its key and value pairs.
use vstd::prelude::*;

use indexmap::{IndexMap, IndexSet};

use crate::access::Access;
use crate::analysis::imports::{records_view, ImportRecord, ImportRecordView};

use crate::policy::analysis::{words_view, WordOrPath, WordOrPathView};

verus! {

#[verifier::external_type_specification]
#[verifier::external_body]
#[verifier::reject_recursive_types(T)]
#[verifier::reject_recursive_types(S)]
pub struct ExIndexSet<T, S>(IndexSet<T, S>);

/// The items of a set of names, in insertion order.
pub uninterp spec fn name_items(s: IndexSet<String>) -> Seq<Seq<char>>;

/// The items of a set of word paths, in insertion order.
pub uninterp spec fn path_items(s: IndexSet<Vec<String>>) -> Seq<Seq<Seq<char>>>;

/// The items of a set of symbol references, in insertion order.
pub uninterp spec fn ident_items(s: IndexSet<WordOrPath>) -> Seq<WordOrPathView>;

/// The items of a set after inserting an item: appended when new, the set
/// unchanged when an equal item is already there.
pub open spec fn inserted<A>(items: Seq<A>, v: A) -> Seq<A> {
    if items.contains(v) {
        items
    } else {
        items.push(v)
    }
}

/// `IndexSet::new`: an empty set of names.
#[verifier::external_body]
pub(crate) fn names_new() -> (r: IndexSet<String>)
    ensures
        name_items(r) == Seq::<Seq<char>>::empty(),
{
    IndexSet::new()
}

/// `IndexSet::insert` on a set of names: appends the name when no equal
/// name is in the set and reports whether it did.
#[verifier::external_body]
pub(crate) fn names_insert(set: &mut IndexSet<String>, value: String) -> (r: bool)
    ensures
        r <==> !name_items(*old(set)).contains(value@),
        name_items(*final(set)) == inserted(name_items(*old(set)), value@),
{
    set.insert(value)
}

/// `IndexSet::contains` on a set of names.
#[verifier::external_body]
pub(crate) fn names_contains(set: &IndexSet<String>, value: &String) -> (r: bool)
    ensures
        r <==> name_items(*set).contains(value@),
{
    set.contains(value)
}

/// `IndexSet::len` on a set of names.
#[verifier::external_body]
pub(crate) fn names_len(set: &IndexSet<String>) -> (r: usize)
    ensures
        r == name_items(*set).len(),
{
    set.len()
}

/// `IndexSet::get_index` on a set of names, at an index below the length;
/// a set holds each item once, so no other index holds that name.
#[verifier::external_body]
pub(crate) fn names_get(set: &IndexSet<String>, index: usize) -> (r: &String)
    requires
        index < name_items(*set).len(),
    ensures
        r@ == name_items(*set)[index as int],
        forall|j: int| 0 <= j < name_items(*set).len() && j != index ==> name_items(*set)[j] != r@,
{
    set.get_index(index).unwrap()
}

/// `IndexSet::new`: an empty set of word paths.
#[verifier::external_body]
pub(crate) fn paths_new() -> (r: IndexSet<Vec<String>>)
    ensures
        path_items(r) == Seq::<Seq<Seq<char>>>::empty(),
{
    IndexSet::new()
}

/// `IndexSet::insert` on a set of word paths: appends the path when no
/// equal path (same words) is in the set and reports whether it did.
#[verifier::external_body]
pub(crate) fn paths_insert(set: &mut IndexSet<Vec<String>>, value: Vec<String>) -> (r: bool)
    ensures
        r <==> !path_items(*old(set)).contains(words_view(value@)),
        path_items(*final(set)) == inserted(path_items(*old(set)), words_view(value@)),
{
    set.insert(value)
}

/// `IndexSet::contains` on a set of word paths.
#[verifier::external_body]
pub(crate) fn paths_contains(set: &IndexSet<Vec<String>>, value: &Vec<String>) -> (r: bool)
    ensures
        r <==> path_items(*set).contains(words_view(value@)),
{
    set.contains(value)
}

/// `IndexSet::len` on a set of word paths.
#[verifier::external_body]
pub(crate) fn paths_len(set: &IndexSet<Vec<String>>) -> (r: usize)
    ensures
        r == path_items(*set).len(),
{
    set.len()
}

/// `IndexSet::get_index` on a set of word paths, at an index below the
/// length; a set holds each item once, so no other index holds that path.
#[verifier::external_body]
pub(crate) fn paths_get(set: &IndexSet<Vec<String>>, index: usize) -> (r: &Vec<String>)
    requires
        index < path_items(*set).len(),
    ensures
        words_view(r@) == path_items(*set)[index as int],
        forall|j: int|
            0 <= j < path_items(*set).len() && j != index ==> path_items(*set)[j] != words_view(r@),
{
    set.get_index(index).unwrap()
}

/// `IndexSet::new`: an empty set of symbol references.
#[verifier::external_body]
pub(crate) fn idents_new() -> (r: IndexSet<WordOrPath>)
    ensures
        ident_items(r) == Seq::<WordOrPathView>::empty(),
{
    IndexSet::new()
}

/// `IndexSet::insert` on a set of symbol references: appends the reference
/// when no equal reference (same variant and words) is in the set and
/// reports whether it did.
#[verifier::external_body]
pub(crate) fn idents_insert(set: &mut IndexSet<WordOrPath>, value: WordOrPath) -> (r: bool)
    ensures
        r <==> !ident_items(*old(set)).contains(value@),
        ident_items(*final(set)) == inserted(ident_items(*old(set)), value@),
{
    set.insert(value)
}

/// `IndexSet::len` on a set of symbol references.
#[verifier::external_body]
pub(crate) fn idents_len(set: &IndexSet<WordOrPath>) -> (r: usize)
    ensures
        r == ident_items(*set).len(),
{
    set.len()
}

/// `IndexSet::get_index` on a set of symbol references, at an index below
/// the length.
#[verifier::external_body]
pub(crate) fn idents_get(set: &IndexSet<WordOrPath>, index: usize) -> (r: &WordOrPath)
    requires
        index < ident_items(*set).len(),
    ensures
        r@ == ident_items(*set)[index as int],
{
    set.get_index(index).unwrap()
}

#[verifier::external_type_specification]
#[verifier::external_body]
#[verifier::reject_recursive_types(K)]
#[verifier::reject_recursive_types(V)]
#[verifier::reject_recursive_types(S)]
pub struct ExIndexMap<K, V, S>(IndexMap<K, V, S>);

/// The entries of a map from word paths to accesses, in insertion order.
pub uninterp spec fn path_access_entries(m: IndexMap<Vec<String>, Access>) -> Seq<(Seq<Seq<char>>, Access)>;

/// The entries of a map from names to accesses, in insertion order.
pub uninterp spec fn name_access_entries(m: IndexMap<String, Access>) -> Seq<(Seq<char>, Access)>;

/// The entries of a map from module specifiers to import records, in
/// insertion order.
pub uninterp spec fn import_record_entries(m: IndexMap<String, Vec<ImportRecord>>) -> Seq<(Seq<char>, Seq<ImportRecordView>)>;

/// The position of the first entry with a key.
pub open spec fn key_position<K, V>(entries: Seq<(K, V)>, k: K) -> Option<int>
    decreases entries.len(),
{
    if entries.len() == 0 {
        None
    } else {
        match key_position(entries.drop_last(), k) {
            Some(i) => Some(i),
            None => if entries.last().0 == k {
                Some(entries.len() - 1)
            } else {
                None
            },
        }
    }
}

/// The value stored with a key.
pub open spec fn entry_value<K, V>(entries: Seq<(K, V)>, k: K) -> Option<V> {
    match key_position(entries, k) {
        Some(i) => Some(entries[i].1),
        None => None,
    }
}

/// The entries of a map after inserting a key and value: the value of an
/// entry with an equal key is replaced in place, otherwise the pair is
/// appended.
pub open spec fn entry_inserted<K, V>(entries: Seq<(K, V)>, k: K, v: V) -> Seq<(K, V)> {
    match key_position(entries, k) {
        Some(i) => entries.update(i, (k, v)),
        None => entries.push((k, v)),
    }
}

/// The position of a key is that of an entry with that key.
pub proof fn lemma_key_position<K, V>(entries: Seq<(K, V)>, k: K)
    ensures
        key_position(entries, k) matches Some(i) ==> 0 <= i < entries.len() && entries[i].0 == k,
        key_position(entries, k) is None ==> forall|j: int| 0 <= j < entries.len() ==> #[trigger] entries[j].0 != k,
    decreases entries.len(),
{
    if entries.len() > 0 {
        lemma_key_position(entries.drop_last(), k);
        assert forall|j: int| 0 <= j < entries.len() - 1 implies #[trigger] entries[j] == entries.drop_last()[j] by {}
    }
}

/// `IndexMap::new`: an empty map from word paths to accesses.
#[verifier::external_body]
pub(crate) fn path_access_new() -> (r: IndexMap<Vec<String>, Access>)
    ensures
        path_access_entries(r) == Seq::<(Seq<Seq<char>>, Access)>::empty(),
{
    IndexMap::new()
}

/// `IndexMap::get` on a map from word paths to accesses: the access stored
/// with a path of the same words, copied out.
#[verifier::external_body]
pub(crate) fn path_access_get(m: &IndexMap<Vec<String>, Access>, key: &Vec<String>) -> (r: Option<Access>)
    ensures
        r == entry_value(path_access_entries(*m), words_view(key@)),
{
    m.get(key).copied()
}

/// `IndexMap::insert` on a map from word paths to accesses: replaces the
/// access of a path of the same words in its place, or appends the pair.
#[verifier::external_body]
pub(crate) fn path_access_insert(m: &mut IndexMap<Vec<String>, Access>, key: Vec<String>, value: Access)
    ensures
        path_access_entries(*final(m)) == entry_inserted(path_access_entries(*old(m)), words_view(key@), value),
{
    m.insert(key, value);
}

/// `IndexMap::len` on a map from word paths to accesses.
#[verifier::external_body]
pub(crate) fn path_access_len(m: &IndexMap<Vec<String>, Access>) -> (r: usize)
    ensures
        r == path_access_entries(*m).len(),
{
    m.len()
}

/// `IndexMap::get_index` on a map from word paths to accesses, at an index
/// below the length.
#[verifier::external_body]
pub(crate) fn path_access_get_index(m: &IndexMap<Vec<String>, Access>, index: usize) -> (r: (&Vec<String>, &Access))
    requires
        index < path_access_entries(*m).len(),
    ensures
        words_view(r.0@) == path_access_entries(*m)[index as int].0,
        *r.1 == path_access_entries(*m)[index as int].1,
{
    m.get_index(index).unwrap()
}

/// `IndexMap::new`: an empty map from names to accesses.
#[verifier::external_body]
pub(crate) fn name_access_new() -> (r: IndexMap<String, Access>)
    ensures
        name_access_entries(r) == Seq::<(Seq<char>, Access)>::empty(),
{
    IndexMap::new()
}

/// `IndexMap::insert` on a map from names to accesses: replaces the access
/// of an equal name in its place, or appends the pair.
#[verifier::external_body]
pub(crate) fn name_access_insert(m: &mut IndexMap<String, Access>, key: String, value: Access)
    ensures
        name_access_entries(*final(m)) == entry_inserted(name_access_entries(*old(m)), key@, value),
{
    m.insert(key, value);
}

/// No entry before the first one with a key has that key.
pub proof fn lemma_key_position_first<K, V>(entries: Seq<(K, V)>, k: K)
    ensures
        key_position(entries, k) matches Some(i) ==> forall|j: int| 0 <= j < i ==> #[trigger] entries[j].0 != k,
    decreases entries.len(),
{
    if entries.len() > 0 {
        lemma_key_position_first(entries.drop_last(), k);
        lemma_key_position(entries.drop_last(), k);
        assert forall|j: int| 0 <= j < entries.len() - 1 implies #[trigger] entries[j] == entries.drop_last()[j] by {}
    }
}

/// The position of a key is the first index that holds it.
pub proof fn lemma_key_position_is<K, V>(entries: Seq<(K, V)>, k: K, i: int)
    requires
        0 <= i < entries.len(),
        entries[i].0 == k,
        forall|j: int| 0 <= j < i ==> #[trigger] entries[j].0 != k,
    ensures
        key_position(entries, k) == Some(i),
    decreases entries.len(),
{
    let d = entries.drop_last();
    assert forall|j: int| 0 <= j < entries.len() - 1 implies #[trigger] d[j] == entries[j] by {}
    if i < entries.len() - 1 {
        lemma_key_position_is(d, k, i);
    } else {
        lemma_key_position(d, k);
        if let Some(j) = key_position(d, k) {
            assert(d[j].0 == k);
            assert(entries[j].0 != k);
        }
    }
}

/// Inserting a key twice leaves the entries of the second insertion alone.
pub proof fn lemma_entry_reinserted<K, V>(entries: Seq<(K, V)>, k: K, v1: V, v2: V)
    ensures
        entry_inserted(entry_inserted(entries, k, v1), k, v2) == entry_inserted(entries, k, v2),
{
    lemma_key_position(entries, k);
    lemma_key_position_first(entries, k);
    let e1 = entry_inserted(entries, k, v1);
    match key_position(entries, k) {
        Some(i) => {
            assert forall|j: int| 0 <= j < i implies #[trigger] e1[j].0 != k by {
                assert(e1[j] == entries[j]);
            }
            lemma_key_position_is(e1, k, i);
            assert(e1.update(i, (k, v2)) =~= entries.update(i, (k, v2)));
        },
        None => {
            let n = entries.len() as int;
            assert forall|j: int| 0 <= j < n implies #[trigger] e1[j].0 != k by {
                assert(e1[j] == entries[j]);
            }
            lemma_key_position_is(e1, k, n);
            assert(e1.update(n, (k, v2)) =~= entries.push((k, v2)));
        },
    }
}

/// Whether no two entries share a key.
pub open spec fn distinct_keys<K, V>(s: Seq<(K, V)>) -> bool {
    forall|i: int, j: int| 0 <= i < j < s.len() ==> #[trigger] s[i].0 != #[trigger] s[j].0
}

/// Inserting keeps the keys distinct.
pub proof fn lemma_inserted_distinct<K, V>(s: Seq<(K, V)>, k: K, v: V)
    requires
        distinct_keys(s),
    ensures
        distinct_keys(entry_inserted(s, k, v)),
{
    lemma_key_position(s, k);
    let t = entry_inserted(s, k, v);
    match key_position(s, k) {
        Some(p) => {
            assert forall|i: int, j: int| 0 <= i < j < t.len() implies #[trigger] t[i].0 != #[trigger] t[j].0 by {
                assert(s[i].0 != s[j].0);
            }
        },
        None => {
            assert forall|i: int, j: int| 0 <= i < j < t.len() implies #[trigger] t[i].0 != #[trigger] t[j].0 by {
                if j < s.len() {
                    assert(s[i].0 != s[j].0);
                } else {
                    assert(s[i].0 != k);
                }
            }
        },
    }
}

/// `IndexMap::new`: an empty map from module specifiers to import records.
#[verifier::external_body]
pub(crate) fn import_records_new() -> (r: IndexMap<String, Vec<ImportRecord>>)
    ensures
        import_record_entries(r) == Seq::<(Seq<char>, Seq<ImportRecordView>)>::empty(),
{
    IndexMap::new()
}

/// `IndexMap::insert` on a map from module specifiers to import records:
/// replaces the records of an equal specifier in its place, or appends
/// the pair, and hands back the records it replaced.
#[verifier::external_body]
pub(crate) fn import_records_insert(m: &mut IndexMap<String, Vec<ImportRecord>>, key: String, value: Vec<
    ImportRecord,
>) -> (r: Option<Vec<ImportRecord>>)
    ensures
        import_record_entries(*final(m)) == entry_inserted(
            import_record_entries(*old(m)),
            key@,
            records_view(value@),
        ),
        r is None <==> entry_value(import_record_entries(*old(m)), key@) is None,
        r matches Some(v) ==> entry_value(import_record_entries(*old(m)), key@) == Some(records_view(v@)),
{
    m.insert(key, value)
}

/// `IndexMap::len` on a map from module specifiers to import records.
#[verifier::external_body]
pub(crate) fn import_records_len(m: &IndexMap<String, Vec<ImportRecord>>) -> (r: usize)
    ensures
        r == import_record_entries(*m).len(),
{
    m.len()
}

/// `IndexMap::get_index` on a map from module specifiers to import
/// records, at an index below the length.
#[verifier::external_body]
pub(crate) fn import_records_get_index(m: &IndexMap<String, Vec<ImportRecord>>, index: usize) -> (r: (
    &String,
    &Vec<ImportRecord>,
))
    requires
        index < import_record_entries(*m).len(),
    ensures
        r.0@ == import_record_entries(*m)[index as int].0,
        records_view(r.1@) == import_record_entries(*m)[index as int].1,
{
    m.get_index(index).unwrap()
}

} // verus!
