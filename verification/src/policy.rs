//! Types for LavaMoat policy files.
//!
//! A policy maps package names to package policies; a package policy holds
//! three groups (builtin, globals, packages), each a map from a dotted
//! symbol path or a package name to an access flag.  The maps are kept as
//! vectors of entries sorted by key, so that keys never repeat and come out
//! in the order of strings; their views are maps over the characters of the
//! keys.
use vstd::prelude::*;

use crate::text::{lemma_str_lt_irreflexive, lemma_str_lt_total, lemma_str_lt_transitive, str_eq, str_less, str_lt};

pub mod analysis;
pub mod builder;

verus! {

/// Trait for the merge operation.
pub trait Merge {
    /// Apply overrides from `from`
    fn merge(&mut self, from: &Self);
}

/// Represents a code access permission for a package policy entry.
///
/// Currently this is just a boolean switch but later we may
/// modify this to represent [read, write, execute] permissions.
#[derive(Copy, Clone, Default, Debug, PartialEq, Eq, Structural)]
pub struct PolicyAccess {
    flag: bool,
}

impl View for PolicyAccess {
    type V = bool;

    closed spec fn view(&self) -> bool {
        self.flag
    }
}

impl PolicyAccess {
    /// Create an access permission from its flag.
    pub fn new(value: bool) -> (r: PolicyAccess)
        ensures
            r@ == value,
    {
        PolicyAccess { flag: value }
    }

    /// The permission flag.
    pub fn flag(&self) -> (r: bool)
        ensures
            r == self@,
    {
        self.flag
    }
}

impl From<bool> for PolicyAccess {
    fn from(value: bool) -> (r: PolicyAccess) {
        PolicyAccess { flag: value }
    }
}

impl vstd::std_specs::convert::FromSpecImpl<bool> for PolicyAccess {
    open spec fn obeys_from_spec() -> bool {
        true
    }

    closed spec fn from_spec(value: bool) -> PolicyAccess {
        PolicyAccess { flag: value }
    }
}

/// The keys of a list of entries never repeat.
pub open spec fn unique_keys<V>(s: Seq<(String, V)>) -> bool {
    forall|i: int, j: int|
        0 <= i < s.len() && 0 <= j < s.len() && i != j ==> #[trigger] s[i].0@ != #[trigger] s[j].0@
}

/// Whether the keys of a list of entries come in the order of strings, each
/// before the next.
pub open spec fn sorted_keys<V>(s: Seq<(String, V)>) -> bool {
    forall|i: int, j: int| 0 <= i < j < s.len() ==> str_lt(#[trigger] s[i].0@, #[trigger] s[j].0@)
}

/// The position at which a key stands, or would stand, among entries
/// sorted by key: every key before it orders before the key, and the key at
/// it does not.
fn sorted_position<V>(s: &Vec<(String, V)>, key: &String) -> (r: usize)
    ensures
        r <= s@.len(),
        forall|j: int| 0 <= j < r ==> str_lt(#[trigger] s@[j].0@, key@),
        r < s@.len() ==> !str_lt(s@[r as int].0@, key@),
{
    let mut i: usize = 0;
    while i < s.len()
        invariant
            i <= s@.len(),
            forall|j: int| 0 <= j < i ==> str_lt(#[trigger] s@[j].0@, key@),
        decreases s@.len() - i,
    {
        if !str_less(s[i].0.as_str(), key.as_str()) {
            return i;
        }
        i = i + 1;
    }
    i
}

/// Replacing the value of an entry keeps the keys sorted.
proof fn lemma_sorted_update<V>(s: Seq<(String, V)>, i: int, e: (String, V))
    requires
        sorted_keys(s),
        0 <= i < s.len(),
        e.0@ == s[i].0@,
    ensures
        sorted_keys(s.update(i, e)),
{
    let t = s.update(i, e);
    assert forall|a: int, b: int| 0 <= a < b < t.len() implies str_lt(#[trigger] t[a].0@, #[trigger] t[b].0@) by {
        assert(t[a].0@ == s[a].0@ && t[b].0@ == s[b].0@);
    }
}

/// Inserting an entry where its key orders after the keys before it and
/// before the key after it keeps the keys sorted and adds the entry to the
/// map.
proof fn lemma_sorted_insert<V: View>(s: Seq<(String, V)>, p: int, e: (String, V))
    requires
        unique_keys(s),
        sorted_keys(s),
        0 <= p <= s.len(),
        forall|j: int| 0 <= j < p ==> str_lt(#[trigger] s[j].0@, e.0@),
        p < s.len() ==> str_lt(e.0@, s[p].0@),
    ensures
        !entries_view(s).dom().contains(e.0@),
        unique_keys(s.insert(p, e)),
        sorted_keys(s.insert(p, e)),
        entries_view(s.insert(p, e)) == entries_view(s).insert(e.0@, e.1@),
{
    let t = s.insert(p, e);
    let k = e.0@;
    lemma_str_lt_irreflexive(k);
    lemma_entries_view_dom(s, k);
    if entries_view(s).dom().contains(k) {
        let j = choose|j: int| 0 <= j < s.len() && #[trigger] s[j].0@ == k;
        if j > p {
            lemma_str_lt_transitive(k, s[p].0@, s[j].0@);
        }
    }
    assert forall|a: int, b: int| 0 <= a < b < t.len() implies str_lt(#[trigger] t[a].0@, #[trigger] t[b].0@) by {
        if a < p && b == p {
        } else if a < p && b > p {
            assert(t[a] == s[a] && t[b] == s[b - 1]);
        } else if a == p {
            assert(t[b] == s[b - 1]);
            if b - 1 > p {
                lemma_str_lt_transitive(k, s[p].0@, s[b - 1].0@);
            }
        } else if a > p {
            assert(t[a] == s[a - 1] && t[b] == s[b - 1]);
        } else {
            assert(t[a] == s[a] && t[b] == s[b]);
        }
    }
    assert forall|a: int, b: int| 0 <= a < t.len() && 0 <= b < t.len() && a != b implies #[trigger] t[a].0@
        != #[trigger] t[b].0@ by {
        if a < b {
            assert(str_lt(t[a].0@, t[b].0@));
            lemma_str_lt_irreflexive(t[a].0@);
        } else {
            assert(str_lt(t[b].0@, t[a].0@));
            lemma_str_lt_irreflexive(t[b].0@);
        }
    }
    let m = entries_view(s).insert(k, e.1@);
    assert forall|x: Seq<char>| #[trigger] entries_view(t).dom().contains(x) <==> m.dom().contains(x) by {
        lemma_entries_view_dom(t, x);
        lemma_entries_view_dom(s, x);
        if exists|j: int| 0 <= j < t.len() && #[trigger] t[j].0@ == x {
            let j = choose|j: int| 0 <= j < t.len() && #[trigger] t[j].0@ == x;
            if j < p {
                assert(s[j] == t[j]);
            } else if j > p {
                assert(s[j - 1] == t[j]);
            }
        }
        if exists|j: int| 0 <= j < s.len() && #[trigger] s[j].0@ == x {
            let j = choose|j: int| 0 <= j < s.len() && #[trigger] s[j].0@ == x;
            if j < p {
                assert(t[j] == s[j]);
            } else {
                assert(t[j + 1] == s[j]);
            }
        }
        if x == k {
            assert(t[p].0@ == x);
        }
    }
    assert forall|x: Seq<char>| #[trigger] m.dom().contains(x) implies entries_view(t)[x] == m[x] by {
        if x == k {
            lemma_entries_view_value(t, p);
        } else {
            lemma_entries_view_dom(s, x);
            let j = choose|j: int| 0 <= j < s.len() && #[trigger] s[j].0@ == x;
            lemma_entries_view_value(s, j);
            if j < p {
                assert(t[j] == s[j]);
                lemma_entries_view_value(t, j);
            } else {
                assert(t[j + 1] == s[j]);
                lemma_entries_view_value(t, j + 1);
            }
        }
    }
    assert(entries_view(t) =~= m);
}

/// The map that a list of entries stands for: each key's characters map to
/// the view of its value, a later entry overriding an earlier one.
pub open spec fn entries_view<V: View>(s: Seq<(String, V)>) -> Map<Seq<char>, V::V>
    decreases s.len(),
{
    if s.len() == 0 {
        Map::empty()
    } else {
        entries_view(s.drop_last()).insert(s.last().0@, s.last().1@)
    }
}

/// A key is in the view of a list of entries exactly when some entry has it.
pub proof fn lemma_entries_view_dom<V: View>(s: Seq<(String, V)>, k: Seq<char>)
    ensures
        entries_view(s).dom().contains(k) <==> exists|i: int| 0 <= i < s.len() && #[trigger] s[i].0@ == k,
    decreases s.len(),
{
    if s.len() > 0 {
        lemma_entries_view_dom(s.drop_last(), k);
        if entries_view(s.drop_last()).dom().contains(k) {
            let i = choose|i: int| 0 <= i < s.drop_last().len() && #[trigger] s.drop_last()[i].0@ == k;
            assert(s[i].0@ == k);
        }
        if exists|i: int| 0 <= i < s.len() && #[trigger] s[i].0@ == k {
            let i = choose|i: int| 0 <= i < s.len() && #[trigger] s[i].0@ == k;
            if i < s.len() - 1 {
                assert(s.drop_last()[i].0@ == k);
            }
        }
    }
}

/// With keys that never repeat, the view maps each entry's key to its flag.
pub proof fn lemma_entries_view_value<V: View>(s: Seq<(String, V)>, i: int)
    requires
        unique_keys(s),
        0 <= i < s.len(),
    ensures
        entries_view(s).dom().contains(s[i].0@),
        entries_view(s)[s[i].0@] == s[i].1@,
    decreases s.len(),
{
    if i < s.len() - 1 {
        let t = s.drop_last();
        assert(unique_keys(t)) by {
            assert forall|a: int, b: int|
                0 <= a < t.len() && 0 <= b < t.len() && a != b implies #[trigger] t[a].0@ != #[trigger] t[b].0@ by {
                assert(t[a] == s[a] && t[b] == s[b]);
            }
        }
        lemma_entries_view_value(t, i);
        assert(t[i] == s[i]);
        assert(s.last().0@ != s[i].0@);
    }
}

/// Replacing the entry of an existing key with a new value for that key
/// updates the view at that key.
pub proof fn lemma_entries_view_update<V: View>(s: Seq<(String, V)>, i: int, e: (String, V))
    requires
        unique_keys(s),
        0 <= i < s.len(),
        e.0@ == s[i].0@,
    ensures
        unique_keys(s.update(i, e)),
        entries_view(s.update(i, e)) == entries_view(s).insert(e.0@, e.1@),
{
    let t = s.update(i, e);
    assert(unique_keys(t)) by {
        assert forall|a: int, b: int|
            0 <= a < t.len() && 0 <= b < t.len() && a != b implies #[trigger] t[a].0@ != #[trigger] t[b].0@ by {
            assert(s[a].0@ == t[a].0@ && s[b].0@ == t[b].0@);
        }
    }
    let lhs = entries_view(t);
    let rhs = entries_view(s).insert(e.0@, e.1@);
    assert forall|k: Seq<char>| lhs.dom().contains(k) <==> rhs.dom().contains(k) by {
        lemma_entries_view_dom(t, k);
        lemma_entries_view_dom(s, k);
        if exists|j: int| 0 <= j < t.len() && #[trigger] t[j].0@ == k {
            let j = choose|j: int| 0 <= j < t.len() && #[trigger] t[j].0@ == k;
            assert(s[j].0@ == k);
        }
        if exists|j: int| 0 <= j < s.len() && #[trigger] s[j].0@ == k {
            let j = choose|j: int| 0 <= j < s.len() && #[trigger] s[j].0@ == k;
            assert(t[j].0@ == k);
        }
    }
    assert forall|k: Seq<char>| #[trigger] lhs.dom().contains(k) implies lhs[k] == rhs[k] by {
        lemma_entries_view_dom(t, k);
        let j = choose|j: int| 0 <= j < t.len() && #[trigger] t[j].0@ == k;
        lemma_entries_view_value(t, j);
        if j != i {
            lemma_entries_view_value(s, j);
        }
    }
    assert(lhs =~= rhs);
}

/// Encapsulates a map from code access to permission flag.
#[derive(Debug)]
pub struct PolicyGroup {
    map: Vec<(String, PolicyAccess)>,
}

impl View for PolicyGroup {
    type V = Map<Seq<char>, bool>;

    closed spec fn view(&self) -> Map<Seq<char>, bool> {
        entries_view(self.map@)
    }
}

impl PolicyGroup {
    #[verifier::type_invariant]
    closed spec fn keys_unique(self) -> bool {
        unique_keys(self.map@) && sorted_keys(self.map@)
    }

    /// The entries of the group in the order of their keys.
    pub closed spec fn entries(&self) -> Seq<(String, PolicyAccess)> {
        self.map@
    }

    /// Create an empty group.
    pub fn new() -> (r: PolicyGroup)
        ensures
            r@ == Map::<Seq<char>, bool>::empty(),
    {
        PolicyGroup { map: Vec::new() }
    }

    /// Index of the entry for a key, if there is one.
    fn position(&self, key: &String) -> (r: Option<usize>)
        ensures
            r is None ==> !self@.dom().contains(key@),
            r matches Some(i) ==> i < self.map@.len() && self.map@[i as int].0@ == key@,
    {
        let mut i: usize = 0;
        while i < self.map.len()
            invariant
                i <= self.map@.len(),
                forall|j: int| 0 <= j < i ==> #[trigger] self.map@[j].0@ != key@,
            decreases self.map@.len() - i,
        {
            if self.map[i].0 == *key {
                return Some(i);
            }
            i = i + 1;
        }
        proof {
            lemma_entries_view_dom(self.map@, key@);
        }
        None
    }

    /// Look up the permission for a key.
    pub fn get(&self, key: &str) -> (r: Option<PolicyAccess>)
        ensures
            r is None <==> !self@.dom().contains(key@),
            r matches Some(a) ==> a@ == self@[key@],
    {
        proof {
            use_type_invariant(self);
        }
        let key = key.to_owned();
        match self.position(&key) {
            Some(i) => {
                proof {
                    lemma_entries_view_value(self.map@, i as int);
                }
                Some(self.map[i].1)
            },
            None => None,
        }
    }

    /// The key and permission of the entry at an index, in the order of
    /// the keys.
    pub fn entry(&self, index: usize) -> (r: (&String, PolicyAccess))
        requires
            index < self.entries().len(),
        ensures
            *r.0 == self.entries()[index as int].0,
            r.1 == self.entries()[index as int].1,
            self@.dom().contains(r.0@),
            self@[r.0@] == r.1@,
    {
        proof {
            use_type_invariant(self);
            lemma_entries_view_value(self.map@, index as int);
        }
        (&self.map[index].0, self.map[index].1)
    }

    /// Number of entries in the group.
    pub fn len(&self) -> (r: usize)
        ensures
            self@.dom().finite(),
            r == self@.dom().len(),
            r == self.entries().len(),
            sorted_keys(self.entries()),
    {
        proof {
            use_type_invariant(self);
            lemma_entries_view_len(self.map@);
        }
        self.map.len()
    }

    /// Determine if this policy map is empty.
    pub fn is_empty(policy_map: &PolicyGroup) -> (r: bool)
        ensures
            r <==> policy_map@ == Map::<Seq<char>, bool>::empty(),
    {
        proof {
            if policy_map.map@.len() > 0 {
                lemma_entries_view_dom(policy_map.map@, policy_map.map@[0].0@);
                assert(policy_map@.dom().contains(policy_map.map@[0].0@));
            } else {
                assert(policy_map@ =~= Map::<Seq<char>, bool>::empty());
            }
        }
        policy_map.map.len() == 0
    }

    /// Insert a permission into the policy.
    pub fn insert(&mut self, key: &str, value: PolicyAccess)
        ensures
            final(self)@ == old(self)@.insert(key@, value@),
    {
        proof {
            use_type_invariant(&*self);
        }
        let owned = key.to_owned();
        let p = sorted_position(&self.map, &owned);
        let found = p < self.map.len() && str_eq(self.map[p].0.as_str(), owned.as_str());
        let entry = (owned, value);
        let mut map: Vec<(String, PolicyAccess)> = Vec::new();
        std::mem::swap(&mut map, &mut self.map);
        if found {
            proof {
                lemma_entries_view_update(map@, p as int, entry);
                lemma_sorted_update(map@, p as int, entry);
            }
            map.set(p, entry);
        } else {
            proof {
                if p < map@.len() {
                    lemma_str_lt_total(map@[p as int].0@, entry.0@);
                }
                lemma_sorted_insert(map@, p as int, entry);
            }
            map.insert(p, entry);
        }
        self.map = map;
    }

    /// Insert every entry of another group, the other group's permission
    /// winning for a key that both hold.
    fn insert_all(&mut self, from: &PolicyGroup)
        ensures
            final(self)@ == old(self)@.union_prefer_right(from@),
    {
        proof {
            use_type_invariant(from);
        }
        let mut i: usize = 0;
        while i < from.map.len()
            invariant
                i <= from.map@.len(),
                unique_keys(from.map@),
                self@ == old(self)@.union_prefer_right(entries_view(from.map@.take(i as int))),
            decreases from.map@.len() - i,
        {
            let ghost before = self@;
            let key = from.map[i].0.as_str();
            let value = from.map[i].1;
            self.insert(key, value);
            proof {
                let s = from.map@.take(i as int + 1);
                assert(s.drop_last() =~= from.map@.take(i as int));
                assert(s.last() == from.map@[i as int]);
                assert(self@ =~= old(self)@.union_prefer_right(entries_view(s)));
            }
            i = i + 1;
        }
        assert(from.map@.take(from.map@.len() as int) =~= from.map@);
    }

    /// Append a group of permissions to this group, leaving the other group
    /// empty; the other group's permission wins for a key that both hold.
    pub fn append(&mut self, other: &mut PolicyGroup)
        ensures
            final(self)@ == old(self)@.union_prefer_right(old(other)@),
            final(other)@ == Map::<Seq<char>, bool>::empty(),
    {
        self.insert_all(other);
        *other = PolicyGroup::new();
    }

    /// A group with the same entries.
    pub fn copy(&self) -> (r: PolicyGroup)
        ensures
            r@ == self@,
            r.entries() == self.entries(),
    {
        proof {
            use_type_invariant(self);
        }
        let mut map: Vec<(String, PolicyAccess)> = Vec::new();
        let mut i: usize = 0;
        while i < self.map.len()
            invariant
                i <= self.map@.len(),
                map@ == self.map@.take(i as int),
            decreases self.map@.len() - i,
        {
            let key = self.map[i].0.clone();
            map.push((key, self.map[i].1));
            proof {
                assert(map@ =~= self.map@.take(i as int + 1));
            }
            i = i + 1;
        }
        assert(map@ =~= self.map@);
        PolicyGroup { map }
    }
}

/// The number of keys in the view is the number of entries when keys never repeat.
proof fn lemma_entries_view_len<V: View>(s: Seq<(String, V)>)
    requires
        unique_keys(s),
    ensures
        entries_view(s).dom().finite(),
        entries_view(s).dom().len() == s.len(),
    decreases s.len(),
{
    if s.len() > 0 {
        let t = s.drop_last();
        assert(unique_keys(t)) by {
            assert forall|a: int, b: int|
                0 <= a < t.len() && 0 <= b < t.len() && a != b implies #[trigger] t[a].0@ != #[trigger] t[b].0@ by {
                assert(t[a] == s[a] && t[b] == s[b]);
            }
        }
        lemma_entries_view_len(t);
        lemma_entries_view_dom(t, s.last().0@);
        if entries_view(t).dom().contains(s.last().0@) {
            let j = choose|j: int| 0 <= j < t.len() && #[trigger] t[j].0@ == s.last().0@;
            assert(s[j].0@ == s[s.len() - 1].0@);
        }
    } else {
        assert(entries_view(s).dom() =~= Set::<Seq<char>>::empty());
    }
}

impl Default for PolicyGroup {
    fn default() -> (r: PolicyGroup)
        ensures
            r@ == Map::<Seq<char>, bool>::empty(),
    {
        PolicyGroup::new()
    }
}

impl Merge for PolicyGroup {
    fn merge(&mut self, from: &Self)
        ensures
            final(self)@ == old(self)@.union_prefer_right(from@),
    {
        self.insert_all(from);
    }
}

/// Enumeration of policy values for the environment access.
#[derive(PartialEq, Eq, Copy, Clone, Debug, Structural)]
pub enum EnvPolicy {
    /// Freeze the environment.
    Frozen,
    /// Do not freeze the environment.
    Unfrozen,
}

impl EnvPolicy {
    /// Determine if a policy is equal to the default policy.
    pub fn is_default(policy: &EnvPolicy) -> (r: bool)
        ensures
            r <==> *policy == EnvPolicy::Frozen,
    {
        *policy == EnvPolicy::Frozen
    }
}

impl Default for EnvPolicy {
    fn default() -> (r: EnvPolicy)
        ensures
            r == EnvPolicy::Frozen,
    {
        EnvPolicy::Frozen
    }
}

/// So we can ignore false booleans from serialization.
pub fn is_false(flag: &bool) -> (r: bool)
    ensures
        r <==> !*flag,
{
    *flag == false
}

/// The abstract content of a package policy.
pub struct PackagePolicyView {
    /// Whether native bindings are allowed.
    pub native: bool,
    /// How to treat the environment.
    pub env: EnvPolicy,
    /// Builtin package accesses.
    pub builtin: Map<Seq<char>, bool>,
    /// Global accesses.
    pub globals: Map<Seq<char>, bool>,
    /// Package accesses.
    pub packages: Map<Seq<char>, bool>,
}

/// Policy for a single package.
#[derive(Debug)]
pub struct PackagePolicy {
    /// Does this policy allow native bindings.
    pub native: bool,
    /// Determine how to treat the environment when hardening.
    pub env: EnvPolicy,
    /// Policy for builtin packages.
    pub builtin: PolicyGroup,
    /// Policy for the ambient authority provided by globals.
    pub globals: PolicyGroup,
    /// Collection of packages accessible via this package.
    pub packages: PolicyGroup,
}

impl View for PackagePolicy {
    type V = PackagePolicyView;

    open spec fn view(&self) -> PackagePolicyView {
        PackagePolicyView {
            native: self.native,
            env: self.env,
            builtin: self.builtin@,
            globals: self.globals@,
            packages: self.packages@,
        }
    }
}

/// The view of a merge of package policies: the flags of `from` and the
/// union of each group, `from` winning on shared keys.
pub open spec fn package_merge(a: PackagePolicyView, from: PackagePolicyView) -> PackagePolicyView {
    PackagePolicyView {
        native: from.native,
        env: from.env,
        builtin: a.builtin.union_prefer_right(from.builtin),
        globals: a.globals.union_prefer_right(from.globals),
        packages: a.packages.union_prefer_right(from.packages),
    }
}

/// The view of an empty (default) package policy.
pub open spec fn empty_package() -> PackagePolicyView {
    PackagePolicyView {
        native: false,
        env: EnvPolicy::Frozen,
        builtin: Map::empty(),
        globals: Map::empty(),
        packages: Map::empty(),
    }
}

impl PackagePolicy {
    /// Create an empty package policy.
    pub fn new() -> (r: PackagePolicy)
        ensures
            r@ == empty_package(),
    {
        PackagePolicy {
            native: false,
            env: EnvPolicy::Frozen,
            builtin: PolicyGroup::new(),
            globals: PolicyGroup::new(),
            packages: PolicyGroup::new(),
        }
    }

    /// Determine if this policy has no builtins, globals and packages.
    pub fn is_empty(&self) -> (r: bool)
        ensures
            r <==> (self@.builtin == Map::<Seq<char>, bool>::empty() && self@.globals == Map::<
                Seq<char>,
                bool,
            >::empty() && self@.packages == Map::<Seq<char>, bool>::empty()),
    {
        PolicyGroup::is_empty(&self.builtin) && PolicyGroup::is_empty(&self.globals)
            && PolicyGroup::is_empty(&self.packages)
    }

    /// A package policy with the same content.
    pub fn copy(&self) -> (r: PackagePolicy)
        ensures
            r@ == self@,
    {
        PackagePolicy {
            native: self.native,
            env: self.env,
            builtin: self.builtin.copy(),
            globals: self.globals.copy(),
            packages: self.packages.copy(),
        }
    }
}

impl Default for PackagePolicy {
    fn default() -> (r: PackagePolicy)
        ensures
            r@ == empty_package(),
    {
        PackagePolicy::new()
    }
}

impl Merge for PackagePolicy {
    fn merge(&mut self, from: &Self)
        ensures
            final(self)@ == package_merge(old(self)@, from@),
    {
        self.native = from.native;
        self.env = from.env;
        self.builtin.merge(&from.builtin);
        self.globals.merge(&from.globals);
        self.packages.merge(&from.packages);
    }
}

/// The view of merging policy `from` into policy `a`: every package of
/// either, a package of both merged as package policies.
pub open spec fn policy_merge(
    a: Map<Seq<char>, PackagePolicyView>,
    from: Map<Seq<char>, PackagePolicyView>,
) -> Map<Seq<char>, PackagePolicyView> {
    Map::new(
        |k: Seq<char>| a.dom().contains(k) || from.dom().contains(k),
        |k: Seq<char>|
            if from.dom().contains(k) {
                if a.dom().contains(k) {
                    package_merge(a[k], from[k])
                } else {
                    from[k]
                }
            } else {
                a[k]
            },
    )
}

/// LavaMoat policy file.
#[derive(Debug)]
pub struct Policy {
    resources: Vec<(String, PackagePolicy)>,
}

impl View for Policy {
    type V = Map<Seq<char>, PackagePolicyView>;

    closed spec fn view(&self) -> Map<Seq<char>, PackagePolicyView> {
        entries_view(self.resources@)
    }
}

impl Policy {
    #[verifier::type_invariant]
    closed spec fn keys_unique(self) -> bool {
        unique_keys(self.resources@) && sorted_keys(self.resources@)
    }

    /// The package entries in the order of their names.
    pub closed spec fn entries(&self) -> Seq<(String, PackagePolicy)> {
        self.resources@
    }

    /// Create a policy without packages.
    pub fn new() -> (r: Policy)
        ensures
            r@ == Map::<Seq<char>, PackagePolicyView>::empty(),
    {
        Policy { resources: Vec::new() }
    }

    /// Index of the entry for a package, if there is one.
    fn position(&self, key: &String) -> (r: Option<usize>)
        ensures
            r is None ==> !self@.dom().contains(key@),
            r matches Some(i) ==> i < self.resources@.len() && self.resources@[i as int].0@ == key@,
    {
        let mut i: usize = 0;
        while i < self.resources.len()
            invariant
                i <= self.resources@.len(),
                forall|j: int| 0 <= j < i ==> #[trigger] self.resources@[j].0@ != key@,
            decreases self.resources@.len() - i,
        {
            if self.resources[i].0 == *key {
                return Some(i);
            }
            i = i + 1;
        }
        proof {
            lemma_entries_view_dom(self.resources@, key@);
        }
        None
    }

    /// Number of packages in the policy.
    pub fn len(&self) -> (r: usize)
        ensures
            self@.dom().finite(),
            r == self@.dom().len(),
            r == self.entries().len(),
            sorted_keys(self.entries()),
    {
        proof {
            use_type_invariant(self);
            lemma_entries_view_len(self.resources@);
        }
        self.resources.len()
    }

    /// The package policy for a package name.
    pub fn get(&self, key: &str) -> (r: Option<&PackagePolicy>)
        ensures
            r is None <==> !self@.dom().contains(key@),
            r matches Some(p) ==> p@ == self@[key@],
    {
        proof {
            use_type_invariant(self);
        }
        let key = key.to_owned();
        match self.position(&key) {
            Some(i) => {
                proof {
                    lemma_entries_view_value(self.resources@, i as int);
                }
                Some(&self.resources[i].1)
            },
            None => None,
        }
    }

    /// The name and policy of the package at an index, in the order of
    /// the package names.
    pub fn entry(&self, index: usize) -> (r: (&String, &PackagePolicy))
        requires
            index < self.entries().len(),
        ensures
            *r.0 == self.entries()[index as int].0,
            r.1@ == self.entries()[index as int].1@,
            self@.dom().contains(r.0@),
            self@[r.0@] == r.1@,
    {
        proof {
            use_type_invariant(self);
            lemma_entries_view_value(self.resources@, index as int);
        }
        (&self.resources[index].0, &self.resources[index].1)
    }

    /// Store a package policy under a key, replacing the key's current policy.
    fn put(&mut self, key: String, value: PackagePolicy)
        ensures
            final(self)@ == old(self)@.insert(key@, value@),
    {
        proof {
            use_type_invariant(&*self);
        }
        let p = sorted_position(&self.resources, &key);
        let found = p < self.resources.len() && str_eq(self.resources[p].0.as_str(), key.as_str());
        let entry = (key, value);
        let mut resources: Vec<(String, PackagePolicy)> = Vec::new();
        std::mem::swap(&mut resources, &mut self.resources);
        if found {
            proof {
                lemma_entries_view_update(resources@, p as int, entry);
                lemma_sorted_update(resources@, p as int, entry);
            }
            resources.set(p, entry);
        } else {
            proof {
                if p < resources@.len() {
                    lemma_str_lt_total(resources@[p as int].0@, entry.0@);
                }
                lemma_sorted_insert(resources@, p as int, entry);
            }
            resources.insert(p, entry);
        }
        self.resources = resources;
    }

    /// Insert a policy into the package resources.
    pub fn insert(&mut self, key: &str, value: PackagePolicy)
        ensures
            final(self)@ == old(self)@.insert(key@, value@),
    {
        self.put(key.to_owned(), value);
    }
}

impl Default for Policy {
    fn default() -> (r: Policy)
        ensures
            r@ == Map::<Seq<char>, PackagePolicyView>::empty(),
    {
        Policy::new()
    }
}

impl Merge for Policy {
    fn merge(&mut self, from: &Self)
        ensures
            final(self)@ == policy_merge(old(self)@, from@),
    {
        proof {
            use_type_invariant(from);
        }
        let mut i: usize = 0;
        while i < from.resources.len()
            invariant
                i <= from.resources@.len(),
                unique_keys(from.resources@),
                self@ == policy_merge(old(self)@, entries_view(from.resources@.take(i as int))),
            decreases from.resources@.len() - i,
        {
            proof {
                use_type_invariant(&*self);
            }
            let ghost before = self@;
            let key = &from.resources[i].0;
            let value = &from.resources[i].1;
            let found = self.position(key);
            let merged = match found {
                Some(j) => {
                    proof {
                        lemma_entries_view_value(self.resources@, j as int);
                    }
                    let mut pkg = self.resources[j].1.copy();
                    pkg.merge(value);
                    pkg
                },
                None => value.copy(),
            };
            self.put(key.clone(), merged);
            proof {
                let s = from.resources@.take(i as int + 1);
                let t = from.resources@.take(i as int);
                assert(s.drop_last() =~= t);
                assert(s.last() == from.resources@[i as int]);
                lemma_entries_view_dom(t, key@);
                if entries_view(t).dom().contains(key@) {
                    let j = choose|j: int| 0 <= j < t.len() && #[trigger] t[j].0@ == key@;
                    assert(from.resources@[j].0@ == from.resources@[i as int].0@);
                }
                assert(self@ =~= policy_merge(old(self)@, entries_view(s)));
            }
            i = i + 1;
        }
        assert(from.resources@.take(from.resources@.len() as int) =~= from.resources@);
    }
}

/// Merging a group into itself leaves it unchanged.
pub proof fn lemma_group_merge_idempotent(m: Map<Seq<char>, bool>)
    ensures
        m.union_prefer_right(m) == m,
{
    assert(m.union_prefer_right(m) =~= m);
}

/// Merging an empty group changes nothing, and merging into an empty group
/// gives the merged group.
pub proof fn lemma_group_merge_empty(m: Map<Seq<char>, bool>)
    ensures
        m.union_prefer_right(Map::empty()) == m,
        Map::<Seq<char>, bool>::empty().union_prefer_right(m) == m,
{
    assert(m.union_prefer_right(Map::empty()) =~= m);
    assert(Map::<Seq<char>, bool>::empty().union_prefer_right(m) =~= m);
}

/// After a group merge a key reads the merged group's permission when the
/// merged group holds it, and its earlier permission otherwise.
pub proof fn lemma_group_merge_read(m: Map<Seq<char>, bool>, from: Map<Seq<char>, bool>, k: Seq<char>)
    ensures
        from.dom().contains(k) ==> m.union_prefer_right(from)[k] == from[k],
        !from.dom().contains(k) && m.dom().contains(k) ==> m.union_prefer_right(from)[k] == m[k],
        m.union_prefer_right(from).dom().contains(k) <==> (m.dom().contains(k) || from.dom().contains(k)),
{
}

/// A permission inserted into a group is read back from it, and the other
/// keys keep their permissions.
pub proof fn lemma_group_insert_read(m: Map<Seq<char>, bool>, k: Seq<char>, v: bool, other: Seq<char>)
    ensures
        m.insert(k, v)[k] == v,
        other != k ==> (m.insert(k, v).dom().contains(other) <==> m.dom().contains(other)),
        other != k && m.dom().contains(other) ==> m.insert(k, v)[other] == m[other],
{
}

/// Merging a package policy into itself leaves it unchanged.
pub proof fn lemma_package_merge_idempotent(p: PackagePolicyView)
    ensures
        package_merge(p, p) == p,
{
    lemma_group_merge_idempotent(p.builtin);
    lemma_group_merge_idempotent(p.globals);
    lemma_group_merge_idempotent(p.packages);
}

/// Merging a policy into itself leaves it unchanged.
pub proof fn lemma_policy_merge_idempotent(a: Map<Seq<char>, PackagePolicyView>)
    ensures
        policy_merge(a, a) == a,
{
    assert forall|k: Seq<char>| #[trigger] a.dom().contains(k) implies policy_merge(a, a)[k] == a[k] by {
        lemma_package_merge_idempotent(a[k]);
    }
    assert(policy_merge(a, a) =~= a);
}

/// Merging a policy without packages changes nothing, and merging into a
/// policy without packages gives the merged policy.
pub proof fn lemma_policy_merge_empty(a: Map<Seq<char>, PackagePolicyView>)
    ensures
        policy_merge(a, Map::empty()) == a,
        policy_merge(Map::empty(), a) == a,
{
    assert(policy_merge(a, Map::empty()) =~= a);
    assert(policy_merge(Map::empty(), a) =~= a);
}

/// The packages of a merged policy are those of either policy.
pub proof fn lemma_policy_merge_keys(a: Map<Seq<char>, PackagePolicyView>, from: Map<Seq<char>, PackagePolicyView>)
    ensures
        policy_merge(a, from).dom() == a.dom().union(from.dom()),
{
    assert(policy_merge(a, from).dom() =~= a.dom().union(from.dom()));
}

} // verus!
