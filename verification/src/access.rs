//! Symbol access flags.
use vstd::prelude::*;

verus! {

/// Represents the access control to a code symbol.
#[derive(Debug, Default, Copy, Clone, PartialEq, Eq, Hash, Structural)]
pub struct Access {
    /// Read access to the symbol.
    pub read: bool,
    /// Write access to the symbol.
    pub write: bool,
    /// Execute (function call) access to the symbol.
    pub execute: bool,
}

/// The access that holds every flag set in either of two accesses.
pub open spec fn access_union(a: Access, b: Access) -> Access {
    Access { read: a.read || b.read, write: a.write || b.write, execute: a.execute || b.execute }
}

impl Access {
    /// Merge positive flags from other into this access.
    pub fn merge(&mut self, other: &Self)
        ensures
            *final(self) == access_union(*old(self), *other),
    {
        if other.read {
            self.read = true
        }
        if other.write {
            self.write = true
        }
        if other.execute {
            self.execute = true
        }
    }
}

/// Helper for analysis tasks to determine what type of
/// access to assign when walking AST nodes is complete.
#[derive(Debug, Copy, Clone, PartialEq, Eq, Structural)]
pub enum AccessKind {
    /// Assign read access.
    Read,
    /// Assign write access.
    Write,
    /// Assign execute access.
    Execute,
}

/// Merging an access into itself leaves it unchanged.
pub proof fn lemma_access_merge_idempotent(a: Access)
    ensures
        access_union(a, a) == a,
{
}

/// The order in which two accesses are merged does not matter.
pub proof fn lemma_access_merge_commutative(a: Access, b: Access)
    ensures
        access_union(a, b) == access_union(b, a),
{
}

/// Merging never clears a flag: every flag set before a merge is set after it,
/// and every flag set in the merged access is set after it.
pub proof fn lemma_access_merge_monotone(a: Access, b: Access)
    ensures
        a.read ==> access_union(a, b).read,
        a.write ==> access_union(a, b).write,
        a.execute ==> access_union(a, b).execute,
        b.read ==> access_union(a, b).read,
        b.write ==> access_union(a, b).write,
        b.execute ==> access_union(a, b).execute,
{
}

/// Merging the empty (default) access changes nothing.
pub proof fn lemma_access_merge_default_identity(a: Access)
    ensures
        access_union(a, Access { read: false, write: false, execute: false }) == a,
{
}

} // verus!
