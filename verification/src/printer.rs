//! Print the module graph as a tree.
use vstd::prelude::*;

use crate::module::graph::{BranchState, VisitedDependency};

verus! {

/// Options to use when printing the module graph.
#[derive(Debug, Default)]
pub struct PrintOptions {
    /// Include file names.
    pub include_file: bool,
}

/// Prints the module graph as a tree.
pub struct Printer;

/// The bar that continues an open branch.
pub open spec fn tree_bar() -> Seq<char> {
    seq!['│', ' ', ' ', ' ']
}

/// The space under a closed branch.
pub open spec fn tree_space() -> Seq<char> {
    seq![' ', ' ', ' ', ' ']
}

/// The mark of a child that has siblings after it.
pub open spec fn tree_branch() -> Seq<char> {
    seq!['├', '─', '─', ' ']
}

/// The mark of the last child.
pub open spec fn tree_corner() -> Seq<char> {
    seq!['└', '─', '─', ' ']
}

/// The indentation of a dependency: for each enclosing branch a bar while it
/// has children to come or a space when it was the last, then the mark of
/// the dependency itself.
pub open spec fn tree_indent(open: Seq<BranchState>, last: bool) -> Seq<char>
    decreases open.len(),
{
    if open.len() == 0 {
        Seq::empty()
    } else if open.len() == 1 {
        if last {
            tree_corner()
        } else {
            tree_branch()
        }
    } else {
        (if open[0].last {
            tree_space()
        } else {
            tree_bar()
        }) + tree_indent(open.drop_first(), last)
    }
}

/// The line printed for a dependency: its indentation and specifier, the
/// file name when asked for, and the file that closes a cycle.
pub open spec fn tree_line(dep: VisitedDependency, include_file: bool) -> Seq<char> {
    tree_indent(dep.open@, dep.last) + dep.spec@ + (if include_file {
        seq![' '] + dep.file_name@
    } else {
        Seq::empty()
    }) + match dep.cycle {
        Some(c) => seq![' ', '(', '∞', ' ', '-', '>', ' '] + c@ + seq![')'],
        None => Seq::empty(),
    }
}

impl Printer {
    /// Creates a new module graph printer.
    pub fn new() -> (r: Printer) {
        Printer {}
    }

    /// The line that lists a dependency met while walking the module graph
    /// from an entry point.
    pub fn line(&self, dep: &VisitedDependency, options: &PrintOptions) -> (r: String)
        ensures
            r@ == tree_line(*dep, options.include_file),
    {
        let mut out = String::new();
        let n = dep.open.len();
        proof {
            assert(dep.open@.skip(0) =~= dep.open@);
            assert(out@ + tree_indent(dep.open@, dep.last) =~= tree_indent(dep.open@, dep.last));
        }
        let mut j: usize = 0;
        while j < n
            invariant
                n == dep.open@.len(),
                j <= n,
                out@ + tree_indent(dep.open@.skip(j as int), dep.last) == tree_indent(dep.open@, dep.last),
            decreases n - j,
        {
            let ghost rest = dep.open@.skip(j as int);
            let ghost before = out@;
            proof {
                assert(rest.drop_first() =~= dep.open@.skip(j as int + 1));
                assert(rest[0] == dep.open@[j as int]);
            }
            if j + 1 < n {
                if dep.open[j].last {
                    out.append("    ");
                    proof {
                        reveal_strlit("    ");
                    }
                    assert(out@.skip(before.len() as int) =~= tree_space());
                } else {
                    out.append("│   ");
                    proof {
                        reveal_strlit("│   ");
                    }
                    assert(out@.skip(before.len() as int) =~= tree_bar());
                }
            } else if dep.last {
                out.append("└── ");
                proof {
                    reveal_strlit("└── ");
                }
                assert(out@.skip(before.len() as int) =~= tree_corner());
            } else {
                out.append("├── ");
                proof {
                    reveal_strlit("├── ");
                }
                assert(out@.skip(before.len() as int) =~= tree_branch());
            }
            proof {
                let tail = tree_indent(dep.open@.skip(j as int + 1), dep.last);
                let piece = out@.skip(before.len() as int);
                assert(out@ =~= before + piece);
                assert(rest.len() == n - j);
                if j + 1 < n {
                    assert(tree_indent(rest, dep.last) == piece + tail);
                } else {
                    assert(dep.open@.skip(j as int + 1) =~= Seq::<BranchState>::empty());
                    assert(tree_indent(rest, dep.last) == piece);
                    assert(tail == Seq::<char>::empty());
                }
                assert(before + (piece + tail) =~= (before + piece) + tail);
            }
            j = j + 1;
        }
        proof {
            assert(dep.open@.skip(n as int) =~= Seq::<BranchState>::empty());
            assert(out@ =~= tree_indent(dep.open@, dep.last));
        }
        proof {
            reveal_strlit(" ");
            reveal_strlit(" (∞ -> ");
            reveal_strlit(")");
        }
        out.append(dep.spec.as_str());
        if options.include_file {
            out.append(" ");
            out.append(dep.file_name.as_str());
        }
        if let Some(cycle) = &dep.cycle {
            out.append(" (∞ -> ");
            out.append(cycle.as_str());
            out.append(")");
        }
        proof {
            assert(out@ =~= tree_line(*dep, options.include_file));
        }
        out
    }
}

} // verus!
