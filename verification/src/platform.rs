//! The operating-system family whose conventions a call follows, and the
//! views of sequences and optional texts that the contracts share.

use vstd::prelude::*;

verus! {

/// The three families of hosts. Every function whose behaviour differs
/// between them takes the family as an argument, so that each variant can be
/// exercised on any machine.
#[derive(Clone, Copy, Debug, PartialEq, Eq, Structural)]
pub enum Platform {
    Linux,
    MacOs,
    Windows,
}

/// The views of the items of a sequence.
pub open spec fn views<T: View>(s: Seq<T>) -> Seq<T::V> {
    Seq::new(s.len(), |i: int| s[i]@)
}

/// The view of an optional text.
pub open spec fn opt_view(s: Option<String>) -> Option<Seq<char>> {
    match s {
        Some(t) => Some(t@),
        None => None,
    }
}

} // verus!
