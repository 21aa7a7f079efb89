//! A verified to-do list library: an ordered list of one-line text items,
//! persisted as a plain text file with one item per line.

use vstd::prelude::*;

pub mod args;
pub mod codec;
pub mod commands;
pub mod laws;
pub mod present;
pub mod text;

verus! {

/// The character sequences of a sequence of strings.
pub open spec fn seq_views(l: Seq<String>) -> Seq<Seq<char>> {
    l.map_values(|s: String| s@)
}

/// True when no item contains an embedded line break, so the list is
/// representable in the one-item-per-line file format.
pub open spec fn no_newlines(items: Seq<Seq<char>>) -> bool {
    forall|i: int| 0 <= i < items.len() ==> !items[i].contains('\n')
}

} // verus!
