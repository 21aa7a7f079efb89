//! Laws that relate several operations: what a run of `create`s leaves in
//! storage, and that reading leaves storage unchanged.

use vstd::prelude::*;
use crate::codec::lemma_round_trip;
use crate::codec::spec_parse;
use crate::codec::spec_serialize;
use crate::commands::spec_apply;
use crate::commands::CmdView;
use crate::no_newlines;

verus! {

/// The list after running the commands in order, first command first.
pub open spec fn apply_all(cs: Seq<CmdView>, items: Seq<Seq<char>>) -> Seq<Seq<char>>
    decreases cs.len(),
{
    if cs.len() == 0 {
        items
    } else {
        apply_all(cs.drop_first(), spec_apply(cs[0], items))
    }
}

/// Every command of the run is a `Create`.
pub open spec fn all_creates(cs: Seq<CmdView>) -> bool {
    forall|i: int| 0 <= i < cs.len() ==> cs[i] is Create
}

/// The text a `Create` carries.
pub open spec fn created_text(c: CmdView) -> Seq<char>
    recommends
        c is Create,
{
    match c {
        CmdView::Create { todo } => todo,
        _ => Seq::empty(),
    }
}

/// A run of `create`s appends its texts, in order, after the starting list.
proof fn lemma_creates_append(cs: Seq<CmdView>, items: Seq<Seq<char>>)
    requires
        all_creates(cs),
    ensures
        apply_all(cs, items) == items + cs.map_values(|c: CmdView| created_text(c)),
    decreases cs.len(),
{
    let texts = cs.map_values(|c: CmdView| created_text(c));
    if cs.len() == 0 {
        assert(apply_all(cs, items) =~= items + texts);
    } else {
        assert(all_creates(cs.drop_first())) by {
            assert(forall|i: int|
                0 <= i < cs.drop_first().len() ==> cs.drop_first()[i] == cs[i + 1]);
        }
        lemma_creates_append(cs.drop_first(), spec_apply(cs[0], items));
        let text0 = created_text(cs[0]);
        assert(spec_apply(cs[0], items) == items.push(text0));
        assert(cs.drop_first().map_values(|c: CmdView| created_text(c)) =~= texts.drop_first());
        assert(texts[0] == text0);
        assert(items.push(text0) + texts.drop_first() =~= items + texts);
    }
}

/// Starting from an empty list, a run of `create`s yields exactly the
/// created texts in creation order, and the file written for that list
/// parses back to exactly those texts, provided none contains a line break.
pub proof fn lemma_creates_fill_storage(cs: Seq<CmdView>)
    requires
        all_creates(cs),
        no_newlines(cs.map_values(|c: CmdView| created_text(c))),
    ensures
        apply_all(cs, Seq::empty()) == cs.map_values(|c: CmdView| created_text(c)),
        spec_parse(spec_serialize(apply_all(cs, Seq::empty()))) == cs.map_values(
            |c: CmdView| created_text(c),
        ),
{
    let texts = cs.map_values(|c: CmdView| created_text(c));
    lemma_creates_append(cs, Seq::empty());
    assert(Seq::empty() + texts =~= texts);
    lemma_round_trip(texts);
}

/// `Read` leaves the list as it is, and rewriting that list to storage and
/// loading it back reproduces it, provided no item contains a line break:
/// reading never changes what is stored.
pub proof fn lemma_read_preserves_storage(items: Seq<Seq<char>>)
    requires
        no_newlines(items),
    ensures
        spec_apply(CmdView::Read, items) == items,
        spec_parse(spec_serialize(spec_apply(CmdView::Read, items))) == items,
{
    lemma_round_trip(items);
}

} // verus!
