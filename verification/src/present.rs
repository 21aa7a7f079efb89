//! The presenter: renders the list as a bordered two-column table with each
//! item's position, or an explicit notice when the list is empty.
//!
//! The table itself comes from the `comfy_table` crate; the library builds
//! it row by row through the trusted wrappers below and is verified against
//! their contracts.

use vstd::prelude::*;
use comfy_table::Table;
use crate::commands::Commands;
use crate::seq_views;
use crate::text::dec_repr;
use crate::text::dec_string;

verus! {

#[verifier::external_type_specification]
#[verifier::external_body]
pub struct ExTable(Table);

/// The cell texts of a table's rows, in order: for each row the text of its
/// first and of its second column.
pub uninterp spec fn table_rows(t: Table) -> Seq<(Seq<char>, Seq<char>)>;

/// The table carries the fixed to-do presentation settings that
/// [`new_todo_table`] establishes (preset, rounded corners, dynamic
/// arrangement at width 50, the two-column header, terminal detection off),
/// with its columns as `comfy_table` derives them from the rows.
pub uninterp spec fn table_configured(t: Table) -> bool;

/// The text that `comfy_table` renders for a configured table with the
/// given rows. With terminal detection off and an explicit width, the
/// rendering is a function of the rows alone.
pub uninterp spec fn rendering_of(rows: Seq<(Seq<char>, Seq<char>)>) -> Seq<char>;

/// Relies on `comfy_table::Table::new` and its styling setters: the fresh
/// table has no rows; `force_no_tty` keeps every later call free of any
/// look at the terminal.
#[verifier::external_body]
fn new_todo_table() -> (t: Table)
    ensures
        table_configured(t),
        table_rows(t) == Seq::<(Seq<char>, Seq<char>)>::empty(),
{
    let mut t = Table::new();
    t.load_preset(comfy_table::presets::UTF8_FULL)
        .apply_modifier(comfy_table::modifiers::UTF8_ROUND_CORNERS)
        .set_content_arrangement(comfy_table::ContentArrangement::Dynamic)
        .set_width(50)
        .force_no_tty()
        .set_header(vec![
            comfy_table::Cell::new("Index:").add_attribute(comfy_table::Attribute::Bold).fg(
                comfy_table::Color::Yellow,
            ),
            comfy_table::Cell::new("To-do:").add_attribute(comfy_table::Attribute::Bold).fg(
                comfy_table::Color::Yellow,
            ),
        ]);
    t
}

/// Relies on `comfy_table::Table::add_row`: appends one two-cell row and
/// touches nothing else of the table's setup.
#[verifier::external_body]
fn push_table_row(t: &mut Table, label: String, text: String)
    ensures
        table_rows(*final(t)) == table_rows(*old(t)).push((label@, text@)),
        table_configured(*final(t)) == table_configured(*old(t)),
{
    t.add_row(vec![label, text]);
}

/// Relies on `comfy_table::Table`'s `Display`: for a configured table the
/// rendered text is a function of the rows alone.
#[verifier::external_body]
fn render_table(t: &Table) -> (r: String)
    ensures
        table_configured(*t) ==> r@ == rendering_of(table_rows(*t)),
{
    t.to_string()
}

/// The label shown for position `i`: its decimal digits and a full stop.
pub open spec fn spec_label(i: nat) -> Seq<char> {
    dec_repr(i).push('.')
}

/// The table rows for a list: row `i` holds the label for position `i` and
/// the item's text.
pub open spec fn spec_rows(items: Seq<Seq<char>>) -> Seq<(Seq<char>, Seq<char>)> {
    Seq::new(items.len(), |i: int| (spec_label(i as nat), items[i]))
}

/// Writes the label for position `i`.
fn label_string(i: usize) -> (r: String)
    ensures
        r@ == spec_label(i as nat),
{
    let mut r = dec_string(i);
    r.append(".");
    proof {
        reveal_strlit(".");
        assert(r@ =~= spec_label(i as nat));
    }
    r
}

impl Commands {
    /// Renders the list for display: the explicit empty notice when there
    /// is nothing to show, and otherwise the table with one row per item,
    /// each under its current position label, in ascending order. Reading
    /// never changes the list.
    pub fn read(todos: &Vec<String>) -> (out: String)
        ensures
            todos@.len() == 0 ==> out@ == "To-do list is empty."@,
            todos@.len() > 0 ==> out@ == rendering_of(spec_rows(seq_views(todos@))),
    {
        if todos.len() == 0 {
            return "To-do list is empty.".to_owned();
        }
        let ghost items = seq_views(todos@);
        let mut t = new_todo_table();
        proof {
            assert(spec_rows(items).take(0) =~= Seq::<(Seq<char>, Seq<char>)>::empty());
        }
        let mut i: usize = 0;
        while i < todos.len()
            invariant
                i <= todos@.len(),
                items == seq_views(todos@),
                items.len() == todos@.len(),
                forall|k: int| 0 <= k < todos@.len() ==> items[k] == todos@[k]@,
                table_configured(t),
                table_rows(t) == spec_rows(items).take(i as int),
            decreases todos@.len() - i,
        {
            let label = label_string(i);
            push_table_row(&mut t, label, todos[i].clone());
            proof {
                assert(spec_rows(items).take(i + 1) =~= spec_rows(items).take(i as int).push(
                    (spec_label(i as nat), items[i as int]),
                ));
            }
            i += 1;
        }
        proof {
            assert(spec_rows(items).take(todos@.len() as int) =~= spec_rows(items));
        }
        render_table(&t)
    }
}

} // verus!
