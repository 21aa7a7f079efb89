//! The four to-do operations and how each transforms the ordered list.

use vstd::prelude::*;
use crate::seq_views;

verus! {

/// The mathematical form of a command: the same four variants as
/// [`Commands`], with each text payload as a sequence of characters.
pub enum CmdView {
    Create { todo: Seq<char> },
    Read,
    Update { id: u16, desc: Seq<char> },
    Delete { id: u16 },
}

/// A parsed command: append an item, show the list, replace the item at a
/// position, or remove the item at a position. Positions are zero-based and
/// bounded by `u16::MAX`.
#[derive(Debug, PartialEq, Eq)]
pub enum Commands {
    Create { todo: String },
    Read,
    Update { id: u16, desc: String },
    Delete { id: u16 },
}

impl View for Commands {
    type V = CmdView;

    open spec fn view(&self) -> CmdView {
        match self {
            Commands::Create { todo } => CmdView::Create { todo: todo@ },
            Commands::Read => CmdView::Read,
            Commands::Update { id, desc } => CmdView::Update { id: *id, desc: desc@ },
            Commands::Delete { id } => CmdView::Delete { id: *id },
        }
    }
}

/// What a command does to the list, stated over sequences.
pub open spec fn spec_apply(c: CmdView, items: Seq<Seq<char>>) -> Seq<Seq<char>> {
    match c {
        CmdView::Create { todo } => items.push(todo),
        CmdView::Read => items,
        CmdView::Update { id, desc } => items.update(id as int, desc),
        CmdView::Delete { id } => items.remove(id as int),
    }
}

/// A command's position argument, if any, addresses an existing item of a
/// list of the given length.
pub open spec fn valid_for(c: CmdView, len: nat) -> bool {
    match c {
        CmdView::Update { id, .. } => (id as nat) < len,
        CmdView::Delete { id } => (id as nat) < len,
        _ => true,
    }
}

/// The error a position-addressed operation reports when the position does
/// not name an existing item.
#[derive(Debug, Clone, Copy, PartialEq, Eq, Structural)]
pub enum TodoError {
    IndexOutOfRange,
}

impl Commands {
    /// Appends `todo` as the new last item.
    pub fn create(todo: String, todos: &mut Vec<String>)
        ensures
            final(todos)@ == old(todos)@.push(todo),
    {
        todos.push(todo);
    }

    /// Replaces the item at position `id` with `desc`; every other item and
    /// the length stay as they were.
    pub fn update(id: u16, desc: String, todos: &mut Vec<String>)
        requires
            (id as int) < old(todos)@.len(),
        ensures
            final(todos)@ == old(todos)@.update(id as int, desc),
            final(todos)@.len() == old(todos)@.len(),
            final(todos)@[id as int] == desc,
            forall|j: int|
                0 <= j < old(todos)@.len() && j != id as int ==> final(todos)@[j] == old(
                    todos,
                )@[j],
    {
        let slot = &mut todos[id as usize];
        *slot = desc;
    }

    /// Removes the item at position `id`; items before it stay in place and
    /// items after it shift one position earlier.
    pub fn delete(id: u16, todos: &mut Vec<String>)
        requires
            (id as int) < old(todos)@.len(),
        ensures
            final(todos)@ == old(todos)@.remove(id as int),
            final(todos)@.len() == old(todos)@.len() - 1,
            forall|j: int| 0 <= j < id as int ==> final(todos)@[j] == old(todos)@[j],
            forall|j: int|
                id as int <= j < final(todos)@.len() ==> final(todos)@[j] == old(todos)@[j + 1],
    {
        todos.remove(id as usize);
    }

    /// Applies this command to the list: `Create` appends, `Update` replaces,
    /// `Delete` removes, and `Read` leaves the list unchanged.
    pub fn operation(&self, todos: &mut Vec<String>)
        requires
            valid_for(self@, old(todos)@.len() as nat),
        ensures
            seq_views(final(todos)@) == spec_apply(self@, seq_views(old(todos)@)),
    {
        match self {
            Commands::Create { todo } => Self::create(todo.clone(), todos),
            Commands::Read => {
            },
            Commands::Update { id, desc } => Self::update(*id, desc.clone(), todos),
            Commands::Delete { id } => Self::delete(*id, todos),
        }
        proof {
            lemma_operation_views(self@, old(todos)@, todos@);
        }
    }

    /// Like [`Commands::update`], but rejects an out-of-range position with
    /// [`TodoError::IndexOutOfRange`] and leaves the list unchanged.
    pub fn try_update(id: u16, desc: String, todos: &mut Vec<String>) -> (r: Result<
        (),
        TodoError,
    >)
        ensures
            (id as int) < old(todos)@.len() ==> r is Ok && final(todos)@ == old(todos)@.update(
                id as int,
                desc,
            ),
            (id as int) >= old(todos)@.len() ==> r == Result::<(), TodoError>::Err(
                TodoError::IndexOutOfRange,
            ) && final(todos)@ == old(todos)@,
    {
        if (id as usize) < todos.len() {
            Self::update(id, desc, todos);
            Ok(())
        } else {
            Err(TodoError::IndexOutOfRange)
        }
    }

    /// Like [`Commands::delete`], but rejects an out-of-range position with
    /// [`TodoError::IndexOutOfRange`] and leaves the list unchanged.
    pub fn try_delete(id: u16, todos: &mut Vec<String>) -> (r: Result<(), TodoError>)
        ensures
            (id as int) < old(todos)@.len() ==> r is Ok && final(todos)@ == old(todos)@.remove(
                id as int,
            ),
            (id as int) >= old(todos)@.len() ==> r == Result::<(), TodoError>::Err(
                TodoError::IndexOutOfRange,
            ) && final(todos)@ == old(todos)@,
    {
        if (id as usize) < todos.len() {
            Self::delete(id, todos);
            Ok(())
        } else {
            Err(TodoError::IndexOutOfRange)
        }
    }

    /// Applies this command if its position argument (when it has one) is in
    /// range, and otherwise reports [`TodoError::IndexOutOfRange`] and leaves
    /// the list unchanged.
    pub fn try_operation(&self, todos: &mut Vec<String>) -> (r: Result<(), TodoError>)
        ensures
            valid_for(self@, old(todos)@.len() as nat) ==> r is Ok && seq_views(final(todos)@)
                == spec_apply(self@, seq_views(old(todos)@)),
            !valid_for(self@, old(todos)@.len() as nat) ==> r == Result::<(), TodoError>::Err(
                TodoError::IndexOutOfRange,
            ) && final(todos)@ == old(todos)@,
    {
        match self {
            Commands::Update { id, .. } => {
                if (*id as usize) >= todos.len() {
                    return Err(TodoError::IndexOutOfRange);
                }
            },
            Commands::Delete { id } => {
                if (*id as usize) >= todos.len() {
                    return Err(TodoError::IndexOutOfRange);
                }
            },
            _ => {
            },
        }
        self.operation(todos);
        Ok(())
    }
}

/// Applying a command and then taking the items' character sequences is the
/// same as applying it to the character sequences directly.
proof fn lemma_operation_views(c: CmdView, before: Seq<String>, after: Seq<String>)
    requires
        valid_for(c, before.len()),
        match c {
            CmdView::Create { todo } => exists|s: String| s@ == todo && after == before.push(s),
            CmdView::Read => after == before,
            CmdView::Update { id, desc } => exists|s: String|
                s@ == desc && after == before.update(id as int, s),
            CmdView::Delete { id } => after == before.remove(id as int),
        },
    ensures
        seq_views(after) == spec_apply(c, seq_views(before)),
{
    match c {
        CmdView::Create { todo } => {
            assert(seq_views(after) =~= seq_views(before).push(todo));
        },
        CmdView::Read => {
            assert(seq_views(after) =~= seq_views(before));
        },
        CmdView::Update { id, desc } => {
            assert(seq_views(after) =~= seq_views(before).update(id as int, desc));
        },
        CmdView::Delete { id } => {
            assert(seq_views(after) =~= seq_views(before).remove(id as int));
        },
    }
}

} // verus!
