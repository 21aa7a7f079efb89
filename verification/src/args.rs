//! The command interpreter: turns the process's argument words into one of
//! the four commands, or reports why they fit none.

use vstd::prelude::*;
use crate::commands::CmdView;
use crate::commands::Commands;
use crate::seq_views;
use crate::text::dec_val;
use crate::text::is_u16_digits;
use crate::text::parse_u16;
use crate::text::str_eq;

verus! {

/// Why an argument list names no command: it matches none of the four
/// shapes, or its position argument is not one or more decimal digits
/// denoting a value at most `u16::MAX`.
#[derive(Debug, Clone, Copy, PartialEq, Eq, Structural)]
pub enum ArgError {
    UnrecognizedShape,
    InvalidIndex,
}

/// The command an argument list denotes. The four shapes are
/// `create <todo>`, `read`, `update <id> <desc>` and `delete <id>`, with
/// `<id>` one or more decimal digits denoting a value at most `u16::MAX`.
pub open spec fn spec_parse_command(a: Seq<Seq<char>>) -> Result<CmdView, ArgError> {
    if a.len() == 2 && a[0] == "create"@ {
        Ok(CmdView::Create { todo: a[1] })
    } else if a.len() == 1 && a[0] == "read"@ {
        Ok(CmdView::Read)
    } else if a.len() == 3 && a[0] == "update"@ {
        if is_u16_digits(a[1]) {
            Ok(CmdView::Update { id: dec_val(a[1]) as u16, desc: a[2] })
        } else {
            Err(ArgError::InvalidIndex)
        }
    } else if a.len() == 2 && a[0] == "delete"@ {
        if is_u16_digits(a[1]) {
            Ok(CmdView::Delete { id: dec_val(a[1]) as u16 })
        } else {
            Err(ArgError::InvalidIndex)
        }
    } else {
        Err(ArgError::UnrecognizedShape)
    }
}

/// Parses the argument words (the command name first, the program's own
/// name excluded) into a command, exactly as [`spec_parse_command`] says.
pub fn parse_command(args: &Vec<String>) -> (r: Result<Commands, ArgError>)
    ensures
        match r {
            Ok(c) => spec_parse_command(seq_views(args@)) == Ok::<CmdView, ArgError>(c@),
            Err(e) => spec_parse_command(seq_views(args@)) == Err::<CmdView, ArgError>(e),
        },
{
    let n = args.len();
    if n == 2 && str_eq(args[0].as_str(), "create") {
        Ok(Commands::Create { todo: args[1].clone() })
    } else if n == 1 && str_eq(args[0].as_str(), "read") {
        Ok(Commands::Read)
    } else if n == 3 && str_eq(args[0].as_str(), "update") {
        match parse_u16(args[1].as_str()) {
            Some(id) => Ok(Commands::Update { id, desc: args[2].clone() }),
            None => Err(ArgError::InvalidIndex),
        }
    } else if n == 2 && str_eq(args[0].as_str(), "delete") {
        match parse_u16(args[1].as_str()) {
            Some(id) => Ok(Commands::Delete { id }),
            None => Err(ArgError::InvalidIndex),
        }
    } else {
        Err(ArgError::UnrecognizedShape)
    }
}

/// A short usage notice for arguments that name no command.
pub fn usage() -> (r: String)
    ensures
        r@ == "usage: create <todo> | read | update <id> <desc> | delete <id>"@,
{
    "usage: create <todo> | read | update <id> <desc> | delete <id>".to_owned()
}

} // verus!
