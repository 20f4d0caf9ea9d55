//! The command set: an enumerated transformation identifier, a parser
//! from a textual token, and argument-level command selection.

use vstd::prelude::*;
use crate::text::str_eq;

verus! {

/// One of the fixed set of commands a user may request. `Exit` only ends
/// an interactive session; it never reaches the transformations.
#[derive(Copy, Clone, Debug, PartialEq, Eq, Structural)]
pub enum Command {
    Lowercase,
    Uppercase,
    NoSpaces,
    Slugify,
    Csv,
    Exit,
}

/// An unrecognized command token, kept verbatim for reporting.
#[derive(Debug)]
pub struct CommandParseError {
    pub invalid_command: String,
}

/// What `Command::from_str` recognizes: the exact lowercase token of each
/// command, and nothing else.
pub open spec fn parse_command(s: Seq<char>) -> Option<Command> {
    if s == "lowercase"@ {
        Some(Command::Lowercase)
    } else if s == "uppercase"@ {
        Some(Command::Uppercase)
    } else if s == "no-spaces"@ {
        Some(Command::NoSpaces)
    } else if s == "slugify"@ {
        Some(Command::Slugify)
    } else if s == "csv"@ {
        Some(Command::Csv)
    } else if s == "exit"@ {
        Some(Command::Exit)
    } else {
        None
    }
}

impl CommandParseError {
    /// The one-line diagnostic for an unrecognized token; it always names
    /// the token itself.
    pub fn message(&self) -> (r: String)
        ensures
            r@ == "invalid command: "@ + self.invalid_command@,
    {
        let mut out = String::from_str("invalid command: ");
        out.append(self.invalid_command.as_str());
        out
    }
}

impl Command {
    /// Maps a token to its command, case-sensitively and without
    /// trimming; any other token is rejected and carried back verbatim.
    pub fn from_str(command_input: &str) -> (r: Result<Command, CommandParseError>)
        ensures
            match r {
                Ok(c) => parse_command(command_input@) == Some(c),
                Err(e) => parse_command(command_input@) is None
                    && e.invalid_command@ == command_input@,
            },
    {
        if str_eq(command_input, "lowercase") {
            Ok(Command::Lowercase)
        } else if str_eq(command_input, "uppercase") {
            Ok(Command::Uppercase)
        } else if str_eq(command_input, "no-spaces") {
            Ok(Command::NoSpaces)
        } else if str_eq(command_input, "slugify") {
            Ok(Command::Slugify)
        } else if str_eq(command_input, "csv") {
            Ok(Command::Csv)
        } else if str_eq(command_input, "exit") {
            Ok(Command::Exit)
        } else {
            Err(CommandParseError { invalid_command: String::from_str(command_input) })
        }
    }
}

/// Selects the command named by the first argument after the program
/// name. Non-interactive mode guarantees that argument exists.
pub fn parse_args(args: Vec<String>) -> (r: Result<Command, CommandParseError>)
    requires
        args@.len() >= 2,
    ensures
        match r {
            Ok(c) => parse_command(args@[1]@) == Some(c),
            Err(e) => parse_command(args@[1]@) is None && e.invalid_command@ == args@[1]@,
        },
{
    Command::from_str(args[1].as_str())
}

} // verus!
