//! The command interpreter: process arguments become exactly one command,
//! and one command is applied to the list.

use crate::digits::{parse_index, spec_parse_index};
use crate::list::{mark_spec, TaskSpec, TodoError, TodoList};
use crate::strutil::str_eq;
use vstd::prelude::*;

verus! {

/// Mathematical model of a parsed command.
pub ghost enum CommandSpec {
    Get,
    Add(Seq<char>),
    Done(usize),
    Delete(usize),
}

/// One of the four commands the interpreter accepts.
pub enum Command {
    /// Print the list and change nothing.
    Get,
    /// Append an incomplete task with this name.
    Add(String),
    /// Mark the task at this index complete.
    Done(usize),
    /// Delete the task at this index.
    Delete(usize),
}

impl View for Command {
    type V = CommandSpec;

    open spec fn view(&self) -> CommandSpec {
        match self {
            Command::Get => CommandSpec::Get,
            Command::Add(name) => CommandSpec::Add(name@),
            Command::Done(i) => CommandSpec::Done(*i),
            Command::Delete(i) => CommandSpec::Delete(*i),
        }
    }
}

/// What parsing the arguments yields.  The first argument selects the
/// command; `add` takes a name, `done` and `delete` take an index.  A missing
/// argument or an unknown command word is a usage error; an index argument
/// that is not a non-negative integer in machine range is a parse error.
/// Arguments beyond the ones a command takes are ignored.
pub open spec fn spec_parse(args: Seq<Seq<char>>) -> Result<CommandSpec, TodoError> {
    if args.len() == 0 {
        Err(TodoError::UsageError)
    } else if args[0] == "get"@ {
        Ok(CommandSpec::Get)
    } else if args[0] == "add"@ {
        if args.len() >= 2 {
            Ok(CommandSpec::Add(args[1]))
        } else {
            Err(TodoError::UsageError)
        }
    } else if args[0] == "done"@ {
        if args.len() >= 2 {
            match spec_parse_index(args[1]) {
                Some(i) => Ok(CommandSpec::Done(i)),
                None => Err(TodoError::ParseError),
            }
        } else {
            Err(TodoError::UsageError)
        }
    } else if args[0] == "delete"@ {
        if args.len() >= 2 {
            match spec_parse_index(args[1]) {
                Some(i) => Ok(CommandSpec::Delete(i)),
                None => Err(TodoError::ParseError),
            }
        } else {
            Err(TodoError::UsageError)
        }
    } else {
        Err(TodoError::UsageError)
    }
}

/// Parses the process arguments (everything after the program name) into
/// exactly one command, or the error that rules them out.
pub fn parse_command(args: &Vec<String>) -> (r: Result<Command, TodoError>)
    ensures
        match (r, spec_parse(args.deep_view())) {
            (Ok(c), Ok(cs)) => c@ == cs,
            (Err(e), Err(es)) => e == es,
            _ => false,
        },
{
    if args.len() == 0 {
        return Err(TodoError::UsageError);
    }
    let cmd = &args[0];
    if str_eq(cmd.as_str(), "get") {
        Ok(Command::Get)
    } else if str_eq(cmd.as_str(), "add") {
        if args.len() >= 2 {
            Ok(Command::Add(args[1].clone()))
        } else {
            Err(TodoError::UsageError)
        }
    } else if str_eq(cmd.as_str(), "done") {
        if args.len() >= 2 {
            match parse_index(args[1].as_str()) {
                Some(i) => Ok(Command::Done(i)),
                None => Err(TodoError::ParseError),
            }
        } else {
            Err(TodoError::UsageError)
        }
    } else if str_eq(cmd.as_str(), "delete") {
        if args.len() >= 2 {
            match parse_index(args[1].as_str()) {
                Some(i) => Ok(Command::Delete(i)),
                None => Err(TodoError::ParseError),
            }
        } else {
            Err(TodoError::UsageError)
        }
    } else {
        Err(TodoError::UsageError)
    }
}

impl TodoList {
    /// Applies exactly one command.  `Get` reads only; the other three
    /// mutate.  The returned flag says whether the list changed and is to be
    /// persisted; an error leaves the list untouched, so nothing stale is
    /// ever saved.
    pub fn apply(&mut self, cmd: Command) -> (r: Result<bool, TodoError>)
        ensures
            match cmd@ {
                CommandSpec::Get => r == Ok::<bool, TodoError>(false) && *final (self) == *old(
                    self,
                ),
                CommandSpec::Add(name) => r == Ok::<bool, TodoError>(true) && final (self)@ == old(
                    self,
                )@.push(TaskSpec { name: name, completed: false }),
                CommandSpec::Done(i) => if i < old(self)@.len() {
                    r == Ok::<bool, TodoError>(true) && final (self)@ == mark_spec(
                        old(self)@,
                        i as int,
                    )
                } else {
                    r == Err::<bool, TodoError>(TodoError::IndexOutOfRange) && *final (self)
                        == *old(self)
                },
                CommandSpec::Delete(i) => if i < old(self)@.len() {
                    r == Ok::<bool, TodoError>(true) && final (self)@ == old(self)@.remove(i as int)
                } else {
                    r == Err::<bool, TodoError>(TodoError::IndexOutOfRange) && *final (self)
                        == *old(self)
                },
            },
    {
        match cmd {
            Command::Get => Ok(false),
            Command::Add(name) => {
                self.add_task(name);
                Ok(true)
            },
            Command::Done(i) => match self.mark_completed(i) {
                Ok(_) => Ok(true),
                Err(e) => Err(e),
            },
            Command::Delete(i) => match self.delete_task(i) {
                Ok(_) => Ok(true),
                Err(e) => Err(e),
            },
        }
    }
}

} // verus!
