//! A single-user to-do list library.
//!
//! The library owns an ordered list of tasks, each with a name and a
//! completion flag.  It provides the list operations (add, mark complete,
//! delete), a deterministic textual rendering, a storage codec with a proved
//! round-trip, and a parser for the four command-line commands.  All file and
//! terminal input/output is left to the surrounding program.

pub mod command;
pub mod digits;
pub mod list;
pub mod render;
pub mod storage;
pub mod strutil;
