//! The commands of an interactive session.
//!
//! A line that begins with `:` is a command to the session, not a form of
//! the language. This module says which command a line is; carrying it out
//! is the business of the session.

use crate::text::{same_text, split_whitespace, texts, words};
use vstd::prelude::*;

verus! {

/// The mathematical content of a [`ReplCommand`].
pub enum Order {
    /// List the global bindings.
    Globals,
    /// Load the source file at the given path.
    Load(Seq<char>),
    /// Say how `:load` is used.
    LoadUsage,
    /// No command of that name is known.
    Unknown,
}

/// A command to the session.
#[derive(Debug, PartialEq, Eq)]
pub enum ReplCommand {
    /// List the global bindings.
    Globals,
    /// Load the source file at the given path.
    Load(String),
    /// `:load` was not given exactly one path: say how it is used.
    LoadUsage,
    /// No command of that name is known.
    Unknown,
}

impl View for ReplCommand {
    type V = Order;

    open spec fn view(&self) -> Order {
        match self {
            ReplCommand::Globals => Order::Globals,
            ReplCommand::Load(path) => Order::Load(path@),
            ReplCommand::LoadUsage => Order::LoadUsage,
            ReplCommand::Unknown => Order::Unknown,
        }
    }
}

/// A line is a command if it begins with `:`.
pub open spec fn spec_is_command(line: Seq<char>) -> bool {
    line.len() > 0 && line[0] == ':'
}

/// The command that the words of a line make up. The first word names it:
/// `:global` or `:globals`, whatever follows, or `:load` with exactly one
/// path.
pub open spec fn spec_command(parts: Seq<Seq<char>>) -> Order {
    if parts.len() == 0 {
        Order::Unknown
    } else if parts[0] == ":global"@ || parts[0] == ":globals"@ {
        Order::Globals
    } else if parts[0] == ":load"@ {
        if parts.len() == 2 {
            Order::Load(parts[1])
        } else {
            Order::LoadUsage
        }
    } else {
        Order::Unknown
    }
}

/// Whether `line` is a command to the session.
pub fn is_command(line: &str) -> (r: bool)
    ensures
        r == spec_is_command(line@),
{
    !line.is_empty() && line.get_char(0) == ':'
}

/// The command that the words `parts` of a line make up.
pub fn process_repl_command(parts: &[String]) -> (r: ReplCommand)
    ensures
        r@ == spec_command(texts(parts@)),
{
    if parts.len() == 0 {
        return ReplCommand::Unknown;
    }
    let name = parts[0].as_str();
    if same_text(name, ":global") || same_text(name, ":globals") {
        ReplCommand::Globals
    } else if same_text(name, ":load") {
        if parts.len() == 2 {
            ReplCommand::Load(parts[1].clone())
        } else {
            ReplCommand::LoadUsage
        }
    } else {
        ReplCommand::Unknown
    }
}

/// The command that `line` is, by the words that white space separates in it.
pub fn read_command(line: &str) -> (r: ReplCommand)
    ensures
        r@ == spec_command(words(line@)),
{
    let parts = split_whitespace(line);
    process_repl_command(parts.as_slice())
}

} // verus!
