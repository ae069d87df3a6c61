//! Loading a source file block by block.
//!
//! A source file is a sequence of blocks, each ended by an empty line; each
//! block is read and evaluated on its own, so that a block that fails does
//! not keep the blocks after it from being loaded. Lines that begin with a
//! byte order mark or with `;` are left out, and so are lines that no empty
//! line follows. [`Loader`] takes the lines one by one and hands out each
//! block when it is complete; [`load_block`] reads and evaluates one block.

use crate::bindings::Bindings;
use crate::environment::{Environment, MAX_DEPTH};
use crate::function::{all_specified, Function};
use crate::error::{BelError, Failure};
use crate::object::{Object, Value};
use crate::parser::Parser;
use crate::scan::read;
use crate::semantics::{spec_eval, Scope};
use crate::text::push_char;
use vstd::prelude::*;

verus! {

/// A line that is left out: it begins with a byte order mark or with `;`.
pub open spec fn skipped(line: Seq<char>) -> bool {
    line.len() > 0 && (line[0] == '\u{feff}' || line[0] == ';')
}

/// What one more line does: the lines gathered afterwards, and the block
/// that is complete, if one is.
///
/// A skipped line changes nothing. An empty line completes the block that
/// was gathered, if any line was. Every other line is added to the block,
/// with a line feed after it.
pub open spec fn spec_feed(gathered: Seq<char>, line: Seq<char>) -> (Seq<char>, Option<Seq<char>>) {
    if skipped(line) {
        (gathered, None)
    } else if line.len() == 0 {
        if gathered.len() == 0 {
            (gathered, None)
        } else {
            (Seq::empty(), Some(gathered))
        }
    } else {
        (gathered + line + seq!['\n'], None)
    }
}

/// The text of a block that was handed out, if one was.
pub open spec fn block_text(block: Option<String>) -> Option<Seq<char>> {
    match block {
        Some(text) => Some(text@),
        None => None,
    }
}

/// What reading `text` and evaluating what it reads as comes to, under no
/// local bindings.
pub open spec fn spec_load_block<F: Function>(prims: Map<Seq<char>, F>, depth: nat, globals: Scope, text: Seq<char>)
    -> Result<(Value, Scope), Failure> {
    match read(text) {
        Ok(form) => spec_eval(prims, depth, globals, Map::empty(), form),
        Err(e) => Err(e),
    }
}

/// Reads the block `text` and evaluates what it reads as, under no local
/// bindings. If the block cannot be read or evaluated, the global bindings
/// are left as they were.
pub fn load_block<F: Function>(env: &mut Environment<F>, parser: &mut Parser, text: &str) -> (r: Result<
    Object,
    BelError,
>)
    ensures
        final(env).primatives@ == old(env).primatives@,
        r is Err ==> final(env).globals@ == old(env).globals@,
        all_specified(old(env).primatives@) ==> match spec_load_block(old(env).primatives@, MAX_DEPTH as nat, old(env).globals@, text@) {
            Ok((value, after)) => r matches Ok(o) && o@ == value && final(env).globals@ == after,
            Err(e) => r matches Err(x) && x@ == e && final(env).globals@ == old(env).globals@,
        },
{
    match parser.parse(text) {
        Ok(form) => {
            let locals = Bindings::new();
            env.evaluate(&locals, &form)
        },
        Err(e) => Err(e),
    }
}

/// Gathers the lines of a source file into blocks.
pub struct Loader {
    accum: String,
}

impl View for Loader {
    type V = Seq<char>;

    /// The lines gathered for the block that is not yet complete.
    closed spec fn view(&self) -> Seq<char> {
        self.accum@
    }
}

impl Loader {
    /// A loader that has gathered nothing.
    pub fn new() -> (r: Loader)
        ensures
            r@ == Seq::<char>::empty(),
    {
        Loader { accum: String::new() }
    }

    /// Takes the next line of the file, without its line ending, and returns
    /// the block that it completes, if it completes one.
    pub fn feed(&mut self, line: &str) -> (block: Option<String>)
        ensures
            (final(self)@, block_text(block)) == spec_feed(old(self)@, line@),
    {
        if line.is_empty() {
            if self.accum.as_str().is_empty() {
                None
            } else {
                let mut block = String::new();
                std::mem::swap(&mut self.accum, &mut block);
                Some(block)
            }
        } else {
            let first = line.get_char(0);
            if first == '\u{feff}' || first == ';' {
                None
            } else {
                self.accum.append(line);
                push_char(&mut self.accum, '\n');
                None
            }
        }
    }
}

} // verus!
