//! The reader: from text to one object.
//!
//! [`Parser`] scans a text character by character; what it returns is what
//! [`read`] says of the text.

use crate::error::{outcome, BelError, Failure};
use crate::object::{views, Object};
use crate::scan::{
    balanced, lemma_read_fails_with_parse_error, lemma_read_rejects_unbalanced, read, Level,
    QuotingState, Scan, State,
};
use crate::text::{is_whitespace, push_char};
use vstd::prelude::*;

verus! {

/// One of the lists that are open.
struct Frame {
    items: Vec<Object>,
    quoting: QuotingState,
}

impl View for Frame {
    type V = Level;

    closed spec fn view(&self) -> Level {
        Level { items: views(self.items@), quoting: self.quoting }
    }
}

/// The levels of a stack of open lists, list by list.
spec fn levels(stack: Seq<Frame>) -> Seq<Level> {
    stack.map_values(|frame: Frame| frame@)
}

/// A scanner. It can be used for any number of texts, one after the other:
/// nothing of one text is carried over into the next.
pub struct Parser {
    accum: String,
    list_stack: Vec<Frame>,
    current: Frame,
    state: State,
}

impl View for Parser {
    type V = Scan;

    closed spec fn view(&self) -> Scan {
        Scan {
            outer: levels(self.list_stack@),
            current: self.current@,
            accum: self.accum@,
            state: self.state,
        }
    }
}

impl Parser {
    /// A scanner in the state before the first character.
    pub fn new() -> (r: Parser)
        ensures
            r@ == Scan::start(),
    {
        let r = Parser {
            accum: String::new(),
            list_stack: Vec::new(),
            current: Frame { items: Vec::new(), quoting: QuotingState::Idle },
            state: State::ConsumeWhitespace,
        };
        assert(r@.outer =~= Seq::empty());
        assert(r@.current.items =~= Seq::empty());
        r
    }

    /// Reads `input` as one object: `nil` if it holds no form, the form
    /// itself if it holds one, the list of its forms otherwise.
    ///
    /// Fails with `ParseError` if the parentheses of `input` are not
    /// balanced, or if a quote mark is followed neither by an atom nor by
    /// a list.
    ///
    /// The state that the scanner was left in does not matter.
    pub fn parse(&mut self, input: &str) -> (r: Result<Object, BelError>)
        ensures
            outcome(r) == read(input@),
            r matches Err(e) ==> e is ParseError,
            !balanced(input@) ==> r is Err,
    {
        proof {
            lemma_read_fails_with_parse_error(input@);
            if !balanced(input@) {
                lemma_read_rejects_unbalanced(input@);
            }
        }
        self.reset();
        let ghost mut done: int = 0;
        assert(input@.skip(0) =~= input@);
        for c in chars: input.chars()
            invariant
                done == chars.index(),
                chars.seq() == input@,
                Scan::start().run(input@) == self@.run(input@.skip(done)),
        {
            assert(input@.skip(done).skip(1) =~= input@.skip(done + 1));
            self.advance(c, is_whitespace(c))?;
            proof {
                done = done + 1;
            }
        }
        self.finish()
    }

    /// Puts the scanner into the state before the first character.
    fn reset(&mut self)
        ensures
            final(self)@ == Scan::start(),
    {
        *self = Parser::new();
    }

    /// Ends the text: returns what has been read since the scanner was in
    /// the state before the first character.
    ///
    /// Fails with `ParseError` if a list is still open, or if a quote mark
    /// still waits for its operand.
    pub fn finish(&mut self) -> (r: Result<Object, BelError>)
        ensures
            outcome(r) == old(self)@.finish(),
    {
        self.finish_build();
        if let QuotingState::Idle = self.current.quoting {
            if self.list_stack.len() > 0 {
                Err(BelError::ParseError("unterminated list".to_string()))
            } else {
                let mut forms: Vec<Object> = Vec::new();
                std::mem::swap(&mut self.current.items, &mut forms);
                if forms.len() == 0 {
                    Ok(Object::symbol("nil"))
                } else if forms.len() == 1 {
                    match forms.pop() {
                        Some(form) => Ok(form),
                        None => Ok(Object::symbol("nil")),
                    }
                } else {
                    Ok(Object::List(forms))
                }
            }
        } else {
            Err(BelError::ParseError("malformed quote".to_string()))
        }
    }

    /// Appends `object` to the current list, and closes the lists that it
    /// completes.
    fn put(&mut self, object: Object)
        ensures
            final(self)@ == old(self)@.put(object@),
    {
        self.current.items.push(object);
        assert(views(self.current.items@) =~= views(old(self).current.items@).push(object@));
        self.settle();
    }

    /// Closes the current list as long as it is one that a quote mark
    /// opened.
    fn settle(&mut self)
        ensures
            final(self)@ == old(self)@.settle(),
    {
        loop
            invariant
                self@.settle() == old(self)@.settle(),
            ensures
                self@ == old(self)@.settle(),
            decreases self.list_stack.len(),
        {
            if let QuotingState::Idle = self.current.quoting {
                break ;
            }
            if self.list_stack.len() == 0 {
                break ;
            }
            self.finish_level();
        }
    }

    /// Opens a list inside the current one.
    fn start_level(&mut self, quoting: QuotingState)
        ensures
            final(self)@ == old(self)@.open(quoting),
    {
        let mut frame = Frame { items: Vec::new(), quoting };
        std::mem::swap(&mut self.current, &mut frame);
        if let QuotingState::Starting = frame.quoting {
            frame.quoting = QuotingState::List;
        }
        self.list_stack.push(frame);
        assert(levels(self.list_stack@) =~= old(self)@.open(quoting).outer);
        assert(self.current@.items =~= Seq::empty());
    }

    /// Closes the current list and appends it to the one around it.
    fn finish_level(&mut self)
        requires
            old(self).list_stack.len() > 0,
        ensures
            final(self)@ == old(self)@.close(),
            final(self).list_stack.len() == old(self).list_stack.len() - 1,
    {
        match self.list_stack.pop() {
            Some(mut frame) => {
                let mut list: Vec<Object> = Vec::new();
                std::mem::swap(&mut self.current.items, &mut list);
                frame.items.push(Object::List(list));
                self.current = frame;
                proof {
                    let before = old(self)@;
                    assert(levels(self.list_stack@) =~= before.outer.drop_last());
                    assert(self.current@.items =~= before.outer.last().items.push(
                        crate::object::Value::List(before.current.items),
                    ));
                }
            },
            None => {},
        }
    }

    /// Ends the token that is being built, if there is one.
    fn finish_build(&mut self)
        ensures
            final(self)@ == old(self)@.flush(),
    {
        let mut token = String::new();
        std::mem::swap(&mut self.accum, &mut token);
        let state = self.state;
        self.state = State::ConsumeWhitespace;
        match state {
            State::BuildSymbol => {
                self.put(Object::Symbol(token));
            },
            State::BuildChar => {
                self.put(Object::Char(token));
            },
            State::ConsumeWhitespace => {},
        }
    }

    /// A token begins.
    fn begin_atom(&mut self)
        ensures
            final(self)@ == old(self)@.begin_atom(),
    {
        if let QuotingState::Starting = self.current.quoting {
            self.current.quoting = QuotingState::Atom;
        }
    }

    /// Takes the scanner from one character to the next. `space` says
    /// whether `c` is white space.
    ///
    /// Fails with `ParseError` if `c` is a `)` and no `(` is open, or the
    /// current list is one that a quote mark opened.
    pub fn advance(&mut self, c: char, space: bool) -> (r: Result<(), BelError>)
        ensures
            match old(self)@.step(c, space) {
                Ok(s) => r is Ok && final(self)@ == s,
                Err(e) => r matches Err(x) && x@ == e,
            },
    {
        if c == '(' {
            self.finish_build();
            self.start_level(QuotingState::Idle);
            Ok(())
        } else if c == ')' {
            self.finish_build();
            if let QuotingState::Idle = self.current.quoting {
                if self.list_stack.len() == 0 {
                    Err(BelError::ParseError("list closed that was never opened".to_string()))
                } else {
                    self.finish_level();
                    self.settle();
                    Ok(())
                }
            } else {
                Err(BelError::ParseError("malformed quote".to_string()))
            }
        } else if c == '\'' {
            self.finish_build();
            self.start_level(QuotingState::Starting);
            self.current.items.push(Object::symbol("quote"));
            assert(self.current@.items =~= seq![crate::object::Value::Symbol("quote"@)]);
            Ok(())
        } else if c == '\\' {
            self.finish_build();
            self.begin_atom();
            self.state = State::BuildChar;
            Ok(())
        } else if space {
            self.finish_build();
            Ok(())
        } else if let State::ConsumeWhitespace = self.state {
            self.begin_atom();
            self.accum = String::new();
            push_char(&mut self.accum, c);
            self.state = State::BuildSymbol;
            Ok(())
        } else {
            push_char(&mut self.accum, c);
            Ok(())
        }
    }
}

impl Default for Parser {
    /// A scanner in the state before the first character.
    fn default() -> (r: Parser)
        ensures
            r@ == Scan::start(),
    {
        Parser::new()
    }
}

} // verus!
