//! What a text reads as.
//!
//! A text is scanned once, from left to right. [`Scan`] is the state of that
//! scan, [`Scan::step`] says what one character does to it, and [`read`] says
//! what a whole text reads as. The laws at the end of the file follow from
//! these definitions.

use crate::error::Failure;
use crate::object::Value;
use crate::text::whitespace;
use vstd::prelude::*;

verus! {

/// What the scanner is doing with the characters it meets.
#[derive(Debug, Clone, Copy, PartialEq, Eq)]
pub enum State {
    /// Between tokens.
    ConsumeWhitespace,
    /// Inside the name of a symbol.
    BuildSymbol,
    /// Inside a character literal, after its backslash.
    BuildChar,
}

/// How far the expansion of a quote mark has come. Every open list has its
/// own: a list that a parenthesis opened is idle, and a list that a quote
/// mark opened waits for its operand.
#[derive(Debug, Clone, Copy, PartialEq, Eq)]
pub enum QuotingState {
    /// No quote mark opened the list.
    Idle,
    /// A quote mark opened the list and its operand has not begun.
    Starting,
    /// The operand is an atom that is being read.
    Atom,
    /// The operand is a list that is being read.
    List,
}

/// One of the lists that are open.
pub struct Level {
    /// The elements read so far.
    pub items: Seq<Value>,
    /// Whether a quote mark opened the list, and how far its operand has come.
    pub quoting: QuotingState,
}

/// The state of a scan.
pub struct Scan {
    /// The lists that are open around the current one, outermost first. The
    /// first of them, if there is one, is the implicit list of top-level forms.
    pub outer: Seq<Level>,
    /// The list that is being filled.
    pub current: Level,
    /// The characters read so far of the token that is being built.
    pub accum: Seq<char>,
    /// What the scanner is doing with the characters it meets.
    pub state: State,
}

/// The reason that is given when a parenthesis closes a list and none is
/// open.
pub open spec fn reason_underflow() -> Seq<char> {
    "list closed that was never opened"@
}

/// The reason that is given when the text ends inside a list.
pub open spec fn reason_unterminated() -> Seq<char> {
    "unterminated list"@
}

/// The reason that is given when a quote mark is followed neither by an
/// atom nor by a list.
pub open spec fn reason_quote() -> Seq<char> {
    "malformed quote"@
}

/// What the top-level forms of a text read as: `nil` if there is none, the
/// form itself if there is one, and the list of them otherwise.
pub open spec fn collapse(forms: Seq<Value>) -> Value {
    if forms.len() == 0 {
        Value::nil()
    } else if forms.len() == 1 {
        forms[0]
    } else {
        Value::List(forms)
    }
}

/// How many of `levels` no quote mark opened.
pub open spec fn opened(levels: Seq<Level>) -> nat
    decreases levels.len(),
{
    if levels.len() == 0 {
        0
    } else if levels.last().quoting is Idle {
        opened(levels.drop_last()) + 1
    } else {
        opened(levels.drop_last())
    }
}

impl Scan {
    /// The state before the first character.
    pub open spec fn start() -> Scan {
        Scan {
            outer: Seq::empty(),
            current: Level { items: Seq::empty(), quoting: QuotingState::Idle },
            accum: Seq::empty(),
            state: State::ConsumeWhitespace,
        }
    }

    /// The number of open lists that no quote mark opened, the implicit
    /// list of top-level forms counted.
    pub open spec fn total(self) -> nat {
        opened(self.outer) + if self.current.quoting is Idle {
            1nat
        } else {
            0nat
        }
    }

    /// The number of lists that parentheses have opened and not yet closed.
    /// The implicit list of top-level forms and the lists that quote marks
    /// opened are not counted.
    pub open spec fn depth(self) -> nat {
        if self.total() > 0 {
            (self.total() - 1) as nat
        } else {
            0
        }
    }

    /// The outermost list is the implicit one, which no quote mark opened.
    /// Every state that a scan reaches is of this kind.
    pub open spec fn well_formed(self) -> bool {
        self.outer.push(self.current)[0].quoting is Idle
    }

    /// Opens a list inside the current one, with `quoting` as its own state.
    /// If the current list waits for the operand of its quote mark, this
    /// list is the operand.
    pub open spec fn open(self, quoting: QuotingState) -> Scan {
        let around = Level {
            quoting: if self.current.quoting is Starting {
                QuotingState::List
            } else {
                self.current.quoting
            },
            ..self.current
        };
        Scan {
            outer: self.outer.push(around),
            current: Level { items: Seq::empty(), quoting },
            ..self
        }
    }

    /// Closes the current list and appends it to the one around it, which
    /// becomes the current one.
    pub open spec fn close(self) -> Scan
        recommends
            self.outer.len() > 0,
    {
        Scan {
            outer: self.outer.drop_last(),
            current: Level {
                items: self.outer.last().items.push(Value::List(self.current.items)),
                ..self.outer.last()
            },
            ..self
        }
    }

    /// The current list has just been given an element. If a quote mark
    /// opened the list, the element is its operand and the list is
    /// complete: it is closed, and so on outwards.
    pub open spec fn settle(self) -> Scan
        decreases self.outer.len(),
    {
        if !(self.current.quoting is Idle) && self.outer.len() > 0 {
            self.close().settle()
        } else {
            self
        }
    }

    /// Appends `value` to the current list, and closes the lists that it
    /// completes.
    pub open spec fn put(self, value: Value) -> Scan {
        Scan {
            current: Level { items: self.current.items.push(value), ..self.current },
            ..self
        }.settle()
    }

    /// Ends the token that is being built, if there is one, and appends it to
    /// the current list.
    pub open spec fn flush(self) -> Scan {
        let rested = Scan { accum: Seq::empty(), state: State::ConsumeWhitespace, ..self };
        match self.state {
            State::BuildSymbol => rested.put(Value::Symbol(self.accum)),
            State::BuildChar => rested.put(Value::Char(self.accum)),
            State::ConsumeWhitespace => rested,
        }
    }

    /// A token begins. If the current list waits for the operand of its
    /// quote mark, the token is the operand.
    pub open spec fn begin_atom(self) -> Scan {
        Scan {
            current: Level {
                quoting: if self.current.quoting is Starting {
                    QuotingState::Atom
                } else {
                    self.current.quoting
                },
                ..self.current
            },
            ..self
        }
    }

    /// The state after one more character. `space` says whether the character
    /// is white space.
    ///
    /// - `(` ends the token and opens a list.
    /// - `)` ends the token and closes the list that the last open `(`
    ///   opened. It fails if no such list is open, and if the current list
    ///   is one that a quote mark opened: the quote mark has no operand.
    /// - `'` ends the token and opens a list that begins with the symbol
    ///   `quote`. The atom or list that follows is its operand and
    ///   completes it.
    /// - `\` ends the token and begins a character literal.
    /// - White space ends the token.
    /// - Any other character begins a symbol or goes on with the token.
    pub open spec fn step(self, c: char, space: bool) -> Result<Scan, Failure> {
        if c == '(' {
            Ok(self.flush().open(QuotingState::Idle))
        } else if c == ')' {
            let s = self.flush();
            if !(s.current.quoting is Idle) {
                Err(Failure::ParseError(reason_quote()))
            } else if s.outer.len() == 0 {
                Err(Failure::ParseError(reason_underflow()))
            } else {
                Ok(s.close().settle())
            }
        } else if c == '\'' {
            let s = self.flush().open(QuotingState::Starting);
            Ok(
                Scan {
                    current: Level { items: seq![Value::Symbol("quote"@)], ..s.current },
                    ..s
                },
            )
        } else if c == '\\' {
            Ok(Scan { state: State::BuildChar, ..self.flush().begin_atom() })
        } else if space {
            Ok(self.flush())
        } else if self.state is ConsumeWhitespace {
            Ok(Scan { accum: seq![c], state: State::BuildSymbol, ..self.begin_atom() })
        } else {
            Ok(Scan { accum: self.accum.push(c), ..self })
        }
    }

    /// The state after the characters of `input`, one after the other.
    pub open spec fn run(self, input: Seq<char>) -> Result<Scan, Failure>
        decreases input.len(),
    {
        if input.len() == 0 {
            Ok(self)
        } else {
            match self.step(input[0], whitespace(input[0])) {
                Ok(next) => next.run(input.skip(1)),
                Err(e) => Err(e),
            }
        }
    }

    /// What has been read when the text ends in this state.
    pub open spec fn finish(self) -> Result<Value, Failure> {
        let s = self.flush();
        if !(s.current.quoting is Idle) {
            Err(Failure::ParseError(reason_quote()))
        } else if s.outer.len() > 0 {
            Err(Failure::ParseError(reason_unterminated()))
        } else {
            Ok(collapse(s.current.items))
        }
    }
}

/// What the text `input` reads as.
pub open spec fn read(input: Seq<char>) -> Result<Value, Failure> {
    match Scan::start().run(input) {
        Ok(s) => s.finish(),
        Err(e) => Err(e),
    }
}

/// How often `c` occurs in `input`.
pub open spec fn occurrences(input: Seq<char>, c: char) -> nat
    decreases input.len(),
{
    if input.len() == 0 {
        0
    } else if input[0] == c {
        1 + occurrences(input.skip(1), c)
    } else {
        occurrences(input.skip(1), c)
    }
}

/// The number of lists that are open after `input`, if `depth` were open
/// before it, counting parentheses alone. There is no result if a
/// parenthesis closes a list while none is open.
pub open spec fn nesting(input: Seq<char>, depth: nat) -> Option<nat>
    decreases input.len(),
{
    if input.len() == 0 {
        Some(depth)
    } else if input[0] == '(' {
        nesting(input.skip(1), depth + 1)
    } else if input[0] == ')' {
        if depth == 0 {
            None
        } else {
            nesting(input.skip(1), (depth - 1) as nat)
        }
    } else {
        nesting(input.skip(1), depth)
    }
}

/// The parentheses of `input` are balanced: none closes a list while none
/// is open, and at the end none is open.
pub open spec fn balanced(input: Seq<char>) -> bool {
    nesting(input, 0) == Some(0nat)
}

/// A character that only separates tokens.
pub open spec fn blank(c: char) -> bool {
    whitespace(c) && c != '(' && c != ')' && c != '\'' && c != '\\'
}

/// A character that can stand in the name of a symbol.
pub open spec fn plain(c: char) -> bool {
    !whitespace(c) && c != '(' && c != ')' && c != '\'' && c != '\\'
}

/// Levels among which one was opened by no quote mark count at least one.
proof fn lemma_opened_positive(levels: Seq<Level>, i: int)
    requires
        0 <= i < levels.len(),
        levels[i].quoting is Idle,
    ensures
        opened(levels) >= 1,
    decreases levels.len(),
{
    if i < levels.len() - 1 {
        lemma_opened_positive(levels.drop_last(), i);
    }
}

impl Scan {
    /// No open list was opened by a quote mark.
    pub open spec fn without_quote(self) -> bool {
        &&& self.current.quoting is Idle
        &&& forall|i: int| 0 <= i < self.outer.len() ==> self.outer[i].quoting is Idle
    }

    /// The implicit list of top-level forms is always counted.
    proof fn lemma_total_positive(self)
        requires
            self.well_formed(),
        ensures
            self.total() >= 1,
            self.current.quoting is Idle && self.outer.len() > 0 ==> self.total() >= 2,
    {
        if self.outer.len() > 0 {
            lemma_opened_positive(self.outer, 0);
        }
    }

    /// Opening a list adds one to the count if a parenthesis opens it, and
    /// nothing if a quote mark does.
    proof fn lemma_open_total(self, quoting: QuotingState)
        requires
            self.well_formed(),
        ensures
            self.open(quoting).well_formed(),
            self.open(quoting).total() == self.total() + if quoting is Idle {
                1nat
            } else {
                0nat
            },
    {
        assert(self.open(quoting).outer.drop_last() =~= self.outer);
    }

    /// Closing a list takes one from the count if a parenthesis opened it,
    /// and nothing if a quote mark did.
    proof fn lemma_close_total(self)
        requires
            self.well_formed(),
            self.outer.len() > 0,
        ensures
            self.close().well_formed(),
            self.close().total() + (if self.current.quoting is Idle {
                1nat
            } else {
                0nat
            }) == self.total(),
    {
    }

    /// Closing the lists that an element completes leaves the count as it
    /// was.
    proof fn lemma_settle_total(self)
        requires
            self.well_formed(),
        ensures
            self.settle().well_formed(),
            self.settle().total() == self.total(),
            self.without_quote() ==> self.settle() == self,
        decreases self.outer.len(),
    {
        if !(self.current.quoting is Idle) && self.outer.len() > 0 {
            self.lemma_close_total();
            self.close().lemma_settle_total();
        }
    }

    /// Ending a token leaves the count as it was.
    proof fn lemma_flush_total(self)
        requires
            self.well_formed(),
        ensures
            self.flush().well_formed(),
            self.flush().total() == self.total(),
            self.without_quote() ==> self.flush().without_quote() && self.flush().outer
                == self.outer,
    {
        let rested = Scan { accum: Seq::empty(), state: State::ConsumeWhitespace, ..self };
        let token = if self.state is BuildSymbol {
            Value::Symbol(self.accum)
        } else {
            Value::Char(self.accum)
        };
        let filled = Scan {
            current: Level { items: rested.current.items.push(token), ..rested.current },
            ..rested
        };
        filled.lemma_settle_total();
    }

    /// A character changes the depth as it would if the text held
    /// parentheses alone: where the scan goes on, `(` has added one, `)` has
    /// taken one away from a depth that was not zero, and every other
    /// character has left it as it was.
    proof fn lemma_step_depth(self, c: char, space: bool)
        requires
            self.well_formed(),
        ensures
            self.step(c, space) matches Ok(s) ==> {
                &&& s.well_formed()
                &&& c == '(' ==> s.depth() == self.depth() + 1
                &&& c == ')' ==> self.depth() > 0 && s.depth() == self.depth() - 1
                &&& c != '(' && c != ')' ==> s.depth() == self.depth()
            },
    {
        let f = self.flush();
        self.lemma_flush_total();
        self.lemma_total_positive();
        f.lemma_total_positive();
        if let Ok(s) = self.step(c, space) {
            if c == '(' {
                f.lemma_open_total(QuotingState::Idle);
            } else if c == ')' {
                f.lemma_close_total();
                f.close().lemma_settle_total();
            } else if c == '\'' {
                f.lemma_open_total(QuotingState::Starting);
            }
        }
    }

    /// Over a whole text the depth follows the parentheses.
    proof fn lemma_run_depth(self, input: Seq<char>)
        requires
            self.well_formed(),
        ensures
            self.run(input) matches Ok(s) ==> s.well_formed() && nesting(input, self.depth())
                == Some(s.depth()),
        decreases input.len(),
    {
        if input.len() > 0 {
            self.lemma_step_depth(input[0], whitespace(input[0]));
            if let Ok(next) = self.step(input[0], whitespace(input[0])) {
                next.lemma_run_depth(input.skip(1));
            }
        }
    }

    /// While no quote mark is read, the scan goes on exactly as long as no
    /// parenthesis closes a list while none is open.
    proof fn lemma_run_without_quote(self, input: Seq<char>)
        requires
            self.without_quote(),
            !input.contains('\''),
        ensures
            match self.run(input) {
                Ok(s) => s.without_quote() && nesting(input, self.outer.len()) == Some(
                    s.outer.len(),
                ),
                Err(_) => nesting(input, self.outer.len()) is None,
            },
        decreases input.len(),
    {
        if input.len() > 0 {
            self.lemma_flush_total();
            if let Ok(next) = self.step(input[0], whitespace(input[0])) {
                if input[0] == ')' {
                    self.flush().close().lemma_settle_total();
                }
                next.lemma_run_without_quote(input.skip(1));
            }
        }
    }

    /// Between tokens, with nothing read, blank characters change nothing.
    proof fn lemma_run_blank(self, input: Seq<char>)
        requires
            self.state is ConsumeWhitespace,
            self.accum == Seq::<char>::empty(),
            forall|i: int| 0 <= i < input.len() ==> blank(#[trigger] input[i]),
        ensures
            self.run(input) == Ok::<Scan, Failure>(self),
        decreases input.len(),
    {
        if input.len() > 0 {
            self.lemma_run_blank(input.skip(1));
        }
    }

    /// Inside a symbol, plain characters are added to its name.
    proof fn lemma_run_plain(self, input: Seq<char>)
        requires
            self.state is BuildSymbol,
            forall|i: int| 0 <= i < input.len() ==> plain(#[trigger] input[i]),
        ensures
            self.run(input) == Ok::<Scan, Failure>(Scan { accum: self.accum + input, ..self }),
        decreases input.len(),
    {
        if input.len() > 0 {
            let next = Scan { accum: self.accum.push(input[0]), ..self };
            next.lemma_run_plain(input.skip(1));
            assert(next.accum + input.skip(1) =~= self.accum + input);
        }
    }
}

/// Reading fails only with `ParseError`.
pub proof fn lemma_read_fails_with_parse_error(input: Seq<char>)
    ensures
        read(input) matches Err(e) ==> e is ParseError,
{
    Scan::start().lemma_run_fails_with_parse_error(input);
}

/// A text whose parentheses are not balanced cannot be read, whatever else
/// it holds.
pub proof fn lemma_read_rejects_unbalanced(input: Seq<char>)
    requires
        !balanced(input),
    ensures
        read(input) matches Err(e) && e is ParseError,
{
    let start = Scan::start();
    lemma_read_fails_with_parse_error(input);
    start.lemma_run_depth(input);
    if let Ok(s) = start.run(input) {
        s.lemma_flush_total();
        s.flush().lemma_total_positive();
    }
}

/// A text without quote marks can be read exactly if its parentheses are
/// balanced.
pub proof fn lemma_read_accepts_balanced(input: Seq<char>)
    requires
        !input.contains('\''),
    ensures
        read(input) is Ok <==> balanced(input),
{
    let start = Scan::start();
    start.lemma_run_without_quote(input);
    if let Ok(s) = start.run(input) {
        s.lemma_flush_total();
    }
}

/// Counting `c` in the first `k + 1` characters of a text comes to counting
/// it in the first character and in the `k` that follow.
proof fn lemma_occurrences_take(input: Seq<char>, k: int, c: char)
    requires
        0 <= k < input.len(),
    ensures
        occurrences(input.take(k + 1), c) == occurrences(input.skip(1).take(k), c) + if input[0]
            == c {
            1nat
        } else {
            0nat
        },
{
    assert(input.take(k + 1).skip(1) =~= input.skip(1).take(k));
}

/// Where the parentheses of a text can be followed from a depth, they end
/// at that depth and the `(` more and the `)` less, and no part of the text
/// from its start has more `)` than the depth and its `(` together.
pub proof fn lemma_nesting_counts(input: Seq<char>, depth: nat, k: int)
    requires
        0 <= k <= input.len(),
        nesting(input, depth) is Some,
    ensures
        nesting(input, depth) == Some(
            (depth + occurrences(input, '(') - occurrences(input, ')')) as nat,
        ),
        occurrences(input, ')') <= depth + occurrences(input, '('),
        occurrences(input.take(k), ')') <= depth + occurrences(input.take(k), '('),
    decreases input.len(),
{
    if input.len() > 0 {
        let next = if input[0] == '(' {
            depth + 1
        } else if input[0] == ')' {
            (depth - 1) as nat
        } else {
            depth
        };
        if k > 0 {
            lemma_occurrences_take(input, k - 1, '(');
            lemma_occurrences_take(input, k - 1, ')');
            lemma_nesting_counts(input.skip(1), next, k - 1);
        } else {
            lemma_nesting_counts(input.skip(1), next, 0);
        }
    }
}

/// Where no part of a text from its start has more `)` than a depth and its
/// `(` together, the parentheses of the text can be followed from that
/// depth.
pub proof fn lemma_nesting_exists(input: Seq<char>, depth: nat)
    requires
        forall|k: int|
            0 <= k <= input.len() ==> occurrences(#[trigger] input.take(k), ')') <= depth
                + occurrences(input.take(k), '('),
    ensures
        nesting(input, depth) is Some,
    decreases input.len(),
{
    if input.len() > 0 {
        let next = if input[0] == '(' {
            depth + 1
        } else if input[0] == ')' {
            (depth - 1) as nat
        } else {
            depth
        };
        if input[0] == ')' {
            let first = input.take(1);
            assert(occurrences(first.skip(1), ')') == 0);
            assert(occurrences(first.skip(1), '(') == 0);
            assert(occurrences(first, ')') == 1);
            assert(occurrences(first, '(') == 0);
        }
        assert forall|k: int| 0 <= k <= input.skip(1).len() implies occurrences(
            #[trigger] input.skip(1).take(k),
            ')',
        ) <= next + occurrences(input.skip(1).take(k), '(') by {
            lemma_occurrences_take(input, k, '(');
            lemma_occurrences_take(input, k, ')');
            assert(occurrences(input.take(k + 1), ')') <= depth + occurrences(
                input.take(k + 1),
                '(',
            ));
        }
        lemma_nesting_exists(input.skip(1), next);
    }
}

/// The parentheses of a text are balanced exactly if the text has as many
/// `(` as `)` and no part of it from its start has more `)` than `(`.
pub proof fn lemma_balanced_by_counting(input: Seq<char>)
    ensures
        balanced(input) <==> {
            &&& occurrences(input, '(') == occurrences(input, ')')
            &&& forall|k: int|
                0 <= k <= input.len() ==> occurrences(#[trigger] input.take(k), ')')
                    <= occurrences(input.take(k), '(')
        },
{
    if nesting(input, 0) is Some {
        lemma_nesting_counts(input, 0, 0);
        assert forall|k: int| 0 <= k <= input.len() implies occurrences(
            #[trigger] input.take(k),
            ')',
        ) <= occurrences(input.take(k), '(') by {
            lemma_nesting_counts(input, 0, k);
        }
    }
    if forall|k: int|
        0 <= k <= input.len() ==> occurrences(#[trigger] input.take(k), ')') <= occurrences(
            input.take(k),
            '(',
        ) {
        lemma_nesting_exists(input, 0);
        lemma_nesting_counts(input, 0, 0);
    }
}

/// A text of blank characters, and so the empty text, reads as `nil`.
pub proof fn lemma_read_blank(input: Seq<char>)
    requires
        forall|i: int| 0 <= i < input.len() ==> blank(#[trigger] input[i]),
    ensures
        read(input) == Ok::<Value, Failure>(Value::nil()),
{
    Scan::start().lemma_run_blank(input);
}

/// A text of plain characters reads as the symbol of that name, not as a
/// list that holds it.
pub proof fn lemma_read_symbol(input: Seq<char>)
    requires
        input.len() > 0,
        forall|i: int| 0 <= i < input.len() ==> plain(#[trigger] input[i]),
    ensures
        read(input) == Ok::<Value, Failure>(Value::Symbol(input)),
{
    let first = Scan { accum: seq![input[0]], state: State::BuildSymbol, ..Scan::start() };
    first.lemma_run_plain(input.skip(1));
    assert(first.accum + input.skip(1) =~= input);
}

impl Scan {
    /// A scan fails only with `ParseError`.
    proof fn lemma_run_fails_with_parse_error(self, input: Seq<char>)
        ensures
            self.run(input) matches Err(e) ==> e is ParseError,
        decreases input.len(),
    {
        if input.len() > 0 {
            if let Ok(next) = self.step(input[0], whitespace(input[0])) {
                next.lemma_run_fails_with_parse_error(input.skip(1));
            }
        }
    }
}

} // verus!
