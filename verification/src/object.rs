//! The data model: symbols, lists, characters and streams.

use crate::text::same_text;
use vstd::prelude::*;

verus! {

/// The mathematical value that an [`Object`] stands for.
///
/// Contracts throughout the crate are stated over values: names are sequences
/// of characters and lists are sequences of values.
pub enum Value {
    /// A name.
    Symbol(Seq<char>),
    /// A sequence of values, in order.
    List(Seq<Value>),
    /// A character literal, by the token that names it.
    Char(Seq<char>),
    /// A stream.
    Stream,
}

impl Value {
    /// The symbol `nil`, the canonical false value.
    pub open spec fn nil() -> Value {
        Value::Symbol("nil"@)
    }

    /// The symbol `t`, the canonical true value.
    pub open spec fn truth() -> Value {
        Value::Symbol("t"@)
    }

    /// The name of the variant, as it is reported in errors.
    pub open spec fn kind(self) -> Seq<char> {
        match self {
            Value::Symbol(_) => "symbol"@,
            Value::List(_) => "list"@,
            Value::Char(_) => "char"@,
            Value::Stream => "stream"@,
        }
    }

    /// A function is a list of five elements that begins with the symbols
    /// `lit` and `clo`: `(lit clo <env> <params> <body>)`.
    pub open spec fn is_function(self) -> bool {
        &&& self matches Value::List(items)
        &&& items.len() == 5
        &&& items[0] == Value::Symbol("lit"@)
        &&& items[1] == Value::Symbol("clo"@)
    }
}

/// The values of a sequence of objects, element by element.
pub open spec fn views(items: Seq<Object>) -> Seq<Value>
    decreases items,
{
    Seq::new(
        items.len(),
        |i: int|
            if 0 <= i < items.len() {
                items[i].view()
            } else {
                Value::Stream
            },
    )
}

/// The four fundamental data types: symbols, lists, characters and streams.
#[derive(Debug, PartialEq)]
pub enum Object {
    /// A name. The symbols `nil` and `t` stand for false and true.
    Symbol(String),
    /// A sequence of objects, in order: data, or a call or special form.
    List(Vec<Object>),
    /// A character literal, by the token that names it.
    Char(String),
    /// A stream. Nothing is done with streams yet.
    Stream,
}

impl View for Object {
    type V = Value;

    open spec fn view(&self) -> Value
        decreases self,
    {
        match self {
            Object::Symbol(name) => Value::Symbol(name@),
            Object::List(items) => Value::List(views(items@)),
            Object::Char(token) => Value::Char(token@),
            Object::Stream => Value::Stream,
        }
    }
}

impl Clone for Object {
    /// A copy that stands for the same value.
    fn clone(&self) -> (r: Self)
        ensures
            r@ == self@,
        decreases self,
    {
        match self {
            Object::Symbol(name) => Object::Symbol(name.clone()),
            Object::List(items) => {
                let mut copy: Vec<Object> = Vec::new();
                let mut i: usize = 0;
                while i < items.len()
                    invariant
                        *self == Object::List(*items),
                        i <= items.len(),
                        copy.len() == i,
                        forall|j: int| 0 <= j < i ==> copy@[j]@ == items@[j]@,
                    decreases items.len() - i,
                {
                    assert(self->List_0 == *items);
                    copy.push(items[i].clone());
                    i += 1;
                }
                assert(views(copy@) =~= views(items@));
                Object::List(copy)
            },
            Object::Char(token) => Object::Char(token.clone()),
            Object::Stream => Object::Stream,
        }
    }
}

impl Object {
    /// The symbol with the given name.
    pub fn symbol(name: &str) -> (r: Object)
        ensures
            r@ == Value::Symbol(name@),
    {
        Object::Symbol(name.to_string())
    }

    /// The name of the variant: `symbol`, `list`, `char` or `stream`.
    pub fn t(&self) -> (r: String)
        ensures
            r@ == self@.kind(),
    {
        match self {
            Object::Symbol(_) => "symbol".to_string(),
            Object::List(_) => "list".to_string(),
            Object::Char(_) => "char".to_string(),
            Object::Stream => "stream".to_string(),
        }
    }

    /// Whether this is the symbol with the given name.
    fn is_named(&self, name: &str) -> (r: bool)
        ensures
            r == (self@ == Value::Symbol(name@)),
    {
        match self {
            Object::Symbol(own) => same_text(own.as_str(), name),
            _ => false,
        }
    }

    /// Whether this is the symbol `nil`.
    pub fn is_nil(&self) -> (r: bool)
        ensures
            r == (self@ == Value::nil()),
    {
        self.is_named("nil")
    }

    /// Whether this is the symbol `t`.
    pub fn is_true(&self) -> (r: bool)
        ensures
            r == (self@ == Value::truth()),
    {
        self.is_named("t")
    }

    /// Whether this is the symbol `quote`.
    pub fn is_quote(&self) -> (r: bool)
        ensures
            r == (self@ == Value::Symbol("quote"@)),
    {
        self.is_named("quote")
    }

    /// Whether this is the symbol `lit`.
    pub fn is_literal(&self) -> (r: bool)
        ensures
            r == (self@ == Value::Symbol("lit"@)),
    {
        self.is_named("lit")
    }

    /// Whether this is the symbol `clo`.
    pub fn is_closure(&self) -> (r: bool)
        ensures
            r == (self@ == Value::Symbol("clo"@)),
    {
        self.is_named("clo")
    }

    /// Whether this has the shape of a function, `(lit clo <env> <params> <body>)`.
    pub fn is_function(&self) -> (r: bool)
        ensures
            r == self@.is_function(),
    {
        match self {
            Object::List(list) => {
                if list.len() != 5 {
                    return false;
                }
                if !list[0].is_literal() {
                    return false;
                }
                list[1].is_closure()
            },
            _ => false,
        }
    }
}

/// A copy of each object of `items`, in the same order.
pub fn copy_all(items: &[Object]) -> (r: Vec<Object>)
    ensures
        views(r@) == views(items@),
{
    let mut r: Vec<Object> = Vec::new();
    let mut i: usize = 0;
    while i < items.len()
        invariant
            i <= items.len(),
            r.len() == i,
            forall|j: int| 0 <= j < i ==> r@[j]@ == items@[j]@,
        decreases items.len() - i,
    {
        r.push(items[i].clone());
        i += 1;
    }
    r
}

} // verus!
