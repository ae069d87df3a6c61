//! The native operations of the language, and the table that names them.

use crate::error::{outcome, BelError, Failure};
use crate::object::{views, Object, Value};
use vstd::hash_map::StringHashMap;
use vstd::prelude::*;

verus! {

/// A native operation. The evaluator hands it the evaluated arguments of a
/// call and returns what it returns.
#[derive(Debug, Clone, Copy, PartialEq, Eq)]
pub enum Primitive {
    /// Identity of symbols.
    Id,
}

/// `t` if the arguments are exactly two symbols of the same name, else `nil`.
pub open spec fn identical(params: Seq<Value>) -> Value {
    if params.len() == 2 && params[0] is Symbol && params[0] == params[1] {
        Value::truth()
    } else {
        Value::nil()
    }
}

/// The table of a fresh environment: `id` and nothing else.
pub open spec fn standard_primitives() -> Map<Seq<char>, Primitive> {
    Map::<Seq<char>, Primitive>::empty().insert("id"@, Primitive::Id)
}

impl Primitive {
    /// What the operation returns for the given arguments.
    pub open spec fn result(self, params: Seq<Value>) -> Result<Value, Failure> {
        match self {
            Primitive::Id => Ok(identical(params)),
        }
    }

    /// Runs the operation on the given arguments.
    pub fn call(&self, params: &[Object]) -> (r: Result<Object, BelError>)
        ensures
            outcome(r) == self.result(views(params@)),
    {
        match self {
            Primitive::Id => id(params),
        }
    }
}

/// The table of native operations that a fresh environment starts with.
pub fn load_primatives() -> (prim: StringHashMap<Primitive>)
    ensures
        prim@ == standard_primitives(),
{
    let mut prim: StringHashMap<Primitive> = StringHashMap::new();
    prim.insert("id".to_string(), Primitive::Id);
    prim
}

/// The primitive `id`: true if there are two arguments, both are symbols,
/// and they have the same name.
pub fn id(params: &[Object]) -> (r: Result<Object, BelError>)
    ensures
        outcome(r) == Ok::<Value, Failure>(identical(views(params@))),
{
    let mut same = false;
    if params.len() == 2 {
        if let Object::Symbol(lhs) = &params[0] {
            if let Object::Symbol(rhs) = &params[1] {
                same = *lhs == *rhs;
            }
        }
    }
    if same {
        Ok(Object::symbol("t"))
    } else {
        Ok(Object::symbol("nil"))
    }
}

} // verus!
