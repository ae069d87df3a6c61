//! What can be applied to arguments.
//!
//! The table of native operations of an environment may hold any type that
//! has this trait: it is the place where operations are added to the
//! language.

use crate::bindings::Bindings;
use crate::error::{outcome, BelError, Failure};
use crate::object::{views, Object, Value};
use crate::primatives::Primitive;
use vstd::prelude::*;

verus! {

/// Something that can be applied to evaluated arguments under local bindings.
pub trait Function {
    /// Whether [`Function::applied`] says what an application returns. An
    /// implementation that does not say promises nothing of what it
    /// returns.
    open spec fn specified(&self) -> bool {
        false
    }

    /// What an application returns, where the implementation says.
    open spec fn applied(&self, locals: Map<Seq<char>, Value>, params: Seq<Value>) -> Result<
        Value,
        Failure,
    > {
        arbitrary()
    }

    /// Applies the function to `params` under `locals`.
    fn apply(&self, locals: Bindings, params: Vec<Object>) -> (r: Result<Object, BelError>)
        ensures
            self.specified() ==> outcome(r) == self.applied(locals@, views(params@)),
    ;
}

/// A native operation looks at its arguments alone.
impl Function for Primitive {
    open spec fn specified(&self) -> bool {
        true
    }

    open spec fn applied(&self, locals: Map<Seq<char>, Value>, params: Seq<Value>) -> Result<
        Value,
        Failure,
    > {
        self.result(params)
    }

    fn apply(&self, locals: Bindings, params: Vec<Object>) -> (r: Result<Object, BelError>) {
        self.call(params.as_slice())
    }
}

/// Every operation of the table says what it returns.
pub open spec fn all_specified<F: Function>(prims: Map<Seq<char>, F>) -> bool {
    forall|name: Seq<char>| prims.contains_key(name) ==> (#[trigger] prims[name]).specified()
}

} // verus!
