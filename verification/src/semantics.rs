//! What an object evaluates to.
//!
//! [`spec_eval`] says what an object evaluates to under given bindings, and
//! how the global bindings stand afterwards. The laws at the end of the file
//! follow from the definitions.

use crate::error::Failure;
use crate::object::Value;
use crate::function::Function;
use crate::primatives::Primitive;
use vstd::prelude::*;

verus! {

/// Bindings as a mathematical value: a finite map from names to values.
pub type Scope = Map<Seq<char>, Value>;

/// The feature that is reported as not implemented when an evaluation is
/// nested deeper than it may be.
pub open spec fn feature_depth() -> Seq<char> {
    "evaluation nested deeper than the limit"@
}

/// The bindings of a fresh environment: `nil`, `t`, `o` and `apply` stand
/// for themselves.
pub open spec fn initial_globals() -> Scope {
    Map::<Seq<char>, Value>::empty().insert("nil"@, Value::Symbol("nil"@)).insert(
        "t"@,
        Value::Symbol("t"@),
    ).insert("o"@, Value::Symbol("o"@)).insert("apply"@, Value::Symbol("apply"@))
}

/// What `name` stands for: its local binding if it has one, else its global
/// binding.
pub open spec fn lookup(globals: Scope, locals: Scope, name: Seq<char>) -> Result<Value, Failure> {
    if locals.contains_key(name) {
        Ok(locals[name])
    } else if globals.contains_key(name) {
        Ok(globals[name])
    } else {
        Err(Failure::UnboundSymbol(name))
    }
}

/// The first position that holds no symbol among `from`, `from + stride`,
/// `from + 2 * stride` and so on, if there is one.
pub open spec fn first_non_symbol(items: Seq<Value>, from: int, stride: int) -> Option<int>
    decreases items.len() - from,
{
    if from < 0 || from >= items.len() || stride <= 0 {
        None
    } else if !(items[from] is Symbol) {
        Some(from)
    } else if from + stride >= items.len() {
        None
    } else {
        first_non_symbol(items, from + stride, stride)
    }
}

/// The error for a value that stands where a symbol is required.
pub open spec fn not_a_symbol(found: Value) -> Failure {
    Failure::InvalidObject { expected: "symbol"@, found: found.kind() }
}

/// The error for a value that stands where a list is required.
pub open spec fn not_a_list(found: Value) -> Failure {
    Failure::InvalidObject { expected: "list"@, found: found.kind() }
}

/// `scope` after the pairs of `items` from position `from` on were bound in
/// turn: each name to the value that follows it, and a last name that
/// nothing follows to `nil`.
pub open spec fn bind_pairs(scope: Scope, items: Seq<Value>, from: int) -> Scope
    decreases items.len() - from,
{
    if from < 0 || from >= items.len() {
        scope
    } else {
        let value = if from + 1 < items.len() {
            items[from + 1]
        } else {
            Value::nil()
        };
        let bound = scope.insert(items[from]->Symbol_0, value);
        if from + 2 >= items.len() {
            bound
        } else {
            bind_pairs(bound, items, from + 2)
        }
    }
}

/// `(set k1 v1 k2 v2 ...)`: binds each name to the value beside it, as it
/// stands, and returns `nil`. Nothing is bound unless every name is a symbol.
pub open spec fn spec_set(globals: Scope, items: Seq<Value>) -> Result<(Value, Scope), Failure> {
    match first_non_symbol(items, 0, 2) {
        Some(i) => Err(not_a_symbol(items[i])),
        None => Ok((Value::nil(), bind_pairs(globals, items, 0))),
    }
}

/// The parameters of a definition as a list: none for `nil`, one for a
/// single symbol, and otherwise what was written.
pub open spec fn parameter_list(p: Value) -> Value {
    if p == Value::nil() {
        Value::List(Seq::empty())
    } else if p is Symbol {
        Value::List(seq![p])
    } else {
        p
    }
}

/// The function with parameters `p` and body `e`: `(lit clo nil p e)`.
pub open spec fn closure(p: Value, e: Value) -> Value {
    Value::List(
        seq![
            Value::Symbol("lit"@),
            Value::Symbol("clo"@),
            Value::Symbol("nil"@),
            parameter_list(p),
            e,
        ],
    )
}

/// `(def n p e)` stands for `(set n (lit clo nil p e))`.
pub open spec fn spec_def(globals: Scope, items: Seq<Value>) -> Result<(Value, Scope), Failure> {
    if items.len() == 3 {
        spec_set(globals, seq![items[0], closure(items[1], items[2])])
    } else {
        Err(Failure::InvalidDef)
    }
}

/// `(quote x)` is `x`, as it stands.
pub open spec fn spec_quote(items: Seq<Value>) -> Result<Value, Failure> {
    if items.len() == 1 {
        Ok(items[0])
    } else {
        Err(Failure::InvalidQuote)
    }
}

/// `scope` after the parameters from position `from` on were bound in turn,
/// each to the argument at its position, or to `nil` where the arguments
/// have run out.
pub open spec fn bind_params(scope: Scope, params: Seq<Value>, args: Seq<Value>, from: int) -> Scope
    decreases params.len() - from,
{
    if from < 0 || from >= params.len() {
        scope
    } else {
        let value = if from < args.len() {
            args[from]
        } else {
            Value::nil()
        };
        bind_params(scope.insert(params[from]->Symbol_0, value), params, args, from + 1)
    }
}

/// The local bindings of a call of `f` with the arguments `args`.
pub open spec fn spec_merge_args(f: Value, args: Seq<Value>) -> Result<Scope, Failure> {
    match f {
        Value::List(parts) => if parts.len() != 5 {
            Err(Failure::InvalidFn)
        } else {
            match parts[3] {
                Value::List(params) => if args.len() > params.len() {
                    Err(Failure::InvalidFn)
                } else {
                    match first_non_symbol(params, 0, 1) {
                        Some(i) => Err(not_a_symbol(params[i])),
                        None => Ok(bind_params(Map::empty(), params, args, 0)),
                    }
                },
                other => Err(not_a_list(other)),
            }
        },
        _ => Err(not_a_list(f)),
    }
}

/// The body of the function `f`.
pub open spec fn spec_function_list(f: Value) -> Result<Seq<Value>, Failure> {
    match f {
        Value::List(parts) => if parts.len() != 5 {
            Err(Failure::InvalidFn)
        } else {
            match parts[4] {
                Value::List(body) => Ok(body),
                other => Err(not_a_list(other)),
            }
        },
        _ => Err(not_a_list(f)),
    }
}

/// What the native operation named `name` returns for `args`, or `nil` if
/// no operation has that name. A native operation is applied under no local
/// bindings.
pub open spec fn call_named<F: Function>(prims: Map<Seq<char>, F>, name: Seq<char>, args: Seq<Value>) -> Result<
    Value,
    Failure,
> {
    if prims.contains_key(name) {
        prims[name].applied(Map::empty(), args)
    } else {
        Ok(Value::nil())
    }
}

/// What `obj` evaluates to, and the global bindings afterwards.
///
/// `depth` is the number of levels of nesting that are left: with none left
/// the evaluation fails.
pub open spec fn spec_eval<F: Function>(prims: Map<Seq<char>, F>, depth: nat, globals: Scope, locals: Scope, obj: Value)
    -> Result<(Value, Scope), Failure>
    decreases depth, 0nat, 0nat,
{
    if depth == 0 {
        Err(Failure::NotImplemented(feature_depth()))
    } else {
        let inner = (depth - 1) as nat;
        match obj {
            Value::Symbol(name) => match lookup(globals, locals, name) {
                Ok(value) => Ok((value, globals)),
                Err(e) => Err(e),
            },
            Value::Char(_) => Err(Failure::NotImplemented("Object::Char"@)),
            Value::Stream => Err(Failure::NotImplemented("Object::Stream"@)),
            Value::List(items) => if items.len() == 0 {
                Ok((Value::nil(), globals))
            } else {
                match items[0] {
                    Value::Symbol(name) => if name == "set"@ {
                        spec_set(globals, items.skip(1))
                    } else if name == "def"@ {
                        spec_def(globals, items.skip(1))
                    } else if name == "quote"@ {
                        match spec_quote(items.skip(1)) {
                            Ok(value) => Ok((value, globals)),
                            Err(e) => Err(e),
                        }
                    } else if prims.contains_key(name) {
                        match spec_eval_list(prims, inner, globals, locals, items.skip(1)) {
                            Ok((args, after)) => match prims[name].applied(Map::empty(), args) {
                                Ok(value) => Ok((value, after)),
                                Err(e) => Err(e),
                            },
                            Err(e) => Err(e),
                        }
                    } else {
                        match lookup(globals, locals, name) {
                            Ok(f) => if f.is_function() {
                                match spec_eval_list(prims, inner, globals, locals, items.skip(1)) {
                                    Ok((args, after)) => spec_apply(prims, inner, after, f, args),
                                    Err(e) => Err(e),
                                }
                            } else {
                                spec_eval_data(prims, inner, globals, locals, items)
                            },
                            Err(e) => Err(e),
                        }
                    },
                    _ => spec_eval_data(prims, inner, globals, locals, items),
                }
            },
        }
    }
}

/// A list that is no call: the list of what its elements evaluate to.
pub open spec fn spec_eval_data<F: Function>(
    prims: Map<Seq<char>, F>,
    depth: nat,
    globals: Scope,
    locals: Scope,
    items: Seq<Value>,
) -> Result<(Value, Scope), Failure>
    decreases depth, 2nat, 0nat,
{
    match spec_eval_list(prims, depth, globals, locals, items) {
        Ok((values, after)) => Ok((Value::List(values), after)),
        Err(e) => Err(e),
    }
}

/// What the elements of `items` evaluate to, from left to right, each under
/// the global bindings that the one before it left.
pub open spec fn spec_eval_list<F: Function>(
    prims: Map<Seq<char>, F>,
    depth: nat,
    globals: Scope,
    locals: Scope,
    items: Seq<Value>,
) -> Result<(Seq<Value>, Scope), Failure>
    decreases depth, 1nat, items.len(),
{
    if items.len() == 0 {
        Ok((Seq::empty(), globals))
    } else {
        match spec_eval(prims, depth, globals, locals, items[0]) {
            Ok((first, next)) => match spec_eval_list(prims, depth, next, locals, items.skip(1)) {
                Ok((rest, after)) => Ok((seq![first] + rest, after)),
                Err(e) => Err(e),
            },
            Err(e) => Err(e),
        }
    }
}

/// The call of the function `f` with the evaluated arguments `args`: the
/// arguments of the body are evaluated under the local bindings of the call,
/// and the native operation that the body names is run on them.
pub open spec fn spec_apply<F: Function>(prims: Map<Seq<char>, F>, depth: nat, globals: Scope, f: Value, args: Seq<Value>)
    -> Result<(Value, Scope), Failure>
    decreases depth, 2nat, 0nat,
{
    match spec_merge_args(f, args) {
        Ok(locals) => match spec_function_list(f) {
            Ok(body) => if body.len() == 0 {
                Err(Failure::InvalidFn)
            } else {
                match body[0] {
                    Value::Symbol(name) => match spec_eval_list(
                        prims,
                        depth,
                        globals,
                        locals,
                        body.skip(1),
                    ) {
                        Ok((values, after)) => match call_named(prims, name, values) {
                            Ok(value) => Ok((value, after)),
                            Err(e) => Err(e),
                        },
                        Err(e) => Err(e),
                    },
                    _ => Err(Failure::InvalidFn),
                }
            },
            Err(e) => Err(e),
        },
        Err(e) => Err(e),
    }
}

/// [`first_non_symbol`] with a stride of one or two finds the first of its
/// positions that holds no symbol, and finds none exactly if all of them
/// hold symbols.
pub proof fn lemma_first_non_symbol(items: Seq<Value>, from: int, stride: int)
    requires
        0 <= from,
        stride == 1 || stride == 2,
    ensures
        match first_non_symbol(items, from, stride) {
            Some(i) => {
                &&& from <= i < items.len()
                &&& (i - from) % stride == 0
                &&& !(items[i] is Symbol)
                &&& forall|j: int| from <= j < i && (j - from) % stride == 0 ==> items[j] is Symbol
            },
            None => forall|j: int|
                from <= j < items.len() && (j - from) % stride == 0 ==> items[j] is Symbol,
        },
    decreases items.len() - from,
{
    if from < items.len() && items[from] is Symbol && from + stride < items.len() {
        lemma_first_non_symbol(items, from + stride, stride);
    }
}

/// A name that stands at none of the places of names from `from` on is
/// bound after the pairs as it was before them.
pub proof fn lemma_bind_pairs_keeps(scope: Scope, items: Seq<Value>, from: int, name: Seq<char>)
    requires
        0 <= from,
        forall|j: int|
            from <= j < items.len() && (j - from) % 2 == 0 ==> items[j]->Symbol_0 != name,
    ensures
        bind_pairs(scope, items, from).contains_key(name) == scope.contains_key(name),
        bind_pairs(scope, items, from)[name] == scope[name],
    decreases items.len() - from,
{
    if from < items.len() && from + 2 < items.len() {
        let value = if from + 1 < items.len() {
            items[from + 1]
        } else {
            Value::nil()
        };
        lemma_bind_pairs_keeps(scope.insert(items[from]->Symbol_0, value), items, from + 2, name);
    }
}

/// A name at place `i` that does not stand at a later place of a name is
/// bound, after the pairs, to the value that follows it, or to `nil` if it
/// is the last element.
pub proof fn lemma_bind_pairs_binds(scope: Scope, items: Seq<Value>, from: int, i: int)
    requires
        0 <= from <= i < items.len(),
        (i - from) % 2 == 0,
        forall|j: int|
            i < j < items.len() && (j - i) % 2 == 0 ==> items[j]->Symbol_0 != items[i]->Symbol_0,
    ensures
        bind_pairs(scope, items, from).contains_key(items[i]->Symbol_0),
        bind_pairs(scope, items, from)[items[i]->Symbol_0] == if i + 1 < items.len() {
            items[i + 1]
        } else {
            Value::nil()
        },
    decreases items.len() - from,
{
    let value = if from + 1 < items.len() {
        items[from + 1]
    } else {
        Value::nil()
    };
    let bound = scope.insert(items[from]->Symbol_0, value);
    if from == i {
        if from + 2 < items.len() {
            lemma_bind_pairs_keeps(bound, items, from + 2, items[i]->Symbol_0);
        }
    } else {
        lemma_bind_pairs_binds(bound, items, from + 2, i);
    }
}

/// `(quote x)` evaluates to `x` as it stands, whatever `x` is, and leaves
/// the global bindings as they were.
pub proof fn lemma_quote_returns_operand<F: Function>(
    prims: Map<Seq<char>, F>,
    depth: nat,
    globals: Scope,
    locals: Scope,
    x: Value,
)
    requires
        depth > 0,
    ensures
        spec_eval(prims, depth, globals, locals, Value::List(seq![Value::Symbol("quote"@), x]))
            == Ok::<(Value, Scope), Failure>((x, globals)),
{
    reveal_strlit("quote");
    reveal_strlit("set");
    reveal_strlit("def");
    assert("quote"@.len() == 5 && "set"@.len() == 3 && "def"@.len() == 3);
}

/// After `(set name value)`, the symbol `name` evaluates to `value` itself:
/// `set` binds its operand without evaluating it, and looking a symbol up
/// does not evaluate what it is bound to.
pub proof fn lemma_set_then_lookup<F: Function>(
    prims: Map<Seq<char>, F>,
    depth: nat,
    globals: Scope,
    locals: Scope,
    name: Seq<char>,
    value: Value,
)
    requires
        depth > 0,
        !locals.contains_key(name),
    ensures
        spec_eval(
            prims,
            depth,
            globals,
            locals,
            Value::List(seq![Value::Symbol("set"@), Value::Symbol(name), value]),
        ) == Ok::<(Value, Scope), Failure>((Value::nil(), globals.insert(name, value))),
        spec_eval(prims, depth, globals.insert(name, value), locals, Value::Symbol(name)) == Ok::<
            (Value, Scope),
            Failure,
        >((value, globals.insert(name, value))),
{
}

/// A symbol that is bound neither locally nor globally fails to evaluate,
/// with `UnboundSymbol` and its name.
pub proof fn lemma_unbound_symbol_fails<F: Function>(
    prims: Map<Seq<char>, F>,
    depth: nat,
    globals: Scope,
    locals: Scope,
    name: Seq<char>,
)
    requires
        depth > 0,
        !locals.contains_key(name),
        !globals.contains_key(name),
    ensures
        spec_eval(prims, depth, globals, locals, Value::Symbol(name)) == Err::<
            (Value, Scope),
            Failure,
        >(Failure::UnboundSymbol(name)),
{
}

/// `(id 'a 'b)` evaluates to `t` if `a` and `b` are the same symbol, and to
/// `nil` if they are not.
pub proof fn lemma_id_of_quoted_symbols<F: Function>(
    prims: Map<Seq<char>, F>,
    depth: nat,
    globals: Scope,
    locals: Scope,
    a: Seq<char>,
    b: Seq<char>,
)
    requires
        depth > 1,
        prims.contains_key("id"@),
        prims["id"@].applied(Map::empty(), seq![Value::Symbol(a), Value::Symbol(b)])
            == Primitive::Id.result(seq![Value::Symbol(a), Value::Symbol(b)]),
    ensures
        spec_eval(
            prims,
            depth,
            globals,
            locals,
            Value::List(
                seq![
                    Value::Symbol("id"@),
                    Value::List(seq![Value::Symbol("quote"@), Value::Symbol(a)]),
                    Value::List(seq![Value::Symbol("quote"@), Value::Symbol(b)]),
                ],
            ),
        ) == Ok::<(Value, Scope), Failure>(
            (
                if a == b {
                    Value::truth()
                } else {
                    Value::nil()
                },
                globals,
            ),
        ),
{
    reveal_strlit("id");
    reveal_strlit("quote");
    reveal_strlit("set");
    reveal_strlit("def");
    assert("id"@.len() == 2 && "quote"@.len() == 5 && "set"@.len() == 3 && "def"@.len() == 3);
    let inner = (depth - 1) as nat;
    let first = Value::List(seq![Value::Symbol("quote"@), Value::Symbol(a)]);
    let second = Value::List(seq![Value::Symbol("quote"@), Value::Symbol(b)]);
    let items = seq![Value::Symbol("id"@), first, second];
    let operands = items.skip(1);
    lemma_quote_returns_operand(prims, inner, globals, locals, Value::Symbol(a));
    lemma_quote_returns_operand(prims, inner, globals, locals, Value::Symbol(b));
    let none = operands.skip(1).skip(1);
    assert(spec_eval_list(prims, inner, globals, locals, none) == Ok::<
        (Seq<Value>, Scope),
        Failure,
    >((Seq::empty(), globals)));
    assert(spec_eval_list(prims, inner, globals, locals, operands.skip(1)) == Ok::<
        (Seq<Value>, Scope),
        Failure,
    >((seq![Value::Symbol(b)], globals))) by {
        assert(operands.skip(1)[0] == second);
        assert(seq![Value::Symbol(b)] + Seq::<Value>::empty() =~= seq![Value::Symbol(b)]);
    }
    assert(spec_eval_list(prims, inner, globals, locals, operands) == Ok::<
        (Seq<Value>, Scope),
        Failure,
    >((seq![Value::Symbol(a), Value::Symbol(b)], globals))) by {
        assert(operands[0] == first);
        assert(seq![Value::Symbol(a)] + seq![Value::Symbol(b)] =~= seq![
            Value::Symbol(a),
            Value::Symbol(b),
        ]);
    }
}

/// Whether an evaluation failed because it was nested deeper than it may be.
pub open spec fn too_deep<T>(r: Result<T, Failure>) -> bool {
    r == Err::<T, Failure>(Failure::NotImplemented(feature_depth()))
}

proof fn lemma_deeper_eval<F: Function>(prims: Map<Seq<char>, F>, depth: nat, globals: Scope, locals: Scope, obj: Value)
    requires
        !too_deep(spec_eval(prims, depth, globals, locals, obj)),
    ensures
        spec_eval(prims, depth + 1, globals, locals, obj) == spec_eval(
            prims,
            depth,
            globals,
            locals,
            obj,
        ),
    decreases depth, 0nat, 0nat,
{
    let inner = (depth - 1) as nat;
    if let Value::List(items) = obj {
        if items.len() > 0 {
            let rest = items.skip(1);
            match items[0] {
                Value::Symbol(name) => {
                    if name == "set"@ || name == "def"@ || name == "quote"@ {
                    } else if prims.contains_key(name) {
                        lemma_deeper_list(prims, inner, globals, locals, rest);
                    } else if let Ok(f) = lookup(globals, locals, name) {
                        if f.is_function() {
                            lemma_deeper_list(prims, inner, globals, locals, rest);
                            if let Ok((args, after)) = spec_eval_list(
                                prims,
                                inner,
                                globals,
                                locals,
                                rest,
                            ) {
                                lemma_deeper_apply(prims, inner, after, f, args);
                            }
                        } else {
                            lemma_deeper_list(prims, inner, globals, locals, items);
                        }
                    }
                },
                _ => {
                    lemma_deeper_list(prims, inner, globals, locals, items);
                },
            }
        }
    }
}

proof fn lemma_deeper_list<F: Function>(
    prims: Map<Seq<char>, F>,
    depth: nat,
    globals: Scope,
    locals: Scope,
    items: Seq<Value>,
)
    requires
        !too_deep(spec_eval_list(prims, depth, globals, locals, items)),
    ensures
        spec_eval_list(prims, depth + 1, globals, locals, items) == spec_eval_list(
            prims,
            depth,
            globals,
            locals,
            items,
        ),
    decreases depth, 1nat, items.len(),
{
    if items.len() > 0 {
        lemma_deeper_eval(prims, depth, globals, locals, items[0]);
        if let Ok((first, next)) = spec_eval(prims, depth, globals, locals, items[0]) {
            lemma_deeper_list(prims, depth, next, locals, items.skip(1));
        }
    }
}

proof fn lemma_deeper_apply<F: Function>(prims: Map<Seq<char>, F>, depth: nat, globals: Scope, f: Value, args: Seq<Value>)
    requires
        !too_deep(spec_apply(prims, depth, globals, f, args)),
    ensures
        spec_apply(prims, depth + 1, globals, f, args) == spec_apply(
            prims,
            depth,
            globals,
            f,
            args,
        ),
    decreases depth, 2nat, 0nat,
{
    if let Ok(locals) = spec_merge_args(f, args) {
        if let Ok(body) = spec_function_list(f) {
            if body.len() > 0 && body[0] is Symbol {
                lemma_deeper_list(prims, depth, globals, locals, body.skip(1));
            }
        }
    }
}

/// The limit on nesting only cuts evaluations off: one that does not fail
/// for being nested too deep has the same outcome under every greater limit.
pub proof fn lemma_depth_only_cuts_off<F: Function>(
    prims: Map<Seq<char>, F>,
    shallow: nat,
    deep: nat,
    globals: Scope,
    locals: Scope,
    obj: Value,
)
    requires
        shallow <= deep,
        !too_deep(spec_eval(prims, shallow, globals, locals, obj)),
    ensures
        spec_eval(prims, deep, globals, locals, obj) == spec_eval(
            prims,
            shallow,
            globals,
            locals,
            obj,
        ),
    decreases deep - shallow,
{
    if shallow < deep {
        lemma_depth_only_cuts_off(prims, shallow, (deep - 1) as nat, globals, locals, obj);
        lemma_deeper_eval(prims, (deep - 1) as nat, globals, locals, obj);
    }
}

/// The outcome of evaluating a list, with the values `done` in front of it.
pub open spec fn prepend(done: Seq<Value>, rest: Result<(Seq<Value>, Scope), Failure>) -> Result<
    (Seq<Value>, Scope),
    Failure,
> {
    match rest {
        Ok((values, after)) => Ok((done + values, after)),
        Err(e) => Err(e),
    }
}

/// Binding pairs in bindings that stand in front of others comes to the same
/// as binding them in the two taken together.
pub proof fn lemma_bind_pairs_overlay(base: Scope, over: Scope, items: Seq<Value>, from: int)
    ensures
        base.union_prefer_right(bind_pairs(over, items, from)) == bind_pairs(
            base.union_prefer_right(over),
            items,
            from,
        ),
    decreases items.len() - from,
{
    if 0 <= from < items.len() {
        let value = if from + 1 < items.len() {
            items[from + 1]
        } else {
            Value::nil()
        };
        let key = items[from]->Symbol_0;
        assert(base.union_prefer_right(over.insert(key, value)) =~= base.union_prefer_right(
            over,
        ).insert(key, value));
        if from + 2 < items.len() {
            lemma_bind_pairs_overlay(base, over.insert(key, value), items, from + 2);
        }
    }
}

} // verus!
