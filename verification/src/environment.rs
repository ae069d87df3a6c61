//! The evaluator: reduces an object against global and local bindings.
//!
//! [`Environment::evaluate`] computes what [`spec_eval`] says.

use crate::bindings::Bindings;
use crate::function::{all_specified, Function};
use crate::error::{outcome, BelError};
use crate::object::{copy_all, views, Object, Value};
use crate::primatives::{load_primatives, standard_primitives, Primitive};
use crate::semantics::{
    bind_pairs, bind_params, closure, first_non_symbol, initial_globals, lemma_bind_pairs_overlay,
    lookup, parameter_list, prepend, spec_apply, spec_def, spec_eval, spec_eval_list,
    spec_function_list, spec_merge_args, spec_quote, spec_set,
};
use crate::text::same_text;
use vstd::hash_map::StringHashMap;
use vstd::prelude::*;
use vstd::slice::slice_subrange;

verus! {

/// How deep evaluations may be nested. The object that is handed to
/// [`Environment::evaluate`] is at the first level. The elements of a list
/// that are evaluated are one level below the list, and so are the
/// arguments in the body of a function that the list calls.
pub const MAX_DEPTH: usize = 256;

/// The global bindings of a session and the table of native operations.
///
/// Local bindings are handed to each evaluation; a call of a function
/// makes its own, which stand in front of the global bindings while the
/// body of the function is evaluated.
///
/// The table may hold any type of native operation that is a [`Function`];
/// a fresh environment holds [`Primitive`].
#[verifier::reject_recursive_types(F)]
pub struct Environment<F: Function = Primitive> {
    /// The global bindings. They change only when an evaluation succeeds.
    pub globals: Bindings,
    /// The native operations by name.
    pub primatives: StringHashMap<F>,
}

impl Environment<Primitive> {
    /// A fresh environment.
    pub fn new() -> (env: Environment<Primitive>)
        ensures
            env.globals@ == initial_globals(),
            env.primatives@ == standard_primitives(),
    {
        let mut env = Environment::without_primatives();
        env.primatives = load_primatives();
        env
    }

    /// The special form `set`, applied to the operands `list`: binds each
    /// name in `globals` to the operand beside it, unevaluated, and a last
    /// name without an operand to `nil`. Fails, and binds nothing, if one of
    /// the names is no symbol.
    pub fn set(globals: &mut Bindings, list: &[Object]) -> (r: Result<Object, BelError>)
        ensures
            match spec_set(old(globals)@, views(list@)) {
                Ok((value, after)) => r matches Ok(o) && o@ == value && final(globals)@ == after,
                Err(e) => r matches Err(x) && x@ == e && final(globals)@ == old(globals)@,
            },
    {
        let ghost items = views(list@);
        let mut i: usize = 0;
        while i < list.len()
            invariant
                items == views(list@),
                i < list.len() ==> first_non_symbol(items, 0, 2) == first_non_symbol(
                    items,
                    i as int,
                    2,
                ),
                i >= list.len() ==> first_non_symbol(items, 0, 2) is None,
                *globals == *old(globals),
            decreases list.len() - i,
        {
            match &list[i] {
                Object::Symbol(_) => {},
                other => {
                    return Err(
                        BelError::InvalidObject { expected: "symbol".to_string(), found: other.t() },
                    );
                },
            }
            i = if list.len() - i <= 2 {
                list.len()
            } else {
                i + 2
            };
        }
        let mut i: usize = 0;
        while i < list.len()
            invariant
                items == views(list@),
                i < list.len() ==> first_non_symbol(items, i as int, 2) is None,
                i < list.len() ==> bind_pairs(old(globals)@, items, 0) == bind_pairs(
                    globals@,
                    items,
                    i as int,
                ),
                i >= list.len() ==> bind_pairs(old(globals)@, items, 0) == globals@,
            decreases list.len() - i,
        {
            match &list[i] {
                Object::Symbol(key) => {
                    let value = if list.len() - i > 1 {
                        list[i + 1].clone()
                    } else {
                        Object::symbol("nil")
                    };
                    globals.insert(key.clone(), value);
                },
                _ => {
                    assert(false);
                },
            }
            i = if list.len() - i <= 2 {
                list.len()
            } else {
                i + 2
            };
        }
        Ok(Object::symbol("nil"))
    }

    /// The special form `def`, applied to the operands `list`: `(def n p e)`
    /// binds `n` in `globals` to the function `(lit clo nil p e)`, where a
    /// `p` that is `nil` stands for no parameters and a `p` that is a symbol
    /// for that one parameter. Fails unless there are exactly three operands
    /// and the first is a symbol.
    pub fn def(globals: &mut Bindings, list: &[Object]) -> (r: Result<Object, BelError>)
        ensures
            match spec_def(old(globals)@, views(list@)) {
                Ok((value, after)) => r matches Ok(o) && o@ == value && final(globals)@ == after,
                Err(e) => r matches Err(x) && x@ == e && final(globals)@ == old(globals)@,
            },
    {
        if list.len() == 3 {
            let name = list[0].clone();
            let p = list[1].clone();
            let parameters = if p.is_nil() {
                Object::List(Vec::new())
            } else if let Object::Symbol(_) = p {
                Object::List(vec![p])
            } else {
                p
            };
            let e = list[2].clone();
            let body = Object::List(
                vec![
                    Object::symbol("lit"),
                    Object::symbol("clo"),
                    Object::symbol("nil"),
                    parameters,
                    e,
                ],
            );
            let pair = vec![name, body];
            proof {
                let items = views(list@);
                assert(parameters@ == parameter_list(items[1])) by {
                    if items[1] == Value::nil() {
                        assert(parameters@->List_0 =~= Seq::<Value>::empty());
                    } else if items[1] is Symbol {
                        assert(parameters@->List_0 =~= seq![items[1]]);
                    }
                }
                assert(body@->List_0 =~= closure(items[1], items[2])->List_0);
            }
            Environment::<Primitive>::set(globals, pair.as_slice())
        } else {
            Err(BelError::InvalidDef)
        }
    }

    /// The special form `quote`, applied to the operands `list`: returns
    /// the one operand as it stands, and fails if there is not exactly one.
    pub fn quote(list: &[Object]) -> (r: Result<Object, BelError>)
        ensures
            outcome(r) == spec_quote(views(list@)),
    {
        if list.len() == 1 {
            Ok(list[0].clone())
        } else {
            Err(BelError::InvalidQuote)
        }
    }

}

impl<F: Function> Environment<F> {
    /// An environment with the global bindings of a fresh one and no
    /// native operations.
    pub fn without_primatives() -> (env: Environment<F>)
        ensures
            env.globals@ == initial_globals(),
            env.primatives@ == Map::<Seq<char>, F>::empty(),
    {
        let mut globals = Bindings::new();
        globals.insert("nil".to_string(), Object::symbol("nil"));
        globals.insert("t".to_string(), Object::symbol("t"));
        globals.insert("o".to_string(), Object::symbol("o"));
        globals.insert("apply".to_string(), Object::symbol("apply"));
        Environment { globals, primatives: StringHashMap::new() }
    }

    /// Enters `operation` in the table of native operations under `name`,
    /// in place of what stood there.
    pub fn register(&mut self, name: String, operation: F)
        ensures
            final(self).primatives@ == old(self).primatives@.insert(name@, operation),
            final(self).globals@ == old(self).globals@,
    {
        self.primatives.insert(name, operation);
    }

    /// The object that `name` stands for: its local binding if it has one,
    /// else its binding in `pending`, else its global binding.
    fn get_bound_object(&self, pending: &Bindings, locals: &Bindings, name: &str) -> (r: Result<
        Object,
        BelError,
    >)
        ensures
            outcome(r) == lookup(self.globals@.union_prefer_right(pending@), locals@, name@),
    {
        match locals.get(name) {
            Some(obj) => Ok(obj.clone()),
            None => match pending.get(name) {
                Some(obj) => Ok(obj.clone()),
                None => match self.globals.get(name) {
                    Some(obj) => Ok(obj.clone()),
                    None => Err(BelError::UnboundSymbol(name.to_string())),
                },
            },
        }
    }

    /// Evaluates the objects of `list` from left to right.
    fn evaluate_list(
        &self,
        pending: &mut Bindings,
        locals: &Bindings,
        list: &[Object],
        depth: usize,
    ) -> (r: Result<Vec<Object>, BelError>)
        ensures
            all_specified(self.primatives@) ==> match spec_eval_list(
                self.primatives@,
                depth as nat,
                self.globals@.union_prefer_right(old(pending)@),
                locals@,
                views(list@),
            ) {
                Ok((values, after)) => r matches Ok(evaluated) && views(evaluated@) == values
                    && self.globals@.union_prefer_right(final(pending)@) == after,
                Err(e) => r matches Err(x) && x@ == e,
            },
        decreases depth, 1nat,
    {
        let ghost items = views(list@);
        let ghost start = self.globals@.union_prefer_right(pending@);
        let mut evaluated_list: Vec<Object> = Vec::new();
        let mut i: usize = 0;
        assert(items.skip(0) =~= items);
        while i < list.len()
            invariant
                items == views(list@),
                start == self.globals@.union_prefer_right(old(pending)@),
                i <= list.len(),
                all_specified(self.primatives@) ==> spec_eval_list(
                    self.primatives@,
                    depth as nat,
                    start,
                    locals@,
                    items,
                ) == prepend(
                    views(evaluated_list@),
                    spec_eval_list(
                        self.primatives@,
                        depth as nat,
                        self.globals@.union_prefer_right(pending@),
                        locals@,
                        items.skip(i as int),
                    ),
                ),
            decreases list.len() - i,
        {
            let ghost done = views(evaluated_list@);
            assert(items.skip(i as int).skip(1) =~= items.skip(i + 1));
            let eval_item = self.reduce(pending, locals, &list[i], depth)?;
            evaluated_list.push(eval_item);
            proof {
                assert(views(evaluated_list@) =~= done.push(eval_item@));
                let rest = spec_eval_list(
                    self.primatives@,
                    depth as nat,
                    self.globals@.union_prefer_right(pending@),
                    locals@,
                    items.skip(i + 1),
                );
                if let Ok((values, after)) = rest {
                    assert(done + (seq![eval_item@] + values) =~= done.push(eval_item@) + values);
                }
            }
            i += 1;
        }
        Ok(evaluated_list)
    }

    /// Calls the function `fn_obj` with the evaluated arguments `args`.
    fn apply(&self, pending: &mut Bindings, fn_obj: &Object, args: &[Object], depth: usize) -> (r:
        Result<Object, BelError>)
        ensures
            all_specified(self.primatives@) ==> match spec_apply(
                self.primatives@,
                depth as nat,
                self.globals@.union_prefer_right(old(pending)@),
                fn_obj@,
                views(args@),
            ) {
                Ok((value, after)) => r matches Ok(o) && o@ == value
                    && self.globals@.union_prefer_right(final(pending)@) == after,
                Err(e) => r matches Err(x) && x@ == e,
            },
        decreases depth, 2nat,
    {
        let locals = merge_args(fn_obj, args)?;
        let fn_list = get_function_list(fn_obj)?;
        if fn_list.len() == 0 {
            return Err(BelError::InvalidFn);
        }
        if let Object::Symbol(name) = &fn_list[0] {
            let rest = slice_subrange(fn_list.as_slice(), 1, fn_list.len());
            assert(views(rest@) =~= views(fn_list@).skip(1));
            let evaluated_list = self.evaluate_list(pending, &locals, rest, depth)?;
            match self.primatives.get(name.as_str()) {
                Some(primitive) => primitive.apply(Bindings::new(), evaluated_list),
                None => Ok(Object::symbol("nil")),
            }
        } else {
            Err(BelError::InvalidFn)
        }
    }

    /// Reduces `obj` with `depth` levels of nesting left. What `set` and
    /// `def` bind goes to `pending`, which stands in front of the global
    /// bindings.
    fn reduce(&self, pending: &mut Bindings, locals: &Bindings, obj: &Object, depth: usize) -> (r:
        Result<Object, BelError>)
        ensures
            all_specified(self.primatives@) ==> match spec_eval(
                self.primatives@,
                depth as nat,
                self.globals@.union_prefer_right(old(pending)@),
                locals@,
                obj@,
            ) {
                Ok((value, after)) => r matches Ok(o) && o@ == value
                    && self.globals@.union_prefer_right(final(pending)@) == after,
                Err(e) => r matches Err(x) && x@ == e,
            },
        decreases depth, 0nat,
    {
        if depth == 0 {
            return Err(
                BelError::NotImplemented("evaluation nested deeper than the limit".to_string()),
            );
        }
        match obj {
            Object::Symbol(name) => self.get_bound_object(pending, locals, name.as_str()),
            Object::List(list) => {
                if list.len() == 0 {
                    return Ok(Object::symbol("nil"));
                }
                let ghost items = views(list@);
                let ghost before = pending@;
                let rest = slice_subrange(list.as_slice(), 1, list.len());
                assert(views(rest@) =~= items.skip(1));
                if let Object::Symbol(name) = &list[0] {
                    if same_text(name.as_str(), "set") {
                        proof {
                            lemma_bind_pairs_overlay(self.globals@, before, items.skip(1), 0);
                        }
                        return Environment::<Primitive>::set(pending, rest);
                    } else if same_text(name.as_str(), "def") {
                        proof {
                            if items.skip(1).len() == 3 {
                                let pair = seq![
                                    items.skip(1)[0],
                                    closure(items.skip(1)[1], items.skip(1)[2]),
                                ];
                                lemma_bind_pairs_overlay(self.globals@, before, pair, 0);
                            }
                        }
                        return Environment::<Primitive>::def(pending, rest);
                    } else if same_text(name.as_str(), "quote") {
                        return Environment::<Primitive>::quote(rest);
                    }
                    match self.primatives.get(name.as_str()) {
                        Some(primitive) => {
                            let evaluated_list = self.evaluate_list(
                                pending,
                                locals,
                                rest,
                                depth - 1,
                            )?;
                            return primitive.apply(Bindings::new(), evaluated_list);
                        },
                        None => {
                            let f = self.get_bound_object(pending, locals, name.as_str())?;
                            if f.is_function() {
                                let evaluated_list = self.evaluate_list(
                                    pending,
                                    locals,
                                    rest,
                                    depth - 1,
                                )?;
                                return self.apply(
                                    pending,
                                    &f,
                                    evaluated_list.as_slice(),
                                    depth - 1,
                                );
                            }
                        },
                    }
                }
                let evaluated_list = self.evaluate_list(pending, locals, list.as_slice(), depth - 1)?;
                Ok(Object::List(evaluated_list))
            },
            Object::Char(_) => Err(BelError::NotImplemented("Object::Char".to_string())),
            Object::Stream => Err(BelError::NotImplemented("Object::Stream".to_string())),
        }
    }

    /// Reduces `obj` to the object that it evaluates to, under the local
    /// bindings `locals` and the global bindings of this environment.
    ///
    /// - A symbol evaluates to what it is bound to, locally or else
    ///   globally, and fails with `UnboundSymbol` if it is not bound.
    /// - The empty list evaluates to `nil`.
    /// - `(set ...)`, `(def ...)` and `(quote ...)` are special forms: their
    ///   operands are not evaluated.
    /// - A list that begins with the name of a native operation evaluates
    ///   the other elements from left to right and runs the operation on
    ///   them.
    /// - A list that begins with a symbol that is bound to a function
    ///   evaluates the other elements from left to right and calls the
    ///   function with them.
    /// - Any other list evaluates to the list of what its elements
    ///   evaluate to, from left to right.
    /// - Characters and streams fail with `NotImplemented`, and so does an
    ///   evaluation that is nested deeper than [`MAX_DEPTH`].
    ///
    /// The global bindings change only if the evaluation succeeds: then they
    /// hold what every `set` and `def` inside `obj` bound, in the order of
    /// evaluation. If it fails they are left as they were.
    ///
    /// What is returned is stated for a table whose operations all say what
    /// they return, as those of a fresh environment do.
    pub fn evaluate(&mut self, locals: &Bindings, obj: &Object) -> (r: Result<Object, BelError>)
        ensures
            final(self).primatives@ == old(self).primatives@,
            r is Err ==> final(self).globals@ == old(self).globals@,
            all_specified(old(self).primatives@) ==> match spec_eval(
                old(self).primatives@,
                MAX_DEPTH as nat,
                old(self).globals@,
                locals@,
                obj@,
            ) {
                Ok((value, after)) => r matches Ok(o) && o@ == value && final(self).globals@
                    == after,
                Err(e) => r matches Err(x) && x@ == e && final(self).globals@ == old(
                    self,
                ).globals@,
            },
    {
        let mut pending = Bindings::new();
        assert(self.globals@.union_prefer_right(pending@) =~= self.globals@);
        match self.reduce(&mut pending, locals, obj, MAX_DEPTH) {
            Ok(o) => {
                self.globals.absorb(&pending);
                Ok(o)
            },
            Err(e) => Err(e),
        }
    }
}

impl Default for Environment<Primitive> {
    /// An environment without bindings and without native operations.
    fn default() -> (env: Environment<Primitive>)
        ensures
            env.globals@ == Map::<Seq<char>, Value>::empty(),
            env.primatives@ == Map::<Seq<char>, Primitive>::empty(),
    {
        Environment { globals: Bindings::new(), primatives: StringHashMap::new() }
    }
}

/// The local bindings of a call of the function `fn_obj` with the evaluated
/// arguments `args`: each parameter is bound to the argument at its
/// position, and to `nil` where the arguments have run out.
///
/// Fails with `InvalidFn` if `fn_obj` is a list of other than five elements
/// or there are more arguments than parameters, and with `InvalidObject` if
/// `fn_obj` or its fourth element is no list or if a parameter is no symbol.
pub fn merge_args(fn_obj: &Object, args: &[Object]) -> (r: Result<Bindings, BelError>)
    ensures
        match spec_merge_args(fn_obj@, views(args@)) {
            Ok(locals) => r matches Ok(merged) && merged@ == locals,
            Err(e) => r matches Err(x) && x@ == e,
        },
{
    if let Object::List(fn_list) = fn_obj {
        if fn_list.len() != 5 {
            return Err(BelError::InvalidFn);
        }
        assert(views(fn_list@)[3] == fn_list@[3]@);
        if let Object::List(params) = &fn_list[3] {
            if args.len() > params.len() {
                return Err(BelError::InvalidFn);
            }
            let ghost names = views(params@);
            let ghost given = views(args@);
            let mut merged = Bindings::new();
            let mut i: usize = 0;
            while i < params.len()
                invariant
                    fn_obj@ matches Value::List(parts) && parts.len() == 5 && parts[3]
                        == Value::List(names),
                    names == views(params@),
                    given == views(args@),
                    args.len() <= params.len(),
                    i <= params.len(),
                    i < params.len() ==> first_non_symbol(names, 0, 1) == first_non_symbol(
                        names,
                        i as int,
                        1,
                    ),
                    i >= params.len() ==> first_non_symbol(names, 0, 1) is None,
                    bind_params(Map::empty(), names, given, 0) == bind_params(
                        merged@,
                        names,
                        given,
                        i as int,
                    ),
                decreases params.len() - i,
            {
                match &params[i] {
                    Object::Symbol(param) => {
                        let value = if i < args.len() {
                            args[i].clone()
                        } else {
                            Object::symbol("nil")
                        };
                        merged.insert(param.clone(), value);
                    },
                    other => {
                        return Err(
                            BelError::InvalidObject {
                                expected: "symbol".to_string(),
                                found: other.t(),
                            },
                        );
                    },
                }
                i += 1;
            }
            Ok(merged)
        } else {
            Err(BelError::InvalidObject { expected: "list".to_string(), found: fn_list[3].t() })
        }
    } else {
        Err(BelError::InvalidObject { expected: "list".to_string(), found: fn_obj.t() })
    }
}

/// The body of the function `fn_obj`: its fifth element.
///
/// Fails with `InvalidFn` if `fn_obj` is a list of other than five
/// elements, and with `InvalidObject` if `fn_obj` or its fifth element is no
/// list.
pub fn get_function_list(fn_obj: &Object) -> (r: Result<Vec<Object>, BelError>)
    ensures
        match spec_function_list(fn_obj@) {
            Ok(body) => r matches Ok(list) && views(list@) == body,
            Err(e) => r matches Err(x) && x@ == e,
        },
{
    if let Object::List(fn_list) = fn_obj {
        assert(fn_obj@ == Value::List(views(fn_list@)));
        if fn_list.len() != 5 {
            return Err(BelError::InvalidFn);
        }
        if let Object::List(list) = &fn_list[4] {
            Ok(copy_all(list.as_slice()))
        } else {
            Err(BelError::InvalidObject { expected: "list".to_string(), found: fn_list[4].t() })
        }
    } else {
        Err(BelError::InvalidObject { expected: "list".to_string(), found: fn_obj.t() })
    }
}

} // verus!
