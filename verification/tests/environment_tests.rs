use bel::bindings::Bindings;
use bel::environment::{get_function_list, merge_args, Environment, MAX_DEPTH};
use bel::error::BelError;
use bel::function::Function;
use bel::primatives::Primitive;
use bel::parser::Parser;
use bel::Object;

fn sym(name: &str) -> Object {
    Object::Symbol(name.to_string())
}

fn read(text: &str) -> Object {
    Parser::new().parse(text).unwrap()
}

fn run(env: &mut Environment, text: &str) -> Result<Object, BelError> {
    env.evaluate(&Bindings::new(), &read(text))
}

#[test]
fn environment_some_objects_evaluate_to_themselves() -> Result<(), BelError> {
    let mut env = Environment::new();
    for obj in vec![
        Object::Symbol("nil".to_string()),
        Object::Symbol("t".to_string()),
        Object::Symbol("o".to_string()),
        Object::Symbol("apply".to_string()),
    ] {
        let locals = Bindings::new();
        let res = env.evaluate(&locals, &obj)?;
        assert_eq!(res, obj);
    }
    assert_eq!(2 + 2, 4);

    Ok(())
}

#[test]
fn lib_some_objects_evaluate_to_themselves() -> Result<(), BelError> {
    Ok(())
}

#[test]
fn can_set_globals() -> Result<(), BelError> {
    let mut parser = Parser::new();
    let mut env = Environment::new();
    let locals = Bindings::new();

    let parse_obj = parser.parse("(set a b)")?;
    let obj = env.evaluate(&locals, &parse_obj)?;
    assert!(obj.is_nil());

    let parse_obj = parser.parse("a")?;
    let obj = env.evaluate(&locals, &parse_obj)?;
    if let Object::Symbol(s) = obj {
        assert_eq!(s, "b");
    } else {
        panic!("unexpected object {:?}", obj);
    }

    Ok(())
}

#[test]
fn can_set_multiple() -> Result<(), BelError> {
    let mut parser = Parser::new();
    let mut env = Environment::new();
    let locals = Bindings::new();

    let parse_obj = parser.parse("(set a b c d e f)")?;
    let obj = env.evaluate(&locals, &parse_obj)?;
    assert!(obj.is_nil());

    for (key, val) in &[
        ("a", "b".to_string()),
        ("c", "d".to_string()),
        ("e", "f".to_string()),
    ] {
        let parse_obj = parser.parse(key)?;
        let obj = env.evaluate(&locals, &parse_obj)?;
        if let Object::Symbol(s) = obj {
            assert_eq!(&s, val);
        } else {
            panic!("unexpected object {:?}", obj);
        }
    }

    Ok(())
}

#[test]
fn can_set_multiple_with_default() -> Result<(), BelError> {
    let mut parser = Parser::new();
    let mut env = Environment::new();
    let locals = Bindings::new();

    let parse_obj = parser.parse("(set a b c d e)")?;
    let obj = env.evaluate(&locals, &parse_obj)?;
    assert!(obj.is_nil());

    for (key, val) in &[
        ("a", "b".to_string()),
        ("c", "d".to_string()),
        ("e", "nil".to_string()),
    ] {
        let parse_obj = parser.parse(key)?;
        let obj = env.evaluate(&locals, &parse_obj)?;
        if let Object::Symbol(s) = obj {
            assert_eq!(&s, val);
        } else {
            panic!("unexpected object {:?}", obj);
        }
    }

    Ok(())
}

#[test]
fn can_quote_symbol() -> Result<(), BelError> {
    let mut parser = Parser::new();
    let mut env = Environment::new();
    let locals = Bindings::new();

    let parse_obj = parser.parse("(set a b)")?;
    let obj = env.evaluate(&locals, &parse_obj)?;
    assert!(obj.is_nil());

    let parse_obj = parser.parse("(quote a)")?;
    let obj = env.evaluate(&locals, &parse_obj)?;
    if let Object::Symbol(s) = obj {
        assert_eq!(s, "a");
    } else {
        panic!("unexpected object {:?}", obj);
    }

    Ok(())
}

#[test]
fn id_checks_for_identity() -> Result<(), BelError> {
    let mut parser = Parser::new();
    let mut env = Environment::new();
    let locals = Bindings::new();

    let parse_obj = parser.parse("(id 'a 'a)")?;
    let obj = env.evaluate(&locals, &parse_obj)?;
    assert!(obj.is_true());

    let parse_obj = parser.parse("(id 'a 'b)")?;
    let obj = env.evaluate(&locals, &parse_obj)?;
    assert!(obj.is_nil());

    Ok(())
}

#[test]
fn can_def_a_function() -> Result<(), BelError> {
    let mut parser = Parser::new();
    let mut env = Environment::new();

    let parse_obj = parser.parse(
        r#"(def no (x)
                (id x nil))
          "#,
    )?;
    let locals = Bindings::new();
    let obj = env.evaluate(&locals, &parse_obj)?;
    assert!(obj.is_nil());

    let parse_obj = parser.parse("(no nil)")?;
    let locals = Bindings::new();
    let obj = env.evaluate(&locals, &parse_obj)?;
    assert!(obj.is_true());

    let parse_obj = parser.parse("(no 'a)")?;
    let locals = Bindings::new();
    let obj = env.evaluate(&locals, &parse_obj)?;
    assert!(obj.is_nil(), "{:?}", obj);

    Ok(())
}

#[test]
fn fresh_environment_binds_four_names_to_themselves() {
    let env = Environment::new();
    assert_eq!(env.globals.len(), 4);
    let mut names = env.globals.names();
    names.sort();
    assert_eq!(
        names,
        vec!["apply".to_string(), "nil".to_string(), "o".to_string(), "t".to_string()]
    );
    for name in ["nil", "t", "o", "apply"] {
        assert_eq!(env.globals.get(name), Some(&sym(name)));
    }
    assert!(env.primatives.contains_key("id"));
    assert_eq!(env.primatives.len(), 1);
}

#[test]
fn unbound_symbol_fails_and_changes_nothing() {
    let mut env = Environment::new();
    assert_eq!(run(&mut env, "(set a b)"), Ok(sym("nil")));
    assert_eq!(
        run(&mut env, "zzz"),
        Err(BelError::UnboundSymbol("zzz".to_string()))
    );
    assert_eq!(run(&mut env, "a"), Ok(sym("b")));
    assert_eq!(env.globals.len(), 5);
}

#[test]
fn failing_form_undoes_the_bindings_made_inside_it() {
    let mut env = Environment::new();
    assert_eq!(run(&mut env, "(set a b)"), Ok(sym("nil")));
    assert_eq!(
        run(&mut env, "(id (set a c q r) zzz)"),
        Err(BelError::UnboundSymbol("zzz".to_string()))
    );
    assert_eq!(run(&mut env, "a"), Ok(sym("b")));
    assert_eq!(run(&mut env, "q"), Err(BelError::UnboundSymbol("q".to_string())));
    assert_eq!(env.globals.len(), 5);
}

#[test]
fn bindings_made_inside_a_form_are_seen_at_once_and_kept() {
    let mut env = Environment::new();
    assert_eq!(run(&mut env, "(id (set a b) a)"), Ok(sym("nil")));
    assert_eq!(run(&mut env, "a"), Ok(sym("b")));
    assert_eq!(run(&mut env, "(t (set c d) c)"), Ok(Object::List(vec![sym("t"), sym("nil"), sym("d")])));
    assert_eq!(run(&mut env, "c"), Ok(sym("d")));
}

#[test]
fn set_binds_the_operand_as_it_stands() {
    let mut env = Environment::new();
    assert_eq!(run(&mut env, "(set b c)"), Ok(sym("nil")));
    assert_eq!(run(&mut env, "(set a b)"), Ok(sym("nil")));
    assert_eq!(run(&mut env, "a"), Ok(sym("b")));
    assert_eq!(run(&mut env, "(set l (id x (y)))"), Ok(sym("nil")));
    assert_eq!(run(&mut env, "l"), Ok(read("(id x (y))")));
}

#[test]
fn set_binds_pair_by_pair() {
    let mut env = Environment::new();
    assert_eq!(run(&mut env, "(set a (x) b (y))"), Ok(sym("nil")));
    assert_eq!(run(&mut env, "a"), Ok(read("(x)")));
    assert_eq!(run(&mut env, "b"), Ok(read("(y)")));
    assert_eq!(run(&mut env, "(set k v k w)"), Ok(sym("nil")));
    assert_eq!(run(&mut env, "k"), Ok(sym("w")));
    assert_eq!(
        run(&mut env, "v"),
        Err(BelError::UnboundSymbol("v".to_string()))
    );
}

#[test]
fn set_without_operands_binds_nothing() {
    let mut env = Environment::new();
    assert_eq!(run(&mut env, "(set)"), Ok(sym("nil")));
    assert_eq!(env.globals.len(), 4);
}

#[test]
fn set_rejects_a_name_that_is_no_symbol() {
    let mut env = Environment::new();
    assert_eq!(
        run(&mut env, "(set a b (c) d)"),
        Err(BelError::InvalidObject {
            expected: "symbol".to_string(),
            found: "list".to_string()
        })
    );
    assert_eq!(run(&mut env, "a"), Err(BelError::UnboundSymbol("a".to_string())));
    assert_eq!(
        run(&mut env, "(set \\c d)"),
        Err(BelError::InvalidObject {
            expected: "symbol".to_string(),
            found: "char".to_string()
        })
    );
    let form = Object::List(vec![sym("set"), Object::Stream]);
    assert_eq!(
        env.evaluate(&Bindings::new(), &form),
        Err(BelError::InvalidObject {
            expected: "symbol".to_string(),
            found: "stream".to_string()
        })
    );
}

#[test]
fn set_on_bindings_directly() {
    let mut bindings = Bindings::new();
    let operands = vec![sym("a"), sym("b"), sym("c")];
    assert_eq!(Environment::set(&mut bindings, &operands), Ok(sym("nil")));
    assert_eq!(bindings.get("a"), Some(&sym("b")));
    assert_eq!(bindings.get("c"), Some(&sym("nil")));
    assert_eq!(bindings.get("b"), None);
    assert_eq!(bindings.len(), 2);
}

#[test]
fn quote_returns_any_operand_unevaluated() {
    let mut env = Environment::new();
    assert_eq!(run(&mut env, "(quote (a (b c) zzz))"), Ok(read("(a (b c) zzz)")));
    assert_eq!(run(&mut env, "(quote (set a b))"), Ok(read("(set a b)")));
    assert_eq!(run(&mut env, "a"), Err(BelError::UnboundSymbol("a".to_string())));
    assert_eq!(run(&mut env, "'\\c"), Ok(Object::Char("c".to_string())));
    let form = Object::List(vec![sym("quote"), Object::Stream]);
    assert_eq!(env.evaluate(&Bindings::new(), &form), Ok(Object::Stream));
}

#[test]
fn quote_takes_exactly_one_operand() {
    let mut env = Environment::new();
    assert_eq!(run(&mut env, "(quote)"), Err(BelError::InvalidQuote));
    assert_eq!(run(&mut env, "(quote a b)"), Err(BelError::InvalidQuote));
    assert_eq!(Environment::quote(&[]), Err(BelError::InvalidQuote));
    assert_eq!(Environment::quote(&[sym("a")]), Ok(sym("a")));
}

#[test]
fn def_builds_a_closure() {
    let mut env = Environment::new();
    assert_eq!(run(&mut env, "(def no (x) (id x nil))"), Ok(sym("nil")));
    assert_eq!(run(&mut env, "no"), Ok(read("(lit clo nil (x) (id x nil))")));
    assert_eq!(run(&mut env, "(def one x (id x nil))"), Ok(sym("nil")));
    assert_eq!(run(&mut env, "one"), Ok(read("(lit clo nil (x) (id x nil))")));
    assert_eq!(run(&mut env, "(def none nil (id))"), Ok(sym("nil")));
    assert_eq!(run(&mut env, "none"), Ok(read("(lit clo nil () (id))")));
    assert_eq!(run(&mut env, "(def odd \\c (id))"), Ok(sym("nil")));
    assert_eq!(run(&mut env, "odd"), Ok(read("(lit clo nil \\c (id))")));
}

#[test]
fn def_takes_exactly_three_operands() {
    let mut env = Environment::new();
    assert_eq!(run(&mut env, "(def)"), Err(BelError::InvalidDef));
    assert_eq!(run(&mut env, "(def f (x))"), Err(BelError::InvalidDef));
    assert_eq!(run(&mut env, "(def f (x) (id x) y)"), Err(BelError::InvalidDef));
    assert_eq!(
        run(&mut env, "(def (f) (x) (id x))"),
        Err(BelError::InvalidObject {
            expected: "symbol".to_string(),
            found: "list".to_string()
        })
    );
    assert_eq!(env.globals.len(), 4);
}

#[test]
fn empty_list_evaluates_to_nil() {
    let mut env = Environment::new();
    assert_eq!(run(&mut env, "()"), Ok(sym("nil")));
}

#[test]
fn characters_and_streams_are_not_evaluated() {
    let mut env = Environment::new();
    assert_eq!(
        run(&mut env, "\\a"),
        Err(BelError::NotImplemented("Object::Char".to_string()))
    );
    assert_eq!(
        env.evaluate(&Bindings::new(), &Object::Stream),
        Err(BelError::NotImplemented("Object::Stream".to_string()))
    );
}

#[test]
fn list_that_is_no_call_evaluates_element_by_element() {
    let mut env = Environment::new();
    assert_eq!(run(&mut env, "(set a b)"), Ok(sym("nil")));
    assert_eq!(run(&mut env, "(t a nil)"), Ok(read("(t b nil)")));
    assert_eq!(run(&mut env, "((quote x) a)"), Ok(read("(x b)")));
    assert_eq!(run(&mut env, "(() a)"), Ok(read("(nil b)")));
    assert_eq!(
        run(&mut env, "(zzz a)"),
        Err(BelError::UnboundSymbol("zzz".to_string()))
    );
    let mut locals = Bindings::new();
    locals.insert("a".to_string(), sym("local"));
    assert_eq!(env.evaluate(&locals, &read("(t a)")), Ok(read("(t local)")));
}

#[test]
fn locals_stand_in_front_of_globals() {
    let mut env = Environment::new();
    assert_eq!(run(&mut env, "(set a b)"), Ok(sym("nil")));
    let mut locals = Bindings::new();
    locals.insert("a".to_string(), sym("c"));
    locals.insert("only".to_string(), sym("here"));
    assert_eq!(env.evaluate(&locals, &sym("a")), Ok(sym("c")));
    assert_eq!(env.evaluate(&locals, &sym("only")), Ok(sym("here")));
    assert_eq!(env.evaluate(&locals, &read("(id a 'c)")), Ok(sym("t")));
    assert_eq!(run(&mut env, "a"), Ok(sym("b")));
}

#[test]
fn primitive_arguments_are_evaluated_left_to_right() {
    let mut env = Environment::new();
    assert_eq!(run(&mut env, "(id t t)"), Ok(sym("t")));
    assert_eq!(run(&mut env, "(id t nil)"), Ok(sym("nil")));
    assert_eq!(run(&mut env, "(id t)"), Ok(sym("nil")));
    assert_eq!(run(&mut env, "(id '(a) '(a))"), Ok(sym("nil")));
    assert_eq!(
        run(&mut env, "(id yyy zzz)"),
        Err(BelError::UnboundSymbol("yyy".to_string()))
    );
}

#[test]
fn missing_arguments_are_nil_and_surplus_ones_an_error() {
    let mut env = Environment::new();
    assert_eq!(run(&mut env, "(def no (x) (id x nil))"), Ok(sym("nil")));
    assert_eq!(run(&mut env, "(no)"), Ok(sym("t")));
    assert_eq!(run(&mut env, "(no t)"), Ok(sym("nil")));
    assert_eq!(run(&mut env, "(no t t)"), Err(BelError::InvalidFn));
    assert_eq!(run(&mut env, "(def same (x y) (id x y))"), Ok(sym("nil")));
    assert_eq!(run(&mut env, "(same 'a 'a)"), Ok(sym("t")));
    assert_eq!(run(&mut env, "(same 'a)"), Ok(sym("nil")));
    assert_eq!(run(&mut env, "(same nil)"), Ok(sym("t")));
}

#[test]
fn call_does_not_see_the_locals_of_its_caller() {
    let mut env = Environment::new();
    assert_eq!(run(&mut env, "(def get (x) (id y t))"), Ok(sym("nil")));
    let mut locals = Bindings::new();
    locals.insert("y".to_string(), sym("t"));
    assert_eq!(
        env.evaluate(&locals, &read("(get nil)")),
        Err(BelError::UnboundSymbol("y".to_string()))
    );
}

#[test]
fn malformed_functions_are_rejected_when_called() {
    let mut env = Environment::new();
    assert_eq!(run(&mut env, "(def empty (x) ())"), Ok(sym("nil")));
    assert_eq!(run(&mut env, "(empty t)"), Err(BelError::InvalidFn));
    assert_eq!(run(&mut env, "(def headless (x) ((id) x))"), Ok(sym("nil")));
    assert_eq!(run(&mut env, "(headless t)"), Err(BelError::InvalidFn));
    assert_eq!(run(&mut env, "(def atom (x) x)"), Ok(sym("nil")));
    assert_eq!(
        run(&mut env, "(atom t)"),
        Err(BelError::InvalidObject {
            expected: "list".to_string(),
            found: "symbol".to_string()
        })
    );
    assert_eq!(run(&mut env, "(def pattern ((a b)) (id a b))"), Ok(sym("nil")));
    assert_eq!(
        run(&mut env, "(pattern t)"),
        Err(BelError::InvalidObject {
            expected: "symbol".to_string(),
            found: "list".to_string()
        })
    );
    assert_eq!(run(&mut env, "(def chars \\c (id))"), Ok(sym("nil")));
    assert_eq!(
        run(&mut env, "(chars)"),
        Err(BelError::InvalidObject {
            expected: "list".to_string(),
            found: "char".to_string()
        })
    );
}

#[test]
fn body_that_names_no_primitive_gives_nil() {
    let mut env = Environment::new();
    assert_eq!(run(&mut env, "(def other (x) (no x))"), Ok(sym("nil")));
    assert_eq!(run(&mut env, "(other t)"), Ok(sym("nil")));
    assert_eq!(run(&mut env, "(def bad (x) (no zzz))"), Ok(sym("nil")));
    assert_eq!(
        run(&mut env, "(bad t)"),
        Err(BelError::UnboundSymbol("zzz".to_string()))
    );
}

#[test]
fn merge_args_binds_by_position() {
    let f = read("(lit clo nil (x y z) (id x y))");
    let merged = merge_args(&f, &[sym("a"), sym("b")]).unwrap();
    assert_eq!(merged.len(), 3);
    assert_eq!(merged.get("x"), Some(&sym("a")));
    assert_eq!(merged.get("y"), Some(&sym("b")));
    assert_eq!(merged.get("z"), Some(&sym("nil")));
    let twice = read("(lit clo nil (x x) (id x x))");
    let merged = merge_args(&twice, &[sym("a")]).unwrap();
    assert_eq!(merged.len(), 1);
    assert_eq!(merged.get("x"), Some(&sym("nil")));
}

#[test]
fn merge_args_rejects_malformed_calls() {
    let f = read("(lit clo nil (x) (id x nil))");
    assert_eq!(
        merge_args(&f, &[sym("a"), sym("b")]).err(),
        Some(BelError::InvalidFn)
    );
    assert_eq!(
        merge_args(&read("(lit clo nil (x))"), &[]).err(),
        Some(BelError::InvalidFn)
    );
    assert_eq!(
        merge_args(&sym("f"), &[]).err(),
        Some(BelError::InvalidObject {
            expected: "list".to_string(),
            found: "symbol".to_string()
        })
    );
    assert_eq!(
        merge_args(&read("(lit clo nil x (id x nil))"), &[]).err(),
        Some(BelError::InvalidObject {
            expected: "list".to_string(),
            found: "symbol".to_string()
        })
    );
    assert_eq!(
        merge_args(&read("(lit clo nil (x \\c) (id x nil))"), &[]).err(),
        Some(BelError::InvalidObject {
            expected: "symbol".to_string(),
            found: "char".to_string()
        })
    );
}

#[test]
fn get_function_list_returns_the_body() {
    let f = read("(lit clo nil (x) (id x nil))");
    assert_eq!(
        get_function_list(&f),
        Ok(vec![sym("id"), sym("x"), sym("nil")])
    );
    assert_eq!(
        get_function_list(&read("(lit clo nil (x) body)")),
        Err(BelError::InvalidObject {
            expected: "list".to_string(),
            found: "symbol".to_string()
        })
    );
    assert_eq!(get_function_list(&read("(lit clo)")), Err(BelError::InvalidFn));
    assert_eq!(
        get_function_list(&Object::Stream),
        Err(BelError::InvalidObject {
            expected: "list".to_string(),
            found: "stream".to_string()
        })
    );
}

#[test]
fn nesting_is_limited() {
    let mut env = Environment::new();
    let too_deep = BelError::NotImplemented("evaluation nested deeper than the limit".to_string());
    let mut nested = sym("t");
    for _ in 0..MAX_DEPTH - 1 {
        nested = Object::List(vec![nested]);
    }
    assert!(env.evaluate(&Bindings::new(), &nested).is_ok());
    let deeper = Object::List(vec![nested]);
    assert_eq!(env.evaluate(&Bindings::new(), &deeper), Err(too_deep));
    let quoted = Object::List(vec![sym("quote"), deeper.clone()]);
    assert_eq!(env.evaluate(&Bindings::new(), &quoted), Ok(deeper));
}

#[test]
fn endless_recursion_is_stopped() {
    let mut env = Environment::new();
    assert_eq!(run(&mut env, "(def loop (x) (id (loop x) nil))"), Ok(sym("nil")));
    assert_eq!(
        run(&mut env, "(loop t)"),
        Err(BelError::NotImplemented(
            "evaluation nested deeper than the limit".to_string()
        ))
    );
    assert_eq!(run(&mut env, "(id t t)"), Ok(sym("t")));
}

enum Native {
    Standard(Primitive),
    Second,
}

impl Function for Native {
    fn apply(&self, locals: Bindings, params: Vec<Object>) -> Result<Object, BelError> {
        match self {
            Native::Standard(primitive) => primitive.apply(locals, params),
            Native::Second => match params.get(1) {
                Some(second) => Ok(second.clone()),
                None => Err(BelError::InvalidFn),
            },
        }
    }
}

#[test]
fn native_operations_can_be_added() {
    let mut env: Environment<Native> = Environment::without_primatives();
    env.register("id".to_string(), Native::Standard(Primitive::Id));
    env.register("second".to_string(), Native::Second);
    let locals = Bindings::new();
    assert_eq!(env.evaluate(&locals, &read("(id 'a 'a)")), Ok(sym("t")));
    assert_eq!(env.evaluate(&locals, &read("(second 'a 'b)")), Ok(sym("b")));
    assert_eq!(env.evaluate(&locals, &read("(second 'a)")), Err(BelError::InvalidFn));
    assert_eq!(
        env.evaluate(&locals, &read("(second (set a b) a)")),
        Ok(sym("b"))
    );
    assert_eq!(env.evaluate(&locals, &read("(def snd (x y) (second x y))")), Ok(sym("nil")));
    assert_eq!(env.evaluate(&locals, &read("(snd t nil)")), Ok(sym("nil")));
    assert_eq!(env.evaluate(&locals, &read("(snd nil t)")), Ok(sym("t")));
}

#[test]
fn environment_without_native_operations_knows_no_id() {
    let mut env: Environment<Primitive> = Environment::without_primatives();
    assert_eq!(env.globals.len(), 4);
    assert_eq!(
        env.evaluate(&Bindings::new(), &read("(id t t)")),
        Err(BelError::UnboundSymbol("id".to_string()))
    );
    env.register("same".to_string(), Primitive::Id);
    assert_eq!(env.evaluate(&Bindings::new(), &read("(same t t)")), Ok(sym("t")));
}
