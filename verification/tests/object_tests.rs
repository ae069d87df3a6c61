use bel::bindings::Bindings;
use bel::error::BelError;
use bel::function::Function;
use bel::object::copy_all;
use bel::primatives::{id, load_primatives, Primitive};
use bel::Object;

fn sym(name: &str) -> Object {
    Object::Symbol(name.to_string())
}

#[test]
fn kinds_are_named() {
    assert_eq!(sym("a").t(), "symbol");
    assert_eq!(Object::List(vec![]).t(), "list");
    assert_eq!(Object::Char("a".to_string()).t(), "char");
    assert_eq!(Object::Stream.t(), "stream");
}

#[test]
fn symbols_are_recognized_by_name() {
    assert!(sym("nil").is_nil());
    assert!(!sym("t").is_nil());
    assert!(!sym("ni").is_nil());
    assert!(!sym("nill").is_nil());
    assert!(!Object::Char("nil".to_string()).is_nil());
    assert!(!Object::List(vec![]).is_nil());
    assert!(sym("t").is_true());
    assert!(!sym("nil").is_true());
    assert!(!Object::Stream.is_true());
    assert!(sym("quote").is_quote());
    assert!(!sym("quot").is_quote());
    assert!(sym("lit").is_literal());
    assert!(!sym("clo").is_literal());
    assert!(sym("clo").is_closure());
    assert!(!sym("lit").is_closure());
}

#[test]
fn symbol_makes_a_symbol() {
    assert_eq!(Object::symbol("abc"), sym("abc"));
}

#[test]
fn functions_are_recognized_by_shape() {
    let f = Object::List(vec![
        sym("lit"),
        sym("clo"),
        sym("nil"),
        Object::List(vec![sym("x")]),
        Object::List(vec![sym("id"), sym("x"), sym("nil")]),
    ]);
    assert!(f.is_function());
    let odd = Object::List(vec![sym("lit"), sym("clo"), Object::Stream, sym("p"), sym("e")]);
    assert!(odd.is_function());
    let short = Object::List(vec![sym("lit"), sym("clo"), sym("nil"), sym("p")]);
    assert!(!short.is_function());
    let long = Object::List(vec![
        sym("lit"),
        sym("clo"),
        sym("nil"),
        sym("p"),
        sym("e"),
        sym("x"),
    ]);
    assert!(!long.is_function());
    let swapped = Object::List(vec![sym("clo"), sym("lit"), sym("nil"), sym("p"), sym("e")]);
    assert!(!swapped.is_function());
    let other = Object::List(vec![sym("lit"), sym("mac"), sym("nil"), sym("p"), sym("e")]);
    assert!(!other.is_function());
    assert!(!sym("lit").is_function());
    assert!(!Object::List(vec![]).is_function());
}

#[test]
fn clone_copies_every_level() {
    let nested = Object::List(vec![
        sym("a"),
        Object::List(vec![Object::Char("c".to_string()), Object::Stream]),
        Object::List(vec![]),
    ]);
    assert_eq!(nested.clone(), nested);
    assert_eq!(copy_all(&[sym("a"), nested.clone()]), vec![sym("a"), nested]);
}

#[test]
fn id_is_true_of_two_equal_symbols_only() {
    assert_eq!(id(&[sym("a"), sym("a")]), Ok(sym("t")));
    assert_eq!(id(&[sym("a"), sym("b")]), Ok(sym("nil")));
    assert_eq!(id(&[sym("a")]), Ok(sym("nil")));
    assert_eq!(id(&[]), Ok(sym("nil")));
    assert_eq!(id(&[sym("a"), sym("a"), sym("a")]), Ok(sym("nil")));
    assert_eq!(
        id(&[Object::Char("a".to_string()), Object::Char("a".to_string())]),
        Ok(sym("nil"))
    );
    assert_eq!(id(&[Object::List(vec![]), Object::List(vec![])]), Ok(sym("nil")));
    assert_eq!(id(&[sym("a"), Object::Char("a".to_string())]), Ok(sym("nil")));
}

#[test]
fn primitives_are_found_by_name() {
    let prim = load_primatives();
    assert_eq!(prim.len(), 1);
    assert_eq!(prim.get("id"), Some(&Primitive::Id));
    assert_eq!(prim.get("no"), None);
    assert_eq!(Primitive::Id.call(&[sym("a"), sym("a")]), Ok(sym("t")));
    assert_eq!(Primitive::Id.call(&[sym("a"), sym("b")]), Ok(sym("nil")));
}

#[test]
fn primitive_is_a_function_of_its_arguments() {
    let mut locals = Bindings::new();
    locals.insert("a".to_string(), sym("b"));
    assert_eq!(
        Primitive::Id.apply(locals, vec![sym("a"), sym("a")]),
        Ok(sym("t"))
    );
    assert_eq!(
        Primitive::Id.apply(Bindings::new(), vec![sym("a"), sym("b")]),
        Ok(sym("nil"))
    );
}

#[test]
fn bindings_keep_the_last_value_of_a_name() {
    let mut bindings = Bindings::new();
    assert_eq!(bindings.len(), 0);
    assert!(!bindings.contains_key("a"));
    assert_eq!(bindings.get("a"), None);
    bindings.insert("a".to_string(), sym("x"));
    bindings.insert("b".to_string(), sym("y"));
    bindings.insert("a".to_string(), sym("z"));
    assert_eq!(bindings.len(), 2);
    assert!(bindings.contains_key("a"));
    assert_eq!(bindings.get("a"), Some(&sym("z")));
    assert_eq!(bindings.get("b"), Some(&sym("y")));
    let mut names = bindings.names();
    names.sort();
    assert_eq!(names, vec!["a".to_string(), "b".to_string()]);
}

#[test]
fn absorb_prefers_the_bindings_taken_over() {
    let mut base = Bindings::new();
    base.insert("a".to_string(), sym("old"));
    base.insert("b".to_string(), sym("kept"));
    let mut over = Bindings::new();
    over.insert("c".to_string(), sym("added"));
    over.insert("a".to_string(), sym("new"));
    base.absorb(&over);
    assert_eq!(base.len(), 3);
    assert_eq!(base.get("a"), Some(&sym("new")));
    assert_eq!(base.get("b"), Some(&sym("kept")));
    assert_eq!(base.get("c"), Some(&sym("added")));
    let mut names = base.names();
    names.sort();
    assert_eq!(
        names,
        vec!["a".to_string(), "b".to_string(), "c".to_string()]
    );
    assert_eq!(over.len(), 2);
}

#[test]
fn errors_compare_by_content() {
    assert_eq!(BelError::InvalidFn, BelError::InvalidFn);
    assert_ne!(BelError::InvalidQuote, BelError::InvalidDef);
    assert_ne!(
        BelError::UnboundSymbol("a".to_string()),
        BelError::UnboundSymbol("b".to_string())
    );
}

#[test]
fn defaults_are_empty() {
    let bindings = Bindings::default();
    assert_eq!(bindings.len(), 0);
    assert!(bindings.names().is_empty());
    let mut env = bel::environment::Environment::default();
    assert_eq!(env.globals.len(), 0);
    assert!(!env.primatives.contains_key("id"));
    assert_eq!(
        env.evaluate(&bindings, &sym("nil")),
        Err(BelError::UnboundSymbol("nil".to_string()))
    );
    let form = Object::List(vec![sym("id"), sym("nil")]);
    assert_eq!(
        env.evaluate(&bindings, &form),
        Err(BelError::UnboundSymbol("id".to_string()))
    );
    let mut parser = bel::parser::Parser::default();
    assert_eq!(parser.parse("(a)"), Ok(Object::List(vec![sym("a")])));
}
