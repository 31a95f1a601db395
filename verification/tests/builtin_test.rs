use amlang::agent::lang_error::{ExpectedCount, LangError};
use amlang::builtin::{add, builtins, div, generate_builtin_map, lookup_builtin, mul, sub};
use amlang::primitive::{Number, Primitive};
use amlang::sexp::Sexp;

fn num(v: i64) -> Sexp {
    Sexp::Primitive(Primitive::Number(Number::Integer(v)))
}

#[test]
fn add_sums_arguments() {
    assert_eq!(add(&[num(1), num(2), num(3)]), Ok(num(6)));
    assert_eq!(add(&[]), Ok(num(0)));
    assert_eq!(add(&[num(-4), num(4)]), Ok(num(0)));
}

#[test]
fn sub_from_first() {
    assert_eq!(sub(&[num(10), num(3), num(2)]), Ok(num(5)));
    assert_eq!(sub(&[num(7)]), Ok(num(7)));
    assert_eq!(
        sub(&[]),
        Err(LangError::WrongArgumentCount { given: 0, expected: ExpectedCount::AtLeast(1) })
    );
}

#[test]
fn mul_multiplies_arguments() {
    assert_eq!(mul(&[num(2), num(3), num(4)]), Ok(num(24)));
    assert_eq!(mul(&[]), Ok(num(1)));
}

#[test]
fn div_truncates_toward_zero() {
    assert_eq!(div(&[num(100), num(5), num(2)]), Ok(num(10)));
    assert_eq!(div(&[num(-7), num(2)]), Ok(num(-3)));
    assert_eq!(
        div(&[]),
        Err(LangError::WrongArgumentCount { given: 0, expected: ExpectedCount::AtLeast(1) })
    );
}

#[test]
fn non_numbers_are_invalid_arguments() {
    let s: Sexp = "a".parse().unwrap();
    match add(&[num(1), s.clone()]) {
        Err(LangError::InvalidArgument { given, .. }) => assert_eq!(given, s),
        other => panic!("unexpected {:?}", other),
    }
    match sub(&[s.clone(), num(1)]) {
        Err(LangError::InvalidArgument { given, .. }) => assert_eq!(given, s),
        other => panic!("unexpected {:?}", other),
    }
}

#[test]
fn builtin_call_applies_its_operation() {
    let table = builtins();
    let plus = table.lookup("+").unwrap();
    assert_eq!(plus.name(), "add");
    assert_eq!(plus.call(&[num(2), num(2)]), Ok(num(4)));
    let minus = table.lookup("-").unwrap();
    assert_eq!(minus.call(&[num(2), num(5)]), Ok(num(-3)));
    assert!(table.lookup("%").is_none());
}

#[test]
fn builtin_map_by_name() {
    let map = generate_builtin_map();
    assert_eq!(lookup_builtin(&map, "mul").unwrap().name(), "mul");
    assert_eq!(lookup_builtin(&map, "div").unwrap().call(&[num(9), num(3)]), Ok(num(3)));
    assert!(lookup_builtin(&map, "pow").is_none());
}

#[test]
fn builtin_map_holds_every_procedure() {
    let map = generate_builtin_map();
    assert_eq!(map.len(), 14);
    for name in [
        "car", "cdr", "cons", "list_len", "println", "eq", "curr", "jump", "env_find", "env_jump",
        "add", "sub", "mul", "div",
    ] {
        assert_eq!(lookup_builtin(&map, name).unwrap().name(), name);
    }
}
