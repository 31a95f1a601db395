use amlang::agent::lang_error::LangError;
use amlang::builtins::{car, cdr, cons, list_len};
use amlang::primitive::{Number, Primitive};
use amlang::sexp::{Cons, Sexp};

fn parse(text: &str) -> Sexp {
    text.parse().unwrap()
}

fn cell(s: Sexp) -> Cons {
    match s {
        Sexp::Cons(c) => c,
        Sexp::Primitive(p) => panic!("not a cell: {:?}", p),
    }
}

#[test]
fn car_and_cdr_of_a_list() {
    assert_eq!(car(cell(parse("(1 2 3)"))), parse("1"));
    assert_eq!(cdr(cell(parse("(1 2 3)"))), parse("(2 3)"));
    assert_eq!(car(cell(parse("()"))), Sexp::default());
    assert_eq!(cdr(cell(parse("(1)"))), Sexp::default());
}

#[test]
fn cons_leaves_out_empty_lists() {
    let c = cons(parse("1"), parse("(2 3)"));
    assert_eq!(Sexp::Cons(c), parse("(1 2 3)"));
    let single = cons(parse("x"), Sexp::default());
    assert_eq!(Sexp::Cons(single), parse("(x)"));
    let empty = cons(Sexp::default(), Sexp::default());
    assert!(empty.car.is_none() && empty.cdr.is_none());
}

#[test]
fn list_len_counts_proper_lists() {
    assert_eq!(list_len(parse("(a b c)")), Ok(Sexp::Primitive(Primitive::Number(Number::USize(3)))));
    assert_eq!(list_len(parse("()")), Ok(Sexp::Primitive(Primitive::Number(Number::USize(0)))));
    match list_len(parse("a")) {
        Err(LangError::InvalidArgument { given, expected }) => {
            assert_eq!(given, parse("a"));
            assert_eq!(expected, "Proper list");
        }
        other => panic!("unexpected {:?}", other),
    }
    let improper = Sexp::Cons(Cons::new(Some(Box::new(parse("1"))), Some(Box::new(parse("2")))));
    assert!(matches!(list_len(improper), Err(LangError::InvalidArgument { .. })));
}

#[test]
fn cons_list_builds_in_order() {
    let empty = amlang::cons_list::ConsList::new();
    assert_eq!(*empty.release(), Sexp::default());
    let mut list = amlang::cons_list::ConsList::new();
    list.append(Box::new(parse("1")));
    list.append(Box::new(parse("(2)")));
    list.append(Box::new(parse("x")));
    assert_eq!(*list.release(), parse("(1 (2) x)"));
}
