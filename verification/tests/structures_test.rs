use amlang::agent::amlang_interpreter::{AmlangInterpreter, SymNodeTable};
use amlang::agent::continuation::Continuation;
use amlang::agent::env_header::{field_from_key, EnvHeader, HeaderBuilder, HeaderError, HeaderField};
use amlang::agent::env_prelude::EnvPrelude;
use amlang::agent::exec_state::ExecFrame;
use amlang::continuation::Continuation as RootedContinuation;
use amlang::env::LocalNode;
use amlang::primitive::{LocalNodeTable, Node, Number, Primitive, Symbol, SymbolTable};
use amlang::reader::{parse_sexp, ParseError};
use amlang::sexp::Sexp;

fn ln(id: u64) -> LocalNode {
    LocalNode::new(id)
}

fn sym(name: &str) -> Symbol {
    Symbol::new(name.to_string())
}

#[test]
fn symbol_table_later_entry_shadows() {
    let mut table = SymbolTable::new();
    assert_eq!(table.lookup(&sym("a")), None);
    table.insert(sym("a"), ln(3));
    table.insert(sym("b"), ln(4));
    table.insert(sym("a"), ln(5));
    assert_eq!(table.lookup(&sym("a")), Some(ln(5)));
    assert_eq!(table.lookup(&sym("b")), Some(ln(4)));
}

#[test]
fn local_node_table_insert_and_lookup() {
    let mut table = LocalNodeTable::new();
    table.insert(ln(1), ln(10));
    table.insert(ln(2), ln(20));
    table.insert(ln(1), ln(11));
    assert_eq!(table.lookup(&ln(1)), Some(ln(11)));
    assert_eq!(table.lookup(&ln(2)), Some(ln(20)));
    assert_eq!(table.lookup(&ln(3)), None);
}

#[test]
fn sym_node_table_contains() {
    let mut table = SymNodeTable::new();
    assert!(!table.contains_key(&sym("x")));
    table.insert(sym("x"), Node::new(ln(1), ln(2)));
    assert!(table.contains_key(&sym("x")));
    assert_eq!(table.lookup(&sym("x")), Some(Node::new(ln(1), ln(2))));
}

#[test]
fn amlang_interpreter_starts_with_one_frame() {
    let interpreter = AmlangInterpreter::new(ln(9));
    assert_eq!(interpreter.impl_env(), ln(9));
    assert_eq!(interpreter.eval_state.depth(), 1);
}

#[test]
fn exec_frame_binds_once() {
    let context = Node::new(ln(0), ln(4));
    let mut frame = ExecFrame::new(context);
    assert_eq!(frame.context(), context);
    let from = Node::new(ln(1), ln(2));
    assert!(frame.insert(from, Node::new(ln(1), ln(3))));
    assert!(!frame.insert(from, Node::new(ln(1), ln(7))));
    assert_eq!(frame.lookup(from), Some(Node::new(ln(1), ln(3))));
    assert_eq!(frame.lookup(Node::new(ln(1), ln(8))), None);
}

#[test]
fn continuation_push_then_pop() {
    let mut c: Continuation<u32> = Continuation::new();
    assert_eq!(c.pop(), None);
    c.push(1);
    c.push(2);
    assert_eq!(c.depth(), 2);
    *c.top_mut().unwrap() = 5;
    assert_eq!(c.pop(), Some(5));
    assert_eq!(c.pop(), Some(1));
    assert_eq!(c.depth(), 0);
}

#[test]
fn rooted_continuation_keeps_root() {
    let mut c = RootedContinuation::new(10u32);
    c.push(20);
    assert_eq!(*c.top(), 20);
    assert_eq!(c.pop(), Some(20));
    assert_eq!(*c.top(), 10);
    assert_eq!(c.pop(), None);
    assert_eq!(c.depth(), 1);
}

#[test]
fn prelude_names_round_trip() {
    for p in [EnvPrelude::SelfEnv, EnvPrelude::Designation, EnvPrelude::TellHandler] {
        assert_eq!(EnvPrelude::from_name(p.name()), Some(p));
        assert_eq!(p.local().as_prelude(), Some(p));
    }
    assert_eq!(EnvPrelude::Designation.local(), ln(1));
    assert_eq!(EnvPrelude::from_name("reserved"), None);
    assert_eq!(ln(10).as_prelude(), None);
}

#[test]
fn header_fields_by_key() {
    assert_eq!(field_from_key("version"), HeaderField::Version);
    assert_eq!(field_from_key("node-count"), HeaderField::NodeCount);
    assert_eq!(field_from_key("triple-count"), HeaderField::TripleCount);
    assert_eq!(field_from_key("author"), HeaderField::Unrecognized("author".to_string()));
}

#[test]
fn header_builder_duplicates_and_missing() {
    let mut b = HeaderBuilder::new();
    assert_eq!(b.check_field(&HeaderField::Version), Ok(()));
    b.version = Some("1".to_string());
    assert_eq!(b.check_field(&HeaderField::Version), Err(HeaderError::DuplicateField("version")));
    b.node_count = Some(3);
    let missing = HeaderBuilder { version: b.version.clone(), node_count: Some(3), triple_count: None, unrecognized: Vec::new() };
    assert!(matches!(missing.finish(), Err(HeaderError::MissingField("triple-count"))));
    b.triple_count = Some(2);
    b.insert_unrecognized(sym("k"), "1".parse().unwrap());
    b.insert_unrecognized(sym("k"), "2".parse().unwrap());
    let h = b.finish().unwrap();
    assert_eq!(h.node_count(), 3);
    assert_eq!(h.triple_count(), 2);
    assert_eq!(h.unrecognized().len(), 1);
    assert_eq!(h.unrecognized()[0].1, "2".parse::<Sexp>().unwrap());
}

#[test]
fn header_from_elements_lengths() {
    assert!(matches!(EnvHeader::from_elements(None, None, None), Err(HeaderError::InvalidLength(0))));
    assert!(matches!(
        EnvHeader::from_elements(Some("1".to_string()), None, None),
        Err(HeaderError::InvalidLength(1))
    ));
    let h = EnvHeader::from_elements(Some("1".to_string()), Some(4), Some(5)).unwrap();
    assert_eq!(h.file_version(), "1");
    assert_eq!(h.node_count(), 4);
    assert_eq!(h.triple_count(), 5);
}

#[test]
fn reader_atoms_and_lists() {
    assert_eq!(parse_sexp("-42"), Ok(Sexp::Primitive(Primitive::Number(Number::Integer(-42)))));
    assert_eq!(parse_sexp("x1"), Ok(Sexp::Primitive(Primitive::Symbol(sym("x1")))));
    assert_eq!(parse_sexp("   "), Err(ParseError::Empty));
    assert_eq!(parse_sexp("(a b"), Err(ParseError::MissingClose));
    assert_eq!(parse_sexp(")"), Err(ParseError::UnexpectedClose));
    assert_eq!(parse_sexp("a b"), Err(ParseError::ExtraInput));
    assert_eq!(parse_sexp("\"open"), Err(ParseError::UnterminatedString));
    assert_eq!(parse_sexp("(1 2 3)"), parse_sexp(" ( 1 2   3 ) "));
    assert_ne!(parse_sexp("(1 2 3)"), parse_sexp("(1 2)"));
}
