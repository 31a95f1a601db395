use amlang::agent::amlang_agent::{apply_special, construe, vm_apply_special};
use amlang::agent::amlang_context::AmlangContext;
use amlang::agent::context::MetaEnvContext;
use amlang::agent::env_state::EnvState;
use amlang::agent::lang_error::{ExpectedCount, LangError};
use amlang::agent::printer::{env_text, primitive_text, sexp_text};
use amlang::agent::vm_interpreter::VmInterpreter;
use amlang::builtin::{BuiltIn, BuiltInFn};
use amlang::env::mem_backend::SimpleBackend;
use amlang::env::mem_env::MemEnv;
use amlang::env::meta_env::MetaEnv;
use amlang::env::{Environment, LocalNode};
use amlang::primitive::{LocalNodeTable, Node, Number, Primitive, SymNodeTable, Symbol};
use amlang::sexp::{Cons, Sexp};

type Env = MemEnv<SimpleBackend>;

fn ln(id: u64) -> LocalNode {
    LocalNode::new(id)
}

/// Special nodes of the language environment `lang`, each its own.
fn context(lang: u64) -> AmlangContext {
    AmlangContext {
        node: Node::new(ln(0), ln(lang)),
        quote: ln(10),
        lambda: ln(11),
        fexpr: ln(40),
        def: ln(12),
        tell: ln(13),
        curr: ln(14),
        jump: ln(15),
        ask: ln(16),
        placeholder: ln(17),
        apply: ln(18),
        eval: ln(19),
        exec_node: ln(20),
        import: ln(21),
        progn: ln(41),
        branch: ln(42),
        let_basic: ln(43),
        let_rec: ln(44),
        env_find: ln(22),
        env_jump: ln(45),
        t: ln(46),
        f: ln(47),
        eq: ln(48),
        sym_node_table: ln(49),
        sym_sexp_table: ln(50),
        local_node_table: ln(51),
        vector: ln(52),
        set: ln(53),
        anon: ln(54),
        self_ref: ln(55),
    }
}

/// A state whose current environment is meta node 2, holding its self node
/// and its designation node with an empty table of names; the language
/// environment is meta node 1, which does not exist.
fn new_state() -> EnvState<Env> {
    state_with(1)
}

/// A state whose current environment, meta node 2, is the language
/// environment too, with atoms for its special nodes.
fn lang_state() -> EnvState<Env> {
    let mut state = state_with(2);
    for _ in 0..60 {
        state.env().insert_node(None);
    }
    state
}

fn state_with(lang: u64) -> EnvState<Env> {
    let mut meta = Env::new();
    for _ in 0..3 {
        meta.insert_node(None);
    }
    let mut env = Env::new();
    env.insert_node(None);
    env.insert_node(Some(Sexp::Primitive(Primitive::SymNodeTable(SymNodeTable::new()))));
    let mut metaenv = MetaEnv::new(meta);
    metaenv.insert_env(ln(2), env);
    let mut state = EnvState::new(ln(2), ln(0), context(lang), MetaEnvContext::placeholder(), metaenv);
    state.designation_chain_mut().push_back(ln(2));
    state
}

fn node_sexp(env: u64, local: u64) -> Sexp {
    Sexp::Primitive(Primitive::Node(Node::new(ln(env), ln(local))))
}

fn sym(name: &str) -> Sexp {
    Sexp::Primitive(Primitive::Symbol(Symbol::new(name.to_string())))
}

fn integer(v: i64) -> Sexp {
    Sexp::Primitive(Primitive::Number(Number::Integer(v)))
}

fn list(elems: Vec<Sexp>) -> Sexp {
    amlang::reader::list_from_vec(elems)
}

fn triple_node(index: u64) -> u64 {
    index | 0x8000_0000_0000_0000
}

#[test]
fn special_tell_needs_three_arguments() {
    let mut state = new_state();
    let args = vec![Node::new(ln(2), ln(0)), Node::new(ln(2), ln(1))];
    assert_eq!(
        apply_special(&mut state, ln(13), args),
        Err(LangError::WrongArgumentCount { given: 2, expected: ExpectedCount::Exactly(3) })
    );
}

#[test]
fn special_tell_then_ask() {
    let mut state = new_state();
    let a = Node::new(ln(2), ln(0));
    let b = Node::new(ln(2), ln(1));
    let told = apply_special(&mut state, ln(13), vec![a, b, a]);
    assert_eq!(told, Ok(node_sexp(2, triple_node(0))));
    // Telling it again is a duplicate.
    assert!(matches!(
        apply_special(&mut state, ln(13), vec![a, b, a]),
        Err(LangError::DuplicateTriple(_))
    ));
    // Asking with the placeholder as object finds the triple.
    let ph = Node::new(ln(2), ln(17));
    assert_eq!(
        apply_special(&mut state, ln(16), vec![a, b, ph]),
        Ok(list(vec![node_sexp(2, triple_node(0))]))
    );
    // Asking for a pattern nothing matches gives the empty list.
    assert_eq!(apply_special(&mut state, ln(16), vec![b, b, ph]), Ok(list(vec![])));
}

#[test]
fn special_curr_and_jump() {
    let mut state = new_state();
    assert_eq!(apply_special(&mut state, ln(14), vec![]), Ok(node_sexp(2, 0)));
    assert_eq!(
        apply_special(&mut state, ln(14), vec![Node::new(ln(2), ln(0))]),
        Err(LangError::WrongArgumentCount { given: 1, expected: ExpectedCount::Exactly(0) })
    );
    let dest = Node::new(ln(2), ln(1));
    assert_eq!(apply_special(&mut state, ln(15), vec![dest]), Ok(node_sexp(2, 1)));
    assert_eq!(state.pos(), dest);
    assert_eq!(
        apply_special(&mut state, ln(15), vec![]),
        Err(LangError::WrongArgumentCount { given: 0, expected: ExpectedCount::Exactly(1) })
    );
}

#[test]
fn special_import_gives_one_node() {
    let mut state = new_state();
    let original = Node::new(ln(0), ln(1));
    let first = apply_special(&mut state, ln(21), vec![original]).unwrap();
    let second = apply_special(&mut state, ln(21), vec![original]).unwrap();
    assert_eq!(first, second);
    assert!(matches!(first, Sexp::Primitive(Primitive::Node(n)) if n.env() == ln(2)));
    let own = Node::new(ln(2), ln(0));
    match apply_special(&mut state, ln(21), vec![own]) {
        Err(LangError::InvalidArgument { given, expected }) => {
            assert_eq!(given, node_sexp(2, 0));
            assert_eq!(expected, "Node outside of current env");
        }
        other => panic!("unexpected {:?}", other),
    }
}

#[test]
fn special_env_find_needs_a_string() {
    let mut state = new_state();
    match apply_special(&mut state, ln(22), vec![Node::new(ln(2), ln(0))]) {
        Err(LangError::InvalidArgument { given, expected }) => {
            assert_eq!(given, node_sexp(2, 0));
            assert_eq!(expected, "Node containing string");
        }
        other => panic!("unexpected {:?}", other),
    }
    // A path that no environment is stored at finds nothing.
    let path = state.env().insert_node(Some(Sexp::Primitive(Primitive::LangString("x.env".to_string()))));
    assert_eq!(
        apply_special(&mut state, ln(22), vec![Node::new(ln(2), path)]),
        Ok(list(vec![]))
    );
}

#[test]
fn special_other_nodes_are_refused() {
    let mut state = new_state();
    match apply_special(&mut state, ln(99), vec![]) {
        Err(LangError::InvalidArgument { given, expected }) => {
            assert_eq!(given, node_sexp(1, 99));
            assert_eq!(expected, "special Amlang Node");
        }
        other => panic!("unexpected {:?}", other),
    }
}

#[test]
fn special_forms_that_run_procedures() {
    let mut state = new_state();
    let a = Node::new(ln(2), ln(0));
    assert_eq!(
        apply_special(&mut state, ln(12), vec![a, a, a]),
        Err(LangError::WrongArgumentCount { given: 3, expected: ExpectedCount::AtMost(2) })
    );
    assert_eq!(
        apply_special(&mut state, ln(12), vec![]),
        Err(LangError::WrongArgumentCount { given: 0, expected: ExpectedCount::AtLeast(1) })
    );
    assert!(matches!(apply_special(&mut state, ln(12), vec![a]), Err(LangError::Unsupported(_))));
    assert_eq!(
        apply_special(&mut state, ln(18), vec![a]),
        Err(LangError::WrongArgumentCount { given: 1, expected: ExpectedCount::Exactly(2) })
    );
    assert!(matches!(apply_special(&mut state, ln(19), vec![a]), Err(LangError::Unsupported(_))));
}

#[test]
fn construe_primitives() {
    let mut state = new_state();
    assert_eq!(construe(&mut state, integer(5)), Ok(integer(5)));
    assert!(matches!(construe(&mut state, sym("nothing")), Err(LangError::UnboundSymbol(_))));
    let named = state.env().insert_node(Some(sym("x")));
    let target = state.env().insert_node(None);
    state.name_node(named, target).unwrap();
    assert_eq!(construe(&mut state, sym("x")), Ok(node_sexp(2, target.id())));
    // A node means its structure.
    assert_eq!(construe(&mut state, node_sexp(2, named.id())), Ok(sym("x")));
}

#[test]
fn construe_forms() {
    let mut state = lang_state();
    let quote = node_sexp(2, 10);
    assert_eq!(construe(&mut state, list(vec![quote.clone(), sym("a")])), Ok(sym("a")));
    assert_eq!(
        construe(&mut state, list(vec![quote.clone()])),
        Err(LangError::WrongArgumentCount { given: 0, expected: ExpectedCount::Exactly(1) })
    );
    assert_eq!(
        construe(&mut state, list(vec![quote, integer(1), integer(2)])),
        Err(LangError::WrongArgumentCount { given: 2, expected: ExpectedCount::Exactly(1) })
    );
    match construe(&mut state, list(vec![integer(3), integer(4)])) {
        Err(LangError::InvalidArgument { given, expected }) => {
            assert_eq!(given, list(vec![integer(3), integer(4)]));
            assert_eq!(expected, "special form or Procedure application");
        }
        other => panic!("unexpected {:?}", other),
    }
    assert_eq!(construe(&mut state, list(vec![])), Err(LangError::InvalidSexp(list(vec![]))));
    assert!(matches!(
        construe(&mut state, list(vec![node_sexp(2, 12), sym("a")])),
        Err(LangError::Unsupported(_))
    ));
}

#[test]
fn interpret_records_history() {
    let mut state = new_state();
    let interpreter = VmInterpreter::new(ln(2), ln(2));
    assert_eq!(interpreter.interpret(&mut state, integer(7)), Ok(integer(7)));
    // The structure is now node 2 of the history environment.
    assert_eq!(interpreter.interpret(&mut state, node_sexp(2, 2)), Ok(integer(7)));
    // An atom means itself.
    assert_eq!(interpreter.interpret(&mut state, node_sexp(2, 0)), Ok(node_sexp(2, 0)));
}

#[test]
fn primitive_text_forms() {
    let mut state = new_state();
    let text = |state: &mut EnvState<Env>, p: Primitive| primitive_text(state, &p);
    assert_eq!(text(&mut state, Primitive::Number(Number::Integer(-42))), Some("-42".to_string()));
    assert_eq!(
        text(&mut state, Primitive::Number(Number::Integer(i64::MIN))),
        Some("-9223372036854775808".to_string())
    );
    assert_eq!(text(&mut state, Primitive::Number(Number::USize(0))), Some("0".to_string()));
    assert_eq!(
        text(&mut state, Primitive::Symbol(Symbol::new("abc".to_string()))),
        Some("abc".to_string())
    );
    assert_eq!(
        text(&mut state, Primitive::LangString("a\"b\\c".to_string())),
        Some("\"a\\\"b\\\\c\"".to_string())
    );
    assert_eq!(
        text(&mut state, Primitive::Path("envs/x.env".to_string())),
        Some("(__path \"envs/x.env\")".to_string())
    );
    assert_eq!(
        text(&mut state, Primitive::BuiltIn(BuiltIn::new("car", BuiltInFn::Car))),
        Some("(__builtin car)".to_string())
    );
    assert_eq!(text(&mut state, Primitive::SymNodeTable(SymNodeTable::new())), None);
    assert_eq!(text(&mut state, Primitive::LocalNodeTable(LocalNodeTable::new())), None);
}

#[test]
fn node_text_forms() {
    let mut state = new_state();
    let text = |state: &mut EnvState<Env>, n: Node| primitive_text(state, &Primitive::Node(n));
    assert_eq!(text(&mut state, Node::new(ln(2), ln(0))), Some("^0".to_string()));
    assert_eq!(text(&mut state, Node::new(ln(0), ln(2))), Some("^0^2".to_string()));
    assert_eq!(text(&mut state, Node::new(ln(2), ln(1))), Some("__designatedBy".to_string()));
    let a = state.env().insert_node(None);
    let t = state.env().insert_triple(a, a, a);
    assert_eq!(text(&mut state, Node::new(ln(2), t.node())), Some("^t0".to_string()));
    let name = state.env().insert_node(Some(sym("thing")));
    state.name_node(name, a).unwrap();
    assert_eq!(text(&mut state, Node::new(ln(2), a)), Some("thing".to_string()));
}

#[test]
fn sexp_text_forms() {
    let mut state = new_state();
    let s = list(vec![sym("a"), integer(1), Sexp::Primitive(Primitive::LangString("s".to_string()))]);
    assert_eq!(sexp_text(&mut state, &s), Some("(a 1 \"s\")".to_string()));
    assert_eq!(sexp_text(&mut state, &list(vec![])), Some("()".to_string()));
    let dotted = Sexp::Cons(Cons::new(Some(Box::new(sym("a"))), Some(Box::new(sym("b")))));
    assert_eq!(sexp_text(&mut state, &dotted), Some("(a . b)".to_string()));
    let nested = list(vec![list(vec![integer(1)]), list(vec![])]);
    assert_eq!(sexp_text(&mut state, &nested), Some("((1) ())".to_string()));
    let with_table =
        list(vec![Sexp::Primitive(Primitive::SymNodeTable(SymNodeTable::new()))]);
    assert_eq!(sexp_text(&mut state, &with_table), None);
}

#[test]
fn env_text_sections() {
    let mut state = new_state();
    assert_eq!(
        env_text(&mut state),
        Some(
            "(header (version \"0.0.3\") (node-count 2) (triple-count 0))\n\n(section nodes)\n ^0\n __designatedBy\n\n(section triples)\n\n"
                .to_string()
        )
    );
    let five = state.env().insert_node(Some(integer(5)));
    let text = state.env().insert_node(Some(Sexp::Primitive(Primitive::LangString("x".to_string()))));
    state.env().insert_triple(ln(0), five, text);
    assert_eq!(
        env_text(&mut state),
        Some(
            "(header (version \"0.0.3\") (node-count 4) (triple-count 1))\n\n(section nodes)\n ^0\n __designatedBy\n(^2 (quote 5))\n(^3 \"x\")\n\n(section triples)\n(^0 ^2 ^3)\n\n"
                .to_string()
        )
    );
    // A node holding a table has no text.
    state.env().insert_node(Some(Sexp::Primitive(Primitive::LocalNodeTable(LocalNodeTable::new()))));
    assert_eq!(env_text(&mut state), None);
}

#[test]
fn vm_special_forms() {
    let mut state = new_state();
    let a = Node::new(ln(2), ln(0));
    let b = Node::new(ln(2), ln(1));
    assert_eq!(vm_apply_special(&mut state, ln(13), vec![a, b, a]), Ok(node_sexp(2, triple_node(0))));
    assert_eq!(
        vm_apply_special(&mut state, ln(16), vec![a, b, a]),
        Ok(list(vec![node_sexp(2, triple_node(0))]))
    );
    // The interpreter that runs procedures has no curr, jump or env-find.
    for special in [14, 15, 22] {
        match vm_apply_special(&mut state, ln(special), vec![]) {
            Err(LangError::InvalidArgument { given, expected }) => {
                assert_eq!(given, node_sexp(1, special));
                assert_eq!(expected, "special Amlang Node");
            }
            other => panic!("unexpected {:?}", other),
        }
    }
    assert_eq!(
        vm_apply_special(&mut state, ln(53), vec![a, a, a]),
        Err(LangError::WrongArgumentCount { given: 3, expected: ExpectedCount::AtMost(2) })
    );
    assert!(matches!(vm_apply_special(&mut state, ln(53), vec![a]), Err(LangError::Unsupported(_))));
    let original = Node::new(ln(0), ln(1));
    let first = vm_apply_special(&mut state, ln(21), vec![original]).unwrap();
    assert_eq!(vm_apply_special(&mut state, ln(21), vec![original]), Ok(first));
}
