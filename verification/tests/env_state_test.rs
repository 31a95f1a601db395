use amlang::agent::amlang_context::AmlangContext;
use amlang::agent::context::MetaEnvContext;
use amlang::agent::designation::Designation;
use amlang::agent::env_serializer::{DeserializeError, EnvSerializer};
use amlang::agent::env_state::EnvState;
use amlang::agent::generic_agent::GenericAgent;
use amlang::agent::lang_error::LangError;
use amlang::builtin::BuiltInFn;
use amlang::env::mem_backend::SimpleBackend;
use amlang::env::mem_env::MemEnv;
use amlang::env::meta_env::MetaEnv;
use amlang::env::{Environment, LocalNode};
use amlang::primitive::{Node, Number, Primitive, SymNodeTable, Symbol};
use amlang::sexp::Sexp;

type Env = MemEnv<SimpleBackend>;

fn ln(id: u64) -> LocalNode {
    LocalNode::new(id)
}

fn context() -> AmlangContext {
    AmlangContext {
        node: Node::new(ln(0), ln(0)),
        quote: ln(0),
        lambda: ln(0),
        fexpr: ln(0),
        def: ln(0),
        tell: ln(0),
        curr: ln(0),
        jump: ln(0),
        ask: ln(0),
        placeholder: ln(7),
        apply: ln(0),
        eval: ln(0),
        exec_node: ln(0),
        import: ln(0),
        progn: ln(0),
        branch: ln(0),
        let_basic: ln(0),
        let_rec: ln(0),
        env_find: ln(0),
        env_jump: ln(0),
        t: ln(0),
        f: ln(0),
        eq: ln(0),
        sym_node_table: ln(0),
        sym_sexp_table: ln(0),
        local_node_table: ln(0),
        vector: ln(0),
        set: ln(0),
        anon: ln(0),
        self_ref: ln(0),
    }
}

fn sym(name: &str) -> Symbol {
    Symbol::new(name.to_string())
}

fn sym_sexp(name: &str) -> Sexp {
    Sexp::Primitive(Primitive::Symbol(sym(name)))
}

/// A state whose current environment is meta node 2, holding its self node
/// and its designation node with an empty table of names, and which
/// designates through that environment.
fn new_state() -> EnvState<Env> {
    let mut meta = Env::new();
    for _ in 0..3 {
        meta.insert_node(None);
    }
    let mut env = Env::new();
    env.insert_node(None);
    env.insert_node(Some(Sexp::Primitive(Primitive::SymNodeTable(SymNodeTable::new()))));
    let mut metaenv = MetaEnv::new(meta);
    metaenv.insert_env(ln(2), env);
    let mut state = EnvState::new(ln(2), ln(0), context(), MetaEnvContext::placeholder(), metaenv);
    state.designation_chain_mut().push_back(ln(2));
    state
}

#[test]
fn name_node_then_resolve() {
    let mut state = new_state();
    let name = state.env().insert_node(Some(sym_sexp("a")));
    let node = state.env().insert_node(None);
    assert_eq!(state.name_node(name, node), Ok(Node::new(ln(2), node)));
    assert_eq!(state.resolve(&sym("a")), Ok(Node::new(ln(2), node)));
}

#[test]
fn resolve_unbound_symbol() {
    let mut state = new_state();
    assert_eq!(state.resolve(&sym("nowhere")), Err(LangError::UnboundSymbol(sym("nowhere"))));
}

#[test]
fn name_node_twice_is_refused() {
    let mut state = new_state();
    let name = state.env().insert_node(Some(sym_sexp("a")));
    let first = state.env().insert_node(None);
    let second = state.env().insert_node(None);
    assert!(state.name_node(name, first).is_ok());
    assert_eq!(state.name_node(name, second), Err(LangError::AlreadyBoundSymbol(sym("a"))));
    assert_eq!(state.resolve(&sym("a")), Ok(Node::new(ln(2), first)));
}

#[test]
fn name_node_needs_a_symbol() {
    let mut state = new_state();
    let name = state.env().insert_node(None);
    let node = state.env().insert_node(None);
    assert!(matches!(state.name_node(name, node), Err(LangError::InvalidArgument { .. })));
}

#[test]
fn tell_twice_is_a_duplicate() {
    let mut state = new_state();
    let a = state.env().insert_node(None);
    let b = state.env().insert_node(None);
    let c = state.env().insert_node(None);
    let first = state.tell(a, b, c);
    assert!(matches!(first, Ok(Sexp::Primitive(Primitive::Node(_)))));
    assert!(matches!(state.tell(a, b, c), Err(LangError::DuplicateTriple(_))));
    assert_eq!(state.env().match_all().len(), 1);
}

#[test]
fn designate_symbol_node_and_self() {
    let mut state = new_state();
    let name = state.env().insert_node(Some(sym_sexp("a")));
    let node = state.env().insert_node(Some(Sexp::Primitive(Primitive::Number(Number::Integer(5)))));
    state.name_node(name, node).unwrap();
    assert_eq!(
        state.designate(Primitive::Symbol(sym("a"))),
        Ok(Sexp::Primitive(Primitive::Node(Node::new(ln(2), node))))
    );
    assert_eq!(
        state.designate(Primitive::Node(Node::new(ln(2), node))),
        Ok(Sexp::Primitive(Primitive::Number(Number::Integer(5))))
    );
    let seven = Primitive::Number(Number::Integer(7));
    assert_eq!(state.designate(seven.clone()), Ok(Sexp::Primitive(seven)));
}

#[test]
fn generic_agent_designates_operators() {
    let mut state = new_state();
    let node = state.env().insert_node(Some(sym_sexp("held")));
    let mut agent = GenericAgent::new(state);
    match agent.designate(&Primitive::Symbol(sym("+"))) {
        Ok(Sexp::Primitive(Primitive::BuiltIn(b))) => {
            assert_eq!(b.name(), "add");
        }
        other => panic!("unexpected designation {:?}", other),
    }
    assert_eq!(
        agent.designate(&Primitive::Symbol(sym("plus"))),
        Err(LangError::UnboundSymbol(sym("plus")))
    );
    assert_eq!(agent.designate(&Primitive::Node(Node::new(ln(2), node))), Ok(sym_sexp("held")));
    // An atom designates the empty list.
    assert_eq!(agent.designate(&Primitive::Node(Node::new(ln(2), ln(0)))), Ok(Sexp::default()));
    let _ = BuiltInFn::Add;
}

#[test]
fn deserialize_nodes_and_triples() {
    let state = new_state();
    let mut serializer = EnvSerializer::new(state);
    let nodes: Sexp = "(nodes skipped a b (c (quote 5)) (n (quote name)) __designatedBy)".parse().unwrap();
    assert!(!serializer.nodes_section_stuck(&nodes));
    let table = serializer.deserialize_nodes(nodes).unwrap();
    assert_eq!(table.lookup(&sym("a")), Some(ln(2)));
    assert_eq!(table.lookup(&sym("c")), Some(ln(4)));
    assert_eq!(table.lookup(&sym("__designatedBy")), Some(ln(1)));

    let triples: Sexp = "(triples (a b c) (a __designatedBy n))".parse().unwrap();
    assert!(!serializer.triples_section_stuck(&triples, &table));
    assert_eq!(serializer.deserialize_triples(triples, table), Ok(()));

    let mut state = serializer.extract_env();
    assert_eq!(state.env().match_all().len(), 2);
    assert_eq!(state.resolve(&sym("name")), Ok(Node::new(ln(2), ln(2))));
}

#[test]
fn deserialize_errors() {
    let mut serializer = EnvSerializer::new(new_state());
    let wrong: Sexp = "(things a)".parse().unwrap();
    assert_eq!(serializer.deserialize_nodes(wrong), Err(DeserializeError::UnexpectedCommand(sym_sexp("things"))));
    let unknown: Sexp = "(nodes skipped (x (__builtin nope)))".parse().unwrap();
    assert_eq!(serializer.deserialize_nodes(unknown), Err(DeserializeError::UnrecognizedBuiltIn(sym("nope"))));
    let extra: Sexp = "(nodes skipped (x (quote 1) more))".parse().unwrap();
    assert_eq!(serializer.deserialize_nodes(extra), Err(DeserializeError::ExtraneousNodeInfo));
    let number: Sexp = "(nodes skipped 5)".parse().unwrap();
    assert_eq!(serializer.deserialize_nodes(number), Err(DeserializeError::ExpectedSymbol));
}

#[test]
fn deserialize_stuck_sections_are_detected() {
    let mut serializer = EnvSerializer::new(new_state());
    let stuck: Sexp = "(nodes skipped (x (frobnicate 1)))".parse().unwrap();
    assert!(serializer.nodes_section_stuck(&stuck));
    let nodes: Sexp = "(nodes skipped a)".parse().unwrap();
    let table = serializer.deserialize_nodes(nodes).unwrap();
    let triples: Sexp = "(triples (a a missing))".parse().unwrap();
    assert!(serializer.triples_section_stuck(&triples, &table));
}

#[test]
fn deserialize_builtin_node() {
    let mut serializer = EnvSerializer::new(new_state());
    let nodes: Sexp = "(nodes skipped (p (__builtin add)))".parse().unwrap();
    let table = serializer.deserialize_nodes(nodes).unwrap();
    let p = table.lookup(&sym("p")).unwrap();
    let mut state = serializer.extract_env();
    match state.designate(Primitive::Node(Node::new(ln(2), p))) {
        Ok(Sexp::Primitive(Primitive::BuiltIn(b))) => assert_eq!(b.name(), "add"),
        other => panic!("unexpected {:?}", other),
    }
}

#[test]
fn ask_from_patterns() {
    let mut state = new_state();
    let a = state.env().insert_node(None);
    let b = state.env().insert_node(None);
    let c = state.env().insert_node(None);
    state.tell(a, b, c).unwrap();
    state.tell(a, c, b).unwrap();
    let g = |l: LocalNode| Some(Node::new(ln(2), l));
    assert_eq!(state.ask_from(ln(2), g(a), None, None).unwrap().len(), 2);
    assert_eq!(state.ask_from(ln(2), None, g(b), None).unwrap().len(), 1);
    assert_eq!(state.ask_from(ln(2), g(a), g(b), g(c)).unwrap().len(), 1);
    assert_eq!(state.ask_from(ln(2), g(c), g(b), g(a)).unwrap().len(), 0);
    assert_eq!(state.ask_from(ln(2), None, None, None).unwrap().len(), 2);
    match state.ask_from(ln(2), Some(Node::new(ln(0), a)), None, None) {
        Err(LangError::Unsupported(msg)) => {
            assert_eq!(msg, "Cross-env triples are not currently supported")
        }
        _ => panic!("a node of another environment was accepted"),
    }
    assert_eq!(state.ask_any(Node::new(ln(2), b)).len(), 2);
}

#[test]
fn define_adds_to_current_env() {
    let mut state = new_state();
    let n = state.define(Some(sym_sexp("x")));
    assert_eq!(n, Node::new(ln(2), ln(2)));
    assert_eq!(state.designate(Primitive::Node(n)), Ok(sym_sexp("x")));
    let atom = state.define(None);
    assert_eq!(atom, Node::new(ln(2), ln(3)));
}

#[test]
fn import_then_get_imported() {
    let mut state = new_state();
    let original = Node::new(ln(0), ln(1));
    let imported = state.import(original).unwrap();
    assert_eq!(imported.env(), ln(2));
    // Importing again gives the same node.
    assert_eq!(state.import(original), Ok(imported));
    assert_eq!(state.get_imported(original, ln(2)), Some(imported));
    // The imported node stands for the original.
    assert_eq!(
        state.designate(Primitive::Node(imported)),
        Ok(Sexp::Primitive(Primitive::Node(original)))
    );
    // Nodes of the current environment are not imported.
    let own = Node::new(ln(2), ln(1));
    assert!(matches!(state.import(own), Err(LangError::InvalidArgument { .. })));
    assert_eq!(state.get_imported(own, ln(2)), Some(own));
    assert_eq!(state.get_imported(Node::new(ln(0), ln(2)), ln(2)), None);
}

#[test]
fn triple_reify_lists_its_parts() {
    let mut state = new_state();
    let a = state.env().insert_node(None);
    let b = state.env().insert_node(None);
    let t = state.env().insert_triple(a, b, a);
    let expected: Vec<Sexp> = vec![a, b, a]
        .into_iter()
        .map(|l| Sexp::Primitive(Primitive::Node(l.globalize(&state))))
        .collect();
    assert_eq!(amlang::sexp::list_elements(&t.reify(&state)), expected);
}

#[test]
fn env_jump_needs_a_meta_node() {
    let mut state = new_state();
    let inside = Node::new(ln(2), ln(1));
    assert!(matches!(
        amlang::builtins::env_jump(inside, &mut state),
        Err(LangError::InvalidArgument { .. })
    ));
    assert_eq!(amlang::builtins::curr(&state), Node::new(ln(2), ln(0)));
    let meta_node = Node::new(ln(0), ln(2));
    assert_eq!(amlang::builtins::env_jump(meta_node, &mut state), Ok(meta_node));
    assert_eq!(state.pos(), Node::new(ln(2), ln(0)));
    assert_eq!(amlang::builtins::jump(Node::new(ln(2), ln(1)), &mut state), Node::new(ln(2), ln(1)));
    assert_eq!(state.pos(), Node::new(ln(2), ln(1)));
}

#[test]
fn eq_resolves_truth() {
    let mut state = new_state();
    let t_name = state.env().insert_node(Some(sym_sexp("true")));
    let t = state.env().insert_node(None);
    state.name_node(t_name, t).unwrap();
    let one: Sexp = "(1 (a \"s\"))".parse().unwrap();
    let same: Sexp = "(1 (a \"s\"))".parse().unwrap();
    let other: Sexp = "(1 (a \"z\"))".parse().unwrap();
    assert_eq!(amlang::builtins::eq(&one, &same, &mut state), Ok(Node::new(ln(2), t)));
    assert_eq!(
        amlang::builtins::eq(&one, &other, &mut state),
        Err(LangError::UnboundSymbol(sym("false")))
    );
}

#[test]
fn deserialize_list_builtin() {
    let mut serializer = EnvSerializer::new(new_state());
    let nodes: Sexp = "(nodes skipped (c (__builtin car)))".parse().unwrap();
    let table = serializer.deserialize_nodes(nodes).unwrap();
    let c = table.lookup(&sym("c")).unwrap();
    let mut state = serializer.extract_env();
    match state.designate(Primitive::Node(Node::new(ln(2), c))) {
        Ok(Sexp::Primitive(Primitive::BuiltIn(b))) => assert_eq!(b.name(), "car"),
        other => panic!("unexpected {:?}", other),
    }
}

#[test]
fn designation_triples_keep_every_name() {
    let mut serializer = EnvSerializer::new(new_state());
    let nodes: Sexp = "(nodes skipped a (n1 (quote first)) (n2 (quote second)) __designatedBy)"
        .parse()
        .unwrap();
    let table = serializer.deserialize_nodes(nodes).unwrap();
    let triples: Sexp = "(triples (a __designatedBy n1) (a __designatedBy n2))".parse().unwrap();
    assert_eq!(serializer.deserialize_triples(triples, table), Ok(()));
    let mut state = serializer.extract_env();
    assert_eq!(state.resolve(&sym("first")), Ok(Node::new(ln(2), ln(2))));
    assert_eq!(state.resolve(&sym("second")), Ok(Node::new(ln(2), ln(2))));
}

#[test]
fn two_names_for_one_node() {
    let mut state = new_state();
    let first = state.env().insert_node(Some(sym_sexp("first")));
    let second = state.env().insert_node(Some(sym_sexp("second")));
    let node = state.env().insert_node(None);
    state.name_node(first, node).unwrap();
    state.name_node(second, node).unwrap();
    assert_eq!(state.resolve(&sym("first")), Ok(Node::new(ln(2), node)));
    assert_eq!(state.resolve(&sym("second")), Ok(Node::new(ln(2), node)));
}

#[test]
fn import_with_broken_table_is_refused() {
    let mut state = new_state();
    {
        let meta = state.access_env(ln(0)).unwrap();
        let import_triple = meta.insert_triple(ln(2), ln(0), ln(0));
        let not_a_table = meta.insert_node(None);
        meta.insert_triple(import_triple.node(), ln(0), not_a_table);
    }
    match state.import(Node::new(ln(0), ln(1))) {
        Err(LangError::InvalidState { actual, expected }) => {
            assert_eq!(actual, "import table triple object has no table");
            assert_eq!(expected, "has table");
        }
        other => panic!("unexpected {:?}", other),
    }
}

#[test]
fn deserialize_sections_in_order() {
    let sections = amlang::reader::parse_sections(
        "(nodes skipped a b (c (quote 5)))\n(triples (a b c))\n",
    )
    .unwrap();
    let mut serializer = EnvSerializer::new(new_state());
    assert_eq!(serializer.deserialize_sections(sections), Ok(()));
    let mut state = serializer.extract_env();
    assert_eq!(state.env().match_all().len(), 1);

    let mut serializer = EnvSerializer::new(new_state());
    assert_eq!(serializer.deserialize_sections(Vec::new()), Err(DeserializeError::MissingNodeSection));
    let only_nodes = amlang::reader::parse_sections("(nodes skipped a)").unwrap();
    assert_eq!(serializer.deserialize_sections(only_nodes), Err(DeserializeError::MissingTripleSection));

    let mut serializer = EnvSerializer::new(new_state());
    let three = amlang::reader::parse_sections("(nodes skipped a) (triples) (more)").unwrap();
    assert_eq!(serializer.deserialize_sections(three), Err(DeserializeError::ExtraneousSection));
}
