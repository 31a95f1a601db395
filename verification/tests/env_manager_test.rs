use amlang::env::mem_backend::SimpleBackend;
use amlang::env::mem_env::MemEnv;
use amlang::agent::env_manager::create_env;
use amlang::agent::env_policy::SimplePolicy;
use amlang::env::{Environment, LocalNode};
use amlang::primitive::{Node, Primitive, Symbol};
use amlang::sexp::Sexp;

#[test]
fn new_env_holds_the_prelude() {
    let mut policy = SimplePolicy::default();
    let env = create_env(&mut policy, LocalNode::new(5));
    assert_eq!(env.all_nodes().len(), 10);
    assert_eq!(env.match_all().len(), 0);
    let names = match env.entry(LocalNode::new(1)).as_option() {
        Some(Sexp::Primitive(Primitive::SymNodeTable(t))) => t.clone(),
        other => panic!("the designation node holds {:?}", other),
    };
    for (name, id) in [("self_env", 0), ("amlang_designator", 1), ("tell_handler", 2)] {
        assert_eq!(
            names.lookup(&Symbol::new(name.to_string())),
            Some(Node::new(LocalNode::new(5), LocalNode::new(id)))
        );
    }
    assert_eq!(names.lookup(&Symbol::new("RESERVED".to_string())), None);
    assert_eq!(
        env.entry(LocalNode::new(0)).as_option(),
        Some(&Sexp::Primitive(Primitive::Node(Node::new(LocalNode::new(0), LocalNode::new(5)))))
    );
    assert_eq!(
        env.entry(LocalNode::new(9)).as_option(),
        Some(&Sexp::Primitive(Primitive::Symbol(Symbol::new("RESERVED".to_string()))))
    );
    assert_eq!(env.entry(LocalNode::new(2)).as_option(), None);
}

#[test]
fn copied_env_starts_empty() {
    let mut env = MemEnv::<SimpleBackend>::new();
    env.insert_node(None);
    let copy = env.clone();
    assert_eq!(copy.all_nodes().len(), 0);
    assert_eq!(env.all_nodes().len(), 1);
}
