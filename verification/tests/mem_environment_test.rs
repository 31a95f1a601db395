use amlang::environment::meta_environment::{MetaEnvStructure, MetaEnvironment};
use amlang::environment::{Environment, MemEnvironment};
use amlang::sexp::Sexp;

#[test]
fn mem_environment_test_atomic_insertion() {
    let mut env = MemEnvironment::new();
    let a = env.insert_atom();
    let b = env.insert_atom();
    let c = env.insert_atom();

    let t = env.insert_triple(a, b, c);
    assert_eq!(env.triple_predicate(t), b);

    let m = env.match_subject(a);
    assert_eq!(m.len(), 1);
    assert_eq!(env.triple_object(m.get(0)), c);
}

#[test]
fn mem_environment_test_structure_insertion() {
    let mut env = MemEnvironment::new();
    let a = env.insert_structure("(1 2 3)".parse().unwrap());
    assert_eq!(env.node_structure(a).unwrap(), &"(1 2 3)".parse::<Sexp>().unwrap());

    let b = env.insert_atom();
    let c = env.insert_atom();

    let t = env.insert_triple(a, b, c);
    assert_eq!(env.triple_subject(t), a);
    assert_eq!(
        env.node_structure(env.triple_subject(t)).unwrap(),
        &"(1 2 3)".parse::<Sexp>().unwrap()
    );

    let m = env.match_predicate(b);
    assert_eq!(m.len(), 1);
    assert_eq!(env.triple_object(m.get(0)), c);
}

#[test]
fn create_environment() {
    let mut meta = MetaEnvironment::new();
    let env_node = meta.insert_structure(MetaEnvStructure::Env(Box::new(MemEnvironment::new())));
    let env = meta.access_env(env_node);
    let self_node = env.insert_atom();
    let a = env.insert_atom();
    let b = env.insert_atom();
    env.insert_triple(self_node, a, b);
}

#[test]
fn copied_environment_starts_empty() {
    let mut env = amlang::environment::mem_environment::MemEnvironment::new();
    env.insert_atom();
    let boxed = amlang::environment::environment::EnvClone::clone_box(&env);
    assert_eq!(boxed.all_nodes().len(), 0);
}
