use amlang::env::entry::{EntryKind, EntryMutKind};
use amlang::env::mem_backend::SimpleBackend;
use amlang::env::mem_env::MemEnv;
use amlang::env::Environment;
use amlang::sexp::Sexp;

#[test]
fn mem_env_test_atomic_insertion() {
    let mut env = MemEnv::<SimpleBackend>::new();
    let a = env.insert_node(None);
    let b = env.insert_node(None);
    let c = env.insert_node(None);

    let t = env.insert_triple(a, b, c);
    assert_eq!(env.triple_predicate(t), b);

    let m = env.match_subject(a);
    assert_eq!(m.len(), 1);
    assert_eq!(m.objects()[0], c);
}

#[test]
fn mem_env_test_structure_insertion() {
    let mut env = MemEnv::<SimpleBackend>::new();
    let a = env.insert_node("(1 2 3)".parse::<Sexp>().ok());
    assert_eq!(env.entry(a).structure(), &"(1 2 3)".parse::<Sexp>().unwrap());

    let b = env.insert_node(None);
    let c = env.insert_node(None);

    let t = env.insert_triple(a, b, c);
    assert_eq!(env.triple_subject(t), a);
    assert_eq!(
        env.entry(env.triple_subject(t)).structure(),
        &"(1 2 3)".parse::<Sexp>().unwrap()
    );

    let m = env.match_predicate(b);
    assert_eq!(m.len(), 1);
    assert_eq!(m.objects()[0], c);
}

#[test]
fn entry_update() {
    let mut env = MemEnv::<SimpleBackend>::new();
    let a = env.insert_node(None);

    let mut entry = env.entry_mut(a);
    assert_eq!(*entry.kind(), EntryMutKind::Atomic);

    // Explicitly use update.
    *entry.kind_mut() = EntryMutKind::Owned("(1 2 3)".parse().unwrap());
    entry.update(&mut env);
    assert_eq!(*env.entry(a).structure(), "(1 2 3)".parse::<Sexp>().unwrap());

    // An entry is stored back by update alone.
    let mut entry = env.entry_mut(a);
    *entry.kind_mut() = EntryMutKind::Atomic;
    entry.update(&mut env);
    assert_eq!(*env.entry(a).kind(), EntryKind::Atomic);
}

#[test]
fn meta_triple_insertion() {
    let mut env = MemEnv::<SimpleBackend>::new();
    let a = env.insert_node(None);
    let b = env.insert_node(None);
    let c = env.insert_node(None);

    let t = env.insert_triple(a, b, c);
    let tt = env.insert_triple(t.node(), a, c);
    assert_eq!(env.triple_subject(tt), t.node());
}
