//! Built-in procedures that take structures apart and move the agent.

use vstd::prelude::*;

use crate::agent::env_state::{lookup_chain, node_sexp, paths_have_structure, records_path, EnvState};
use crate::agent::lang_error::LangError;
use crate::env::environment::Environment;
use crate::env::local_node::{LocalNode, LocalTriple};
use crate::primitive::{Node, Number, Primitive, Symbol};
use crate::text::str_eq;
use crate::reader::shape;
use crate::sexp::{empty_list, Cons, Sexp};

verus! {

/// The number of elements of a proper list: a chain of cells, each with an
/// element and then either nothing or the next cell. A cell without an
/// element ends the list; a primitive in place of a cell makes it improper.
pub open spec fn proper_len(s: Sexp) -> Option<nat>
    decreases s,
{
    match s {
        Sexp::Primitive(_) => None,
        Sexp::Cons(c) => match c.car {
            None => Some(0),
            Some(_) => match c.cdr {
                None => Some(1),
                Some(d) => match proper_len(*d) {
                    Some(n) => Some(n + 1),
                    None => None,
                },
            },
        },
    }
}

/// The first part of a cell, or the empty list where it has none.
pub fn car(cons: Cons) -> (res: Sexp)
    ensures
        res == (match cons.car {
            Some(v) => *v,
            None => empty_list(),
        }),
{
    match cons.consume().0 {
        Some(val) => *val,
        None => Sexp::default(),
    }
}

/// The rest of a cell, or the empty list where it has none.
pub fn cdr(cons: Cons) -> (res: Sexp)
    ensures
        res == (match cons.cdr {
            Some(v) => *v,
            None => empty_list(),
        }),
{
    match cons.consume().1 {
        Some(val) => *val,
        None => Sexp::default(),
    }
}

/// Whether a structure is the empty list.
fn is_empty_list(s: &Sexp) -> (res: bool)
    ensures
        res == (*s == empty_list()),
{
    match s {
        Sexp::Cons(c) => c.car.is_none() && c.cdr.is_none(),
        Sexp::Primitive(_) => false,
    }
}

/// The cell of `car` and `cdr`, where an empty list in either place is
/// left out.
pub fn cons(car: Sexp, cdr: Sexp) -> (res: Cons)
    ensures
        res.car == (if car == empty_list() {
            None
        } else {
            Some(Box::new(car))
        }),
        res.cdr == (if cdr == empty_list() {
            None
        } else {
            Some(Box::new(cdr))
        }),
{
    let car_part = if is_empty_list(&car) {
        None
    } else {
        Some(Box::new(car))
    };
    let cdr_part = if is_empty_list(&cdr) {
        None
    } else {
        Some(Box::new(cdr))
    };
    Cons::new(car_part, cdr_part)
}

/// The number of elements of a proper list, if it is one.
fn count_elements(s: &Sexp) -> (res: Option<usize>)
    requires
        proper_len(*s) matches Some(n) ==> n <= usize::MAX,
    ensures
        res == (match proper_len(*s) {
            Some(n) => Some(n as usize),
            None => None,
        }),
    decreases s,
{
    match s {
        Sexp::Primitive(_) => None,
        Sexp::Cons(c) => match &c.car {
            None => Some(0),
            Some(_) => match &c.cdr {
                None => Some(1),
                Some(d) => match count_elements(d) {
                    Some(n) => Some(n + 1),
                    None => None,
                },
            },
        },
    }
}

/// The number of elements of a proper list; anything else is refused.
pub fn list_len(sexp: Sexp) -> (res: Result<Sexp, LangError>)
    requires
        proper_len(sexp) matches Some(n) ==> n <= usize::MAX,
    ensures
        proper_len(sexp) matches Some(n) ==> res == Ok::<Sexp, LangError>(
            Sexp::Primitive(Primitive::Number(Number::USize(n as usize))),
        ),
        proper_len(sexp) is None ==> (res matches Err(LangError::InvalidArgument { given, expected })
            && given == sexp && expected@ == "Proper list"@),
{
    match count_elements(&sexp) {
        Some(n) => Ok(Sexp::Primitive(Primitive::Number(Number::USize(n)))),
        None => Err(LangError::InvalidArgument { given: sexp, expected: "Proper list".to_owned() }),
    }
}

/// Whether two primitives are equal: texts by their characters, built-in
/// procedures by name and operation, anything else by value.
pub open spec fn prim_same(a: Primitive, b: Primitive) -> bool {
    match (a, b) {
        (Primitive::Number(x), Primitive::Number(y)) => x == y,
        (Primitive::Symbol(x), Primitive::Symbol(y)) => x@ == y@,
        (Primitive::LangString(x), Primitive::LangString(y)) => x@ == y@,
        (Primitive::Node(x), Primitive::Node(y)) => x == y,
        (Primitive::Path(x), Primitive::Path(y)) => x@ == y@,
        (Primitive::LocalNodeTable(x), Primitive::LocalNodeTable(y)) => x == y,
        (Primitive::SymNodeTable(x), Primitive::SymNodeTable(y)) => x.same(&y),
        (Primitive::BuiltIn(x), Primitive::BuiltIn(y)) => x.spec_name() == y.spec_name()
            && x.spec_fun() == y.spec_fun(),
        _ => false,
    }
}

/// Whether two structures are equal: the same primitives in the same cells.
pub open spec fn sexp_same(a: Sexp, b: Sexp) -> bool
    decreases a,
{
    match (a, b) {
        (Sexp::Primitive(x), Sexp::Primitive(y)) => prim_same(x, y),
        (Sexp::Cons(x), Sexp::Cons(y)) => (match (x.car, y.car) {
            (None, None) => true,
            (Some(p), Some(q)) => sexp_same(*p, *q),
            _ => false,
        }) && (match (x.cdr, y.cdr) {
            (None, None) => true,
            (Some(p), Some(q)) => sexp_same(*p, *q),
            _ => false,
        }),
        _ => false,
    }
}

fn same_primitive(a: &Primitive, b: &Primitive) -> (res: bool)
    ensures
        res == prim_same(*a, *b),
{
    match (a, b) {
        (Primitive::Number(x), Primitive::Number(y)) => *x == *y,
        (Primitive::Symbol(x), Primitive::Symbol(y)) => str_eq(x.as_str(), y.as_str()),
        (Primitive::LangString(x), Primitive::LangString(y)) => str_eq(x.as_str(), y.as_str()),
        (Primitive::Node(x), Primitive::Node(y)) => *x == *y,
        (Primitive::Path(x), Primitive::Path(y)) => str_eq(x.as_str(), y.as_str()),
        (Primitive::LocalNodeTable(x), Primitive::LocalNodeTable(y)) => x.same_as(y),
        (Primitive::SymNodeTable(x), Primitive::SymNodeTable(y)) => x.same_as(y),
        (Primitive::BuiltIn(x), Primitive::BuiltIn(y)) => str_eq(x.name(), y.name()) && x.fun()
            == y.fun(),
        _ => false,
    }
}

fn same_sexp(a: &Sexp, b: &Sexp) -> (res: bool)
    ensures
        res == sexp_same(*a, *b),
    decreases a,
{
    match (a, b) {
        (Sexp::Primitive(x), Sexp::Primitive(y)) => same_primitive(x, y),
        (Sexp::Cons(x), Sexp::Cons(y)) => {
            let cars = match (&x.car, &y.car) {
                (None, None) => true,
                (Some(p), Some(q)) => same_sexp(p, q),
                _ => false,
            };
            if !cars {
                return false;
            }
            match (&x.cdr, &y.cdr) {
                (None, None) => true,
                (Some(p), Some(q)) => same_sexp(p, q),
                _ => false,
            }
        },
        _ => false,
    }
}

/// The node that `true` resolves to where the two structures are equal,
/// else the node that `false` resolves to.
pub fn eq<E: Environment>(a: &Sexp, b: &Sexp, state: &mut EnvState<E>) -> (res: Result<
    Node,
    LangError,
>)
    requires
        old(state).wf(),
        old(state).chain_valid(),
    ensures
        *final(state) == *old(state),
        ({
            let name = if sexp_same(*a, *b) {
                "true"@
            } else {
                "false"@
            };
            match lookup_chain(old(state).spec_chain(), old(state).envs(), name) {
                Some(n) => res == Ok::<Node, LangError>(n),
                None => res matches Err(LangError::UnboundSymbol(s)) && s@ == name,
            }
        }),
{
    let name = if same_sexp(a, b) {
        Symbol::new("true".to_owned())
    } else {
        Symbol::new("false".to_owned())
    };
    state.resolve(&name)
}

/// The node the agent stands at.
pub fn curr<E: Environment>(state: &EnvState<E>) -> (res: Node)
    ensures
        res == (Node { env: state.spec_env(), local: state.spec_pos() }),
{
    state.pos()
}

/// Moves the agent to `node`, which it returns.
pub fn jump<E: Environment>(node: Node, state: &mut EnvState<E>) -> (res: Node)
    ensures
        res == node,
        final(state).spec_env() == node.env,
        final(state).spec_pos() == node.local,
        final(state).spec_chain() == old(state).spec_chain(),
        final(state).envs() == old(state).envs(),
        final(state).wf() == old(state).wf(),
{
    state.jump(node);
    node
}

/// Moves the agent to the self node of the environment that `node`, a node
/// of the meta environment, stands for; a node of another environment is
/// refused.
pub fn env_jump<E: Environment>(node: Node, state: &mut EnvState<E>) -> (res: Result<
    Node,
    LangError,
>)
    ensures
        node.env.0 != 0 ==> (res matches Err(LangError::InvalidArgument { given, expected })
            && given == node_sexp(node) && expected@ == "Env node"@ && *final(state) == *old(
            state,
        )),
        node.env.0 == 0 ==> (res == Ok::<Node, LangError>(node) && final(state).spec_env()
            == node.local && final(state).spec_pos() == LocalNode(0) && final(state).spec_chain()
            == old(state).spec_chain() && final(state).envs() == old(state).envs()
            && final(state).wf() == old(state).wf()),
{
    if node.env().id() != 0 {
        return Err(
            LangError::InvalidArgument {
                given: Sexp::Primitive(Primitive::Node(node)),
                expected: "Env node".to_owned(),
            },
        );
    }
    state.jump_env(node.local());
    Ok(node)
}

/// The meta node of the environment stored at a path that ends with
/// `path` (the one recorded first), or the empty list where there is none.
pub fn env_find<E: Environment>(path: &str, state: &EnvState<E>) -> (res: Sexp)
    requires
        state.wf(),
        state.meta_env().model().valid_node(state.spec_meta_context().serialize_path),
        paths_have_structure(state.meta_env().model(), state.spec_meta_context().serialize_path),
    ensures
        res == empty_list() <==> forall|t: LocalTriple|
            !records_path(
                state.meta_env().model(),
                state.spec_meta_context().serialize_path,
                path@,
                t,
            ),
        res != empty_list() ==> exists|t: LocalTriple|
            records_path(
                state.meta_env().model(),
                state.spec_meta_context().serialize_path,
                path@,
                t,
            ) && (forall|u: LocalTriple|
                records_path(
                    state.meta_env().model(),
                    state.spec_meta_context().serialize_path,
                    path@,
                    u,
                ) ==> t.0.0 <= u.0.0) && res == node_sexp(
                Node { env: LocalNode(0), local: state.meta_env().model().subject_of(t) },
            ),
{
    match state.find_env(path) {
        Some(l) => Sexp::Primitive(Primitive::Node(Node::new(LocalNode::new(0), l))),
        None => Sexp::default(),
    }
}


/// Structures that `eq` finds equal have the same shape, everything their
/// text fixes, and, where they are proper lists, the same number of
/// elements.
pub proof fn lemma_same_structures_agree(a: Sexp, b: Sexp)
    requires
        sexp_same(a, b),
    ensures
        shape(a) == shape(b),
        proper_len(a) == proper_len(b),
    decreases a,
{
    match (a, b) {
        (Sexp::Cons(x), Sexp::Cons(y)) => {
            match (x.car, y.car) {
                (Some(p), Some(q)) => lemma_same_structures_agree(*p, *q),
                _ => {},
            }
            match (x.cdr, y.cdr) {
                (Some(p), Some(q)) => lemma_same_structures_agree(*p, *q),
                _ => {},
            }
        },
        _ => {},
    }
}

} // verus!
