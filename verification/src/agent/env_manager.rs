//! Creating the environments that an agent manages.

use vstd::prelude::*;

use crate::agent::env_policy::EnvPolicy;
use crate::agent::env_prelude::{lemma_names_distinct, prelude_id, prelude_name, prelude_of_id, EnvPrelude};
use crate::agent::env_state::names_of;
use crate::env::environment::{EnvModel, Environment};
use crate::env::local_node::LocalNode;
use crate::primitive::{Node, Primitive, SymNodeTable, Symbol};
use crate::sexp::Sexp;

verus! {

/// The names that a new environment gives its prelude nodes, which lie in
/// the environment that the meta node `env_node` stands for.
pub open spec fn prelude_names(env_node: LocalNode) -> Map<Seq<char>, Node> {
    map![
        "self_env"@ => Node { env: env_node, local: LocalNode(0) },
        "amlang_designator"@ => Node { env: env_node, local: LocalNode(1) },
        "tell_handler"@ => Node { env: env_node, local: LocalNode(2) },
    ]
}

/// Whether `m` is the model of a new environment for the meta node
/// `env_node`: the self node, whose structure is the environment's node in
/// the meta environment; the designation node, holding the table that names
/// the prelude nodes; the tell handler, an atom; the reserved prelude nodes,
/// each the symbol `RESERVED`; no triple; and no designation.
pub open spec fn is_new_env(m: EnvModel, env_node: LocalNode) -> bool {
    &&& m.nodes.len() == 10
    &&& m.nodes[0] == Some(
        Sexp::Primitive(Primitive::Node(Node { env: LocalNode(0), local: env_node })),
    )
    &&& names_of(m) == Some(prelude_names(env_node))
    &&& m.nodes[2] is None
    &&& forall|i: int|
        3 <= i < 10 ==> (#[trigger] m.nodes[i] matches Some(
            Sexp::Primitive(Primitive::Symbol(s)),
        ) && s@ == "RESERVED"@)
    &&& m.triples.len() == 0
    &&& m.designations == Map::<u64, Map<Seq<char>, (u64, u64)>>::empty()
}

/// A new environment names each named prelude node by its name: in the
/// table of its designation node the name of `p` leads to the local node of
/// `p` in that environment; and the reserved name leads nowhere.
pub proof fn lemma_new_env_names(m: EnvModel, env_node: LocalNode, p: EnvPrelude)
    requires
        is_new_env(m, env_node),
    ensures
        prelude_name(p) != "RESERVED"@ ==> names_of(m)->0.contains_key(prelude_name(p))
            && names_of(m)->0[prelude_name(p)] == (Node {
            env: env_node,
            local: LocalNode(prelude_id(p)),
        }),
        !names_of(m)->0.contains_key("RESERVED"@),
{
    lemma_names_distinct();
    let t = names_of(m)->0;
    assert(t == prelude_names(env_node));
    assert(t.dom() =~= set!["self_env"@, "amlang_designator"@, "tell_handler"@]);
    match p {
        EnvPrelude::SelfEnv => {},
        EnvPrelude::Designation => {},
        EnvPrelude::TellHandler => {},
        _ => {},
    }
}

/// A new environment for the meta node `env_node`, stored as the policy
/// stores environments.
pub fn create_env<P: EnvPolicy>(policy: &mut P, env_node: LocalNode) -> (res: Box<P::StoredEnv>)
    ensures
        res.wf(),
        is_new_env(res.model(), env_node),
{
    proof {
        lemma_names_distinct();
    }
    let mut env = policy.new_base_env();
    let self_env = env.insert_node(
        Some(Sexp::Primitive(Primitive::Node(Node::new(LocalNode::new(0), env_node)))),
    );
    let mut names = SymNodeTable::new();
    names.insert(Symbol::new("self_env".to_owned()), Node::new(env_node, self_env));
    names.insert(Symbol::new("amlang_designator".to_owned()), Node::new(env_node, LocalNode::new(1)));
    names.insert(Symbol::new("tell_handler".to_owned()), Node::new(env_node, LocalNode::new(2)));
    let ghost names_view = names@;
    let designation = env.insert_node(Some(Sexp::Primitive(Primitive::SymNodeTable(names))));
    let tell_handler = env.insert_node(None);
    proof {
        assert(names_view =~= prelude_names(env_node));
        assert(designation.0 == 1 && tell_handler.0 == 2);
    }
    let mut reserved_id: u64 = 3;
    while LocalNode::new(reserved_id).as_prelude().is_some()
        invariant
            3 <= reserved_id <= 10,
            env.wf(),
            env.model().nodes.len() == reserved_id,
            env.model().triples.len() == 0,
            env.model().designations == Map::<u64, Map<Seq<char>, (u64, u64)>>::empty(),
            env.model().nodes[0] == Some(
                Sexp::Primitive(Primitive::Node(Node { env: LocalNode(0), local: env_node })),
            ),
            names_of(env.model()) == Some(prelude_names(env_node)),
            env.model().nodes[2] is None,
            forall|i: int|
                3 <= i < reserved_id ==> (#[trigger] env.model().nodes[i] matches Some(
                    Sexp::Primitive(Primitive::Symbol(s)),
                ) && s@ == "RESERVED"@),
        decreases 10 - reserved_id,
    {
        proof {
            assert(prelude_of_id(reserved_id) is Some ==> reserved_id < 10);
        }
        env.insert_node(Some(Sexp::Primitive(Primitive::Symbol(Symbol::new("RESERVED".to_owned())))));
        reserved_id = reserved_id + 1;
    }
    proof {
        assert(reserved_id == 10);
        let m = env.model();
        assert(m.nodes.len() == 10);
        assert(names_of(m) == Some(prelude_names(env_node)));
        assert(forall|i: int|
            3 <= i < 10 ==> (#[trigger] m.nodes[i] matches Some(
                Sexp::Primitive(Primitive::Symbol(s)),
            ) && s@ == "RESERVED"@));
        assert(is_new_env(m, env_node));
    }
    policy.new_stored_env(env)
}

} // verus!
