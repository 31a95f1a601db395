//! State of the interpreter that executes procedures of an environment.

use vstd::prelude::*;

use crate::agent::env_state::{node_meaning, EnvState};
use crate::agent::lang_error::LangError;
use crate::env::environment::{slot, Environment};
use crate::env::local_node::LocalNode;
use crate::env::mem_backend::index_id_conv::{spec_is_triple_id, triple_bit};
use crate::primitive::{Node, Primitive};
use crate::sexp::{clone_sexp, Sexp};

verus! {

#[derive(Debug)]
pub struct VmInterpreter {
    history_env: LocalNode,
    impl_env: LocalNode,
}

impl VmInterpreter {
    pub closed spec fn spec_history_env(&self) -> LocalNode {
        self.history_env
    }

    pub closed spec fn spec_impl_env(&self) -> LocalNode {
        self.impl_env
    }

    pub fn new(history_env: LocalNode, impl_env: LocalNode) -> (res: Self)
        ensures
            res.spec_history_env() == history_env,
            res.spec_impl_env() == impl_env,
    {
        Self { history_env, impl_env }
    }

    /// Interprets a structure: a node stands for what it means (its
    /// structure, the parts of a triple, or itself where it has none); any
    /// other structure is first recorded as a new node of the history
    /// environment and then stands for itself. Procedures are not run here,
    /// so a structure means no more than it holds.
    pub fn interpret<E: Environment>(&self, state: &mut EnvState<E>, structure: Sexp) -> (res:
        Result<Sexp, LangError>)
        requires
            old(state).wf(),
            structure matches Sexp::Primitive(Primitive::Node(n)) ==> {
                &&& old(state).chain_valid()
                &&& old(state).envs().contains_key(n.env.0)
                &&& old(state).envs()[n.env.0].model().valid_node(n.local)
                &&& spec_is_triple_id(n.local.0) ==> (old(state).has_current() && 0 <= slot(
                    n.local.0,
                ) < old(state).current().model().triples.len())
            },
            !(structure matches Sexp::Primitive(Primitive::Node(_))) ==> {
                &&& old(state).envs().contains_key(self.spec_history_env().0)
                &&& old(state).envs()[self.spec_history_env().0].model().nodes.len() < triple_bit()
            },
        ensures
            final(state).wf(),
            structure matches Sexp::Primitive(Primitive::Node(n)) ==> res == Ok::<Sexp, LangError>(
                node_meaning(*old(state), n),
            ) && *final(state) == *old(state),
            !(structure matches Sexp::Primitive(Primitive::Node(_))) ==> {
                let h = self.spec_history_env().0;
                &&& res == Ok::<Sexp, LangError>(structure)
                &&& final(state).same_place(&*old(state))
                &&& final(state).envs().dom() =~= old(state).envs().dom()
                &&& final(state).envs()[h].model() == old(state).envs()[h].model().with_node(
                    Some(structure),
                )
                &&& forall|id: u64|
                    id != h && #[trigger] old(state).envs().contains_key(id)
                        ==> final(state).envs()[id] == old(state).envs()[id]
            },
    {
        match structure {
            Sexp::Primitive(Primitive::Node(n)) => state.designate(Primitive::Node(n)),
            other => {
                let kept = clone_sexp(&other);
                let history = self.history_env;
                proof {
                    state.lemma_env_wf(history.0);
                }
                match state.access_env(history) {
                    Some(env) => {
                        env.insert_node(Some(kept));
                    },
                    None => vstd::pervasive::unreached(),
                }
                Ok(other)
            },
        }
    }
}


} // verus!
