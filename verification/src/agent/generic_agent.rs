//! An agent that designates the built-in operators and its nodes' structure.

use vstd::prelude::*;

use crate::agent::designation::Designation;
use crate::agent::env_state::EnvState;
use crate::agent::lang_error::LangError;
use crate::builtin::{builtins, operator_named, spec_builtin};
use crate::env::environment::Environment;
use crate::env::mem_backend::index_id_conv::spec_is_triple_id;
use crate::primitive::Primitive;
use crate::sexp::{clone_sexp, empty_list, Sexp};

verus! {

pub struct GenericAgent<E: Environment> {
    env_state: EnvState<E>,
}

/// What a generic agent in state `state` designates by `designator`.
pub open spec fn generic_designation<E: Environment>(
    state: EnvState<E>,
    designator: Primitive,
) -> Result<Sexp, LangError> {
    match designator {
        Primitive::Symbol(sym) => match operator_named(sym@) {
            Some(f) => Ok(Sexp::Primitive(Primitive::BuiltIn(spec_builtin(f)))),
            None => Err(LangError::UnboundSymbol(sym)),
        },
        Primitive::Node(n) => if spec_is_triple_id(n.local.0) {
            Ok(empty_list())
        } else {
            match state.current().model().structure_of(n.local) {
                Some(s) => Ok(s),
                None => Ok(empty_list()),
            }
        },
        other => Ok(Sexp::Primitive(other)),
    }
}

impl<E: Environment> GenericAgent<E> {
    pub closed spec fn spec_env_state(&self) -> EnvState<E> {
        self.env_state
    }

    pub fn new(env_state: EnvState<E>) -> (res: Self)
        ensures
            res.spec_env_state() == env_state,
    {
        Self { env_state }
    }

    pub fn env_state(&mut self) -> (res: &mut EnvState<E>)
        ensures
            *res == old(self).spec_env_state(),
            final(self).spec_env_state() == *final(res),
    {
        &mut self.env_state
    }
}

impl<E: Environment> Designation for GenericAgent<E> {
    /// The agent's state is well formed with a current environment, and a
    /// node other than a triple lies within that environment.
    open spec fn can_designate(&self, designator: Primitive) -> bool {
        &&& self.spec_env_state().wf()
        &&& self.spec_env_state().has_current()
        &&& designator matches Primitive::Node(n) ==> (spec_is_triple_id(n.local.0)
            || n.local.0 < self.spec_env_state().current().model().nodes.len())
    }

    /// An operator symbol designates its built-in procedure, any other
    /// symbol nothing; a node designates its structure in the current
    /// environment, or the empty list where it has none; anything else
    /// designates itself.
    fn designate(&mut self, designator: &Primitive) -> (res: Result<Sexp, LangError>)
        ensures
            *final(self) == *old(self),
            res == generic_designation(old(self).spec_env_state(), *designator),
    {
        match designator {
            Primitive::Symbol(symbol) => {
                let table = builtins();
                match table.lookup(symbol.as_str()) {
                    Some(builtin) => Ok(Sexp::Primitive(Primitive::BuiltIn(*builtin))),
                    None => {
                        proof {
                            assert(table.map@[0].0@ == "+"@);
                            assert(table.map@[1].0@ == "-"@);
                            assert(table.map@[2].0@ == "*"@);
                            assert(table.map@[3].0@ == "/"@);
                        }
                        Err(LangError::UnboundSymbol(symbol.clone()))
                    },
                }
            },
            Primitive::Node(node) => {
                let env = self.env_state.current_env();
                let entry = env.entry(node.local());
                match entry.as_option() {
                    Some(structure) => Ok(clone_sexp(structure)),
                    None => Ok(Sexp::default()),
                }
            },
            _ => Ok(Sexp::Primitive(designator.clone())),
        }
    }
}

} // verus!
