//! State of the amlang interpreter: the frames of names that procedures bind.

use vstd::prelude::*;

use crate::continuation::Continuation;
use crate::env::local_node::LocalNode;
use crate::primitive::Node;

pub use crate::primitive::SymNodeTable;

verus! {

/// The interpreter's state: the frames of names bound by the procedures
/// being evaluated, and the environment that holds their implementation.
#[derive(Debug)]
pub struct AmlangInterpreter {
    pub eval_state: Continuation<SymNodeTable>,
    impl_env: LocalNode,
}

impl AmlangInterpreter {
    pub closed spec fn spec_impl_env(&self) -> LocalNode {
        self.impl_env
    }

    pub closed spec fn spec_eval_state(&self) -> Continuation<SymNodeTable> {
        self.eval_state
    }

    /// A state with one empty frame.
    pub fn new(impl_env: LocalNode) -> (res: Self)
        ensures
            res.spec_eval_state().wf(),
            res.spec_eval_state()@.len() == 1,
            res.spec_eval_state()@[0]@ == Map::<Seq<char>, Node>::empty(),
            res.spec_impl_env() == impl_env,
    {
        Self { eval_state: Continuation::new(SymNodeTable::new()), impl_env }
    }

    pub fn impl_env(&self) -> (res: LocalNode)
        ensures
            res == self.spec_impl_env(),
    {
        self.impl_env
    }
}

} // verus!
