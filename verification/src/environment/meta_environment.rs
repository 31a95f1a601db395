//! The meta environment of the first environment abstraction: an
//! environment whose nodes may stand for other environments.

use vstd::prelude::*;

use crate::env::environment::EnvModel;
use crate::env::local_node::LocalNode;
use crate::env::mem_backend::index_id_conv::triple_bit;
use crate::environment::environment::Environment;
use crate::environment::mem_environment::MemEnvironment;
use crate::sexp::Sexp;

verus! {

/// What a node of the meta environment holds: a structure, or an
/// environment.
pub enum MetaEnvStructure {
    Sexp(Sexp),
    Env(Box<MemEnvironment>),
}

/// Whether the node ids of `envs` are strictly increasing.
pub open spec fn node_ids_increasing(envs: Seq<(LocalNode, MemEnvironment)>) -> bool {
    forall|i: int, j: int| 0 <= i < j < envs.len() ==> envs[i].0.0 < envs[j].0.0
}

pub struct MetaEnvironment {
    graph: MemEnvironment,
    envs: Vec<(LocalNode, MemEnvironment)>,
}

impl MetaEnvironment {
    /// The nodes and triples of the meta environment.
    pub closed spec fn spec_graph(&self) -> EnvModel {
        self.graph.model()
    }

    /// The environments that nodes stand for, with those nodes, in order.
    pub closed spec fn spec_envs(&self) -> Seq<(LocalNode, MemEnvironment)> {
        self.envs@
    }

    pub closed spec fn wf(&self) -> bool {
        &&& self.graph.wf()
        &&& node_ids_increasing(self.envs@)
        &&& forall|i: int|
            0 <= i < self.envs@.len() ==> (#[trigger] self.envs@[i]).0.0 < self.graph.model().nodes.len()
    }

    /// Whether `node` stands for an environment.
    pub open spec fn has_env(&self, node: LocalNode) -> bool {
        exists|i: int| 0 <= i < self.spec_envs().len() && (#[trigger] self.spec_envs()[i]).0 == node
    }

    pub fn new() -> (res: Self)
        ensures
            res.wf(),
            res.spec_graph() == EnvModel::empty(),
            res.spec_envs() == Seq::<(LocalNode, MemEnvironment)>::empty(),
    {
        MetaEnvironment { graph: MemEnvironment::new(), envs: Vec::new() }
    }

    /// Adds a node holding the structure; an environment is held apart, and
    /// its node is an atom of the graph.
    pub fn insert_structure(&mut self, structure: MetaEnvStructure) -> (res: LocalNode)
        requires
            old(self).wf(),
            old(self).spec_graph().nodes.len() < triple_bit(),
        ensures
            final(self).wf(),
            res.0 == old(self).spec_graph().nodes.len(),
            structure matches MetaEnvStructure::Sexp(s) ==> final(self).spec_graph() == old(
                self,
            ).spec_graph().with_node(Some(s)) && final(self).spec_envs() == old(self).spec_envs(),
            structure matches MetaEnvStructure::Env(e) ==> final(self).spec_graph() == old(
                self,
            ).spec_graph().with_node(None) && final(self).spec_envs() == old(self).spec_envs().push(
                (res, *e),
            ),
    {
        match structure {
            MetaEnvStructure::Sexp(s) => self.graph.insert_structure(s),
            MetaEnvStructure::Env(e) => {
                let node = self.graph.insert_atom();
                self.envs.push((node, *e));
                proof {
                    assert forall|i: int, j: int|
                        0 <= i < j < self.envs@.len() implies self.envs@[i].0.0
                        < self.envs@[j].0.0 by {
                        if j == self.envs@.len() - 1 {
                            assert(self.envs@[i] == old(self).envs@[i]);
                        }
                    }
                }
                node
            },
        }
    }

    /// The environment that `node` stands for.
    pub fn access_env(&mut self, node: LocalNode) -> (res: &mut MemEnvironment)
        requires
            old(self).wf(),
            old(self).has_env(node),
        ensures
            exists|i: int|
                0 <= i < old(self).spec_envs().len() && old(self).spec_envs()[i].0 == node && *res
                    == old(self).spec_envs()[i].1 && final(self).spec_envs() == old(
                    self,
                ).spec_envs().update(i, (node, *final(res))),
            final(self).spec_graph() == old(self).spec_graph(),
            final(self).wf(),
    {
        let n = self.envs.len();
        let mut k: usize = 0;
        while k < n && self.envs[k].0.0 != node.0
            invariant
                n == self.envs@.len(),
                k <= n,
                forall|j: int| 0 <= j < k ==> self.envs@[j].0 != node,
            decreases n - k,
        {
            k = k + 1;
        }
        if k >= n {
            proof {
                let i = choose|i: int| 0 <= i < self.envs@.len() && (#[trigger] self.envs@[i]).0 == node;
                assert(self.envs@[i].0 != node);
            }
            return vstd::pervasive::unreached();
        }
        let ghost before = self.envs@;
        let entry = &mut self.envs[k];
        let r = &mut entry.1;
        proof {
            let after = before.update(k as int, (node, *final(r)));
            assert forall|i: int, j: int| 0 <= i < j < after.len() implies after[i].0.0 < after[j].0.0 by {
                assert(after[i].0 == before[i].0);
                assert(after[j].0 == before[j].0);
            }
        }
        r
    }
}

} // verus!
