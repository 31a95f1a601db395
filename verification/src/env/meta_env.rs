//! The meta environment: a base environment together with the environments
//! that its nodes stand for.

use vstd::prelude::*;

use crate::env::environment::Environment;
use crate::env::local_node::LocalNode;

verus! {

/// Whether the node ids of `envs` are strictly increasing.
pub open spec fn ids_increasing<E>(envs: Seq<(LocalNode, E)>) -> bool {
    forall|i: int, j: int| 0 <= i < j < envs.len() ==> envs[i].0.0 < envs[j].0.0
}

/// The environments of `envs`, by node id.
pub open spec fn env_map<E>(envs: Seq<(LocalNode, E)>) -> Map<u64, E>
    decreases envs.len(),
{
    if envs.len() == 0 {
        Map::empty()
    } else {
        env_map(envs.drop_last()).insert(envs.last().0.0, envs.last().1)
    }
}

/// In an increasing sequence, the map holds exactly the listed pairs.
pub proof fn lemma_env_map<E>(envs: Seq<(LocalNode, E)>)
    requires
        ids_increasing(envs),
    ensures
        forall|id: u64|
            env_map(envs).contains_key(id) <==> exists|k: int|
                0 <= k < envs.len() && #[trigger] envs[k].0.0 == id,
        forall|k: int| 0 <= k < envs.len() ==> #[trigger] env_map(envs)[envs[k].0.0] == envs[k].1,
    decreases envs.len(),
{
    if envs.len() > 0 {
        let init = envs.drop_last();
        assert(ids_increasing(init));
        lemma_env_map(init);
        assert forall|id: u64|
            env_map(envs).contains_key(id) <==> exists|k: int|
                0 <= k < envs.len() && #[trigger] envs[k].0.0 == id by {
            if env_map(envs).contains_key(id) && id != envs.last().0.0 {
                assert(env_map(init).contains_key(id));
                let k = choose|k: int| 0 <= k < init.len() && #[trigger] init[k].0.0 == id;
                assert(envs[k].0.0 == id);
            }
            if exists|k: int| 0 <= k < envs.len() && #[trigger] envs[k].0.0 == id {
                let k = choose|k: int| 0 <= k < envs.len() && #[trigger] envs[k].0.0 == id;
                if k < envs.len() - 1 {
                    assert(init[k].0.0 == id);
                    assert(env_map(init).contains_key(id));
                }
            }
        }
        assert forall|k: int| 0 <= k < envs.len() implies #[trigger] env_map(envs)[envs[k].0.0]
            == envs[k].1 by {
            if k < envs.len() - 1 {
                assert(init[k] == envs[k]);
                assert(envs[k].0.0 < envs.last().0.0);
                assert(env_map(init)[init[k].0.0] == init[k].1);
            }
        }
    }
}

/// Two increasing sequences with the same pairs have the same map.
pub proof fn lemma_env_map_ext<E>(a: Seq<(LocalNode, E)>, b: Seq<(LocalNode, E)>, m: Map<u64, E>)
    requires
        ids_increasing(a),
        forall|id: u64|
            m.contains_key(id) <==> exists|k: int| 0 <= k < a.len() && #[trigger] a[k].0.0 == id,
        forall|k: int| 0 <= k < a.len() ==> #[trigger] m[a[k].0.0] == a[k].1,
        b == a,
    ensures
        env_map(b) == m,
{
    lemma_env_map(a);
    assert(env_map(a) =~= m);
}

pub struct MetaEnv<E: Environment> {
    base: E,
    envs: Vec<(LocalNode, E)>,
}

impl<E: Environment> MetaEnv<E> {
    /// The environments held, by the id of the node that stands for them.
    pub closed spec fn spec_envs(&self) -> Map<u64, E> {
        env_map(self.envs@)
    }

    /// The base environment.
    pub closed spec fn spec_base(&self) -> E {
        self.base
    }

    pub closed spec fn wf(&self) -> bool {
        ids_increasing(self.envs@)
    }

    pub fn new(base: E) -> (res: Self)
        ensures
            res.wf(),
            res.spec_base() == base,
            res.spec_envs() == Map::<u64, E>::empty(),
    {
        Self { base, envs: Vec::new() }
    }

    /// Position of the environment of `node`, or where it belongs.
    fn position(&self, node: LocalNode) -> (res: (usize, bool))
        requires
            self.wf(),
        ensures
            res.0 <= self.envs@.len(),
            forall|k: int| 0 <= k < res.0 ==> self.envs@[k].0.0 < node.0,
            res.1 ==> res.0 < self.envs@.len() && self.envs@[res.0 as int].0.0 == node.0,
            !res.1 ==> (res.0 < self.envs@.len() ==> node.0 < self.envs@[res.0 as int].0.0),
    {
        let n = self.envs.len();
        let mut k: usize = 0;
        while k < n && self.envs[k].0.0 < node.0
            invariant
                n == self.envs@.len(),
                k <= n,
                forall|m: int| 0 <= m < k ==> self.envs@[m].0.0 < node.0,
            decreases n - k,
        {
            k = k + 1;
        }
        let found = k < n && self.envs[k].0.0 == node.0;
        (k, found)
    }

    /// Sets the environment that `node` stands for, replacing any earlier one.
    pub fn insert_env(&mut self, node: LocalNode, env: E)
        requires
            old(self).wf(),
        ensures
            final(self).wf(),
            final(self).spec_base() == old(self).spec_base(),
            final(self).spec_envs() == old(self).spec_envs().insert(node.0, env),
    {
        let ghost old_envs = self.envs@;
        let ghost env_value = env;
        let (k, found) = self.position(node);
        proof {
            lemma_env_map(old_envs);
        }
        if found {
            self.envs.set(k, (node, env));
        } else {
            self.envs.insert(k, (node, env));
        }
        let ghost new_envs = self.envs@;
        let ghost target = env_map(old_envs).insert(node.0, env_value);
        proof {
            if !found {
                assert(new_envs == old_envs.insert(k as int, (node, env_value)));
                assert forall|i: int, j: int| 0 <= i < j < new_envs.len() implies new_envs[i].0.0
                    < new_envs[j].0.0 by {
                    if j < k {
                    } else if j == k {
                    } else if i < k {
                        assert(new_envs[j] == old_envs[j - 1]);
                        if j - 1 > k {
                            assert(old_envs[k as int].0.0 < old_envs[j - 1].0.0);
                        }
                    } else if i == k {
                        assert(new_envs[j] == old_envs[j - 1]);
                        if j - 1 > k {
                            assert(old_envs[k as int].0.0 < old_envs[j - 1].0.0);
                        }
                    } else {
                        assert(new_envs[i] == old_envs[i - 1] && new_envs[j] == old_envs[j - 1]);
                    }
                }
            }
            assert(ids_increasing(new_envs));
            assert forall|id: u64|
                target.contains_key(id) <==> exists|m: int|
                    0 <= m < new_envs.len() && #[trigger] new_envs[m].0.0 == id by {
                if target.contains_key(id) {
                    if id == node.0 {
                        assert(new_envs[k as int].0.0 == id);
                    } else {
                        let m = choose|m: int| 0 <= m < old_envs.len() && #[trigger] old_envs[m].0.0 == id;
                        if found || m < k {
                            assert(new_envs[m].0.0 == id);
                        } else {
                            assert(new_envs[m + 1].0.0 == id);
                        }
                    }
                }
                if exists|m: int| 0 <= m < new_envs.len() && #[trigger] new_envs[m].0.0 == id {
                    let m = choose|m: int| 0 <= m < new_envs.len() && #[trigger] new_envs[m].0.0 == id;
                    if m != k {
                        if found || m < k {
                            assert(old_envs[m].0.0 == id);
                        } else {
                            assert(old_envs[m - 1].0.0 == id);
                        }
                    }
                }
            }
            assert forall|m: int| 0 <= m < new_envs.len() implies #[trigger] target[new_envs[m].0.0]
                == new_envs[m].1 by {
                if m != k {
                    if found || m < k {
                        assert(new_envs[m] == old_envs[m]);
                        assert(old_envs[m].0.0 != node.0);
                    } else {
                        assert(new_envs[m] == old_envs[m - 1]);
                        assert(old_envs[m - 1].0.0 != node.0);
                    }
                }
            }
            lemma_env_map_ext(new_envs, new_envs, target);
        }
    }

    /// The environment that `node` stands for, if any.
    pub fn env(&self, node: LocalNode) -> (res: Option<&E>)
        requires
            self.wf(),
        ensures
            self.spec_envs().contains_key(node.0) ==> res == Some(&self.spec_envs()[node.0]),
            !self.spec_envs().contains_key(node.0) ==> res is None,
    {
        proof {
            lemma_env_map(self.envs@);
        }
        let (k, found) = self.position(node);
        if found {
            Some(&self.envs[k].1)
        } else {
            proof {
                assert forall|m: int| 0 <= m < self.envs@.len() implies #[trigger] self.envs@[m].0.0
                    != node.0 by {
                    if m >= k {
                        assert(self.envs@[k as int].0.0 <= self.envs@[m].0.0);
                    }
                }
            }
            None
        }
    }

    /// Replaces the environment that `node` stands for, where it stands for
    /// one; otherwise nothing changes.
    pub fn replace_env(&mut self, node: LocalNode, env: E)
        requires
            old(self).wf(),
        ensures
            final(self).wf(),
            final(self).spec_base() == old(self).spec_base(),
            old(self).spec_envs().contains_key(node.0) ==> final(self).spec_envs() == old(
                self,
            ).spec_envs().insert(node.0, env),
            !old(self).spec_envs().contains_key(node.0) ==> final(self).spec_envs() == old(
                self,
            ).spec_envs(),
    {
        if self.env(node).is_some() {
            self.insert_env(node, env);
        }
    }

    /// The environment that `node` stands for, if any, for modification.
    pub fn env_mut(&mut self, node: LocalNode) -> (res: Option<&mut E>)
        requires
            old(self).wf(),
        ensures
            old(self).spec_envs().contains_key(node.0) ==> (res matches Some(r) && *r
                == old(self).spec_envs()[node.0] && final(self).spec_envs()
                == old(self).spec_envs().insert(node.0, *final(r))),
            !old(self).spec_envs().contains_key(node.0) ==> res is None && *final(self)
                == *old(self),
            final(self).wf(),
            final(self).spec_base() == old(self).spec_base(),
    {
        let ghost old_envs = self.envs@;
        proof {
            lemma_env_map(old_envs);
        }
        let (k, found) = self.position(node);
        if found {
            let entry = &mut self.envs[k];
            let r = &mut entry.1;
            proof {
                let target = env_map(old_envs).insert(node.0, *final(r));
                let new_envs = old_envs.update(k as int, (node, *final(r)));
                assert(ids_increasing(new_envs)) by {
                    assert forall|i: int, j: int| 0 <= i < j < new_envs.len() implies new_envs[i].0.0
                        < new_envs[j].0.0 by {
                        assert(new_envs[i].0 == old_envs[i].0);
                        assert(new_envs[j].0 == old_envs[j].0);
                    }
                }
                assert forall|id: u64|
                    target.contains_key(id) <==> exists|m: int|
                        0 <= m < new_envs.len() && #[trigger] new_envs[m].0.0 == id by {
                    if target.contains_key(id) && id != node.0 {
                        let m = choose|m: int| 0 <= m < old_envs.len() && #[trigger] old_envs[m].0.0 == id;
                        assert(new_envs[m].0.0 == id);
                    }
                    if target.contains_key(id) && id == node.0 {
                        assert(new_envs[k as int].0.0 == id);
                    }
                    if exists|m: int| 0 <= m < new_envs.len() && #[trigger] new_envs[m].0.0 == id {
                        let m = choose|m: int| 0 <= m < new_envs.len() && #[trigger] new_envs[m].0.0 == id;
                        assert(old_envs[m].0.0 == id);
                    }
                }
                assert forall|m: int| 0 <= m < new_envs.len() implies #[trigger] target[new_envs[m].0.0]
                    == new_envs[m].1 by {
                    if m != k {
                        assert(new_envs[m] == old_envs[m]);
                    }
                }
                lemma_env_map_ext(new_envs, new_envs, target);
            }
            Some(r)
        } else {
            proof {
                assert forall|m: int| 0 <= m < self.envs@.len() implies #[trigger] self.envs@[m].0.0
                    != node.0 by {
                    if m >= k {
                        assert(self.envs@[k as int].0.0 <= self.envs@[m].0.0);
                    }
                }
            }
            None
        }
    }

    pub fn base(&self) -> (res: &E)
        ensures
            *res == self.spec_base(),
    {
        &self.base
    }

    pub fn base_mut(&mut self) -> (res: &mut E)
        ensures
            *res == old(self).spec_base(),
            final(self).spec_base() == *final(res),
            final(self).spec_envs() == old(self).spec_envs(),
            final(self).wf() == old(self).wf(),
    {
        &mut self.base
    }
}

} // verus!
