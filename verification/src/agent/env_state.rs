//! The position of an agent among environments, and the operations that
//! read and write the environment it stands in.

use vstd::prelude::*;

use std::collections::VecDeque;

use crate::agent::amlang_context::AmlangContext;
use crate::agent::context::MetaEnvContext;
use crate::agent::lang_error::LangError;
use crate::env::environment::{key_node, node_key, slot, EnvModel, Environment};
use crate::env::local_node::{LocalNode, LocalTriple};
use crate::env::mem_backend::index_id_conv::{is_triple_id, spec_is_triple_id};
use crate::env::meta_env::MetaEnv;
use crate::env::triple_ids::increasing;
use crate::env::triple_set::TripleSet;
use crate::primitive::{LocalNodeTable, Node, Primitive, Symbol};
use crate::sexp::{clone_sexp, empty_list, spec_list, Sexp};
use crate::env::entry::{EntryMut, EntryMutKind};
use crate::reader::list_from_vec;

verus! {

broadcast use vstd::string::group_string_axioms;

/// Name of the designation node of every environment.
pub const AMLANG_DESIGNATION: &'static str = "__designatedBy";

/// The designation node of every environment: designations of an
/// environment are made in its context.
pub open spec fn designation_local() -> LocalNode {
    LocalNode(1)
}

/// The self node of every environment.
pub open spec fn self_local() -> LocalNode {
    LocalNode(0)
}

/// The structure that stands for a node.
pub open spec fn node_sexp(node: Node) -> Sexp {
    Sexp::Primitive(Primitive::Node(node))
}

/// The structure of a triple: the list of its subject, predicate and
/// object, as nodes of environment `env`.
pub open spec fn triple_sexp(env: LocalNode, s: LocalNode, p: LocalNode, o: LocalNode) -> Sexp {
    spec_list(
        seq![
            node_sexp(Node { env, local: s }),
            node_sexp(Node { env, local: p }),
            node_sexp(Node { env, local: o }),
        ],
    )
}

/// The names that the designation node of an environment holds, where it
/// holds a table of names.
pub open spec fn names_of(m: EnvModel) -> Option<Map<Seq<char>, Node>> {
    if m.nodes.len() > designation_local().0 {
        match m.nodes[designation_local().0 as int] {
            Some(Sexp::Primitive(Primitive::SymNodeTable(t))) => Some(t@),
            _ => None,
        }
    } else {
        None
    }
}

/// Whether `m2` is `m` with `name` naming `node` in the table of names that
/// the designation node of `m` holds: every other name, node and
/// designation stays.
pub open spec fn name_added(m: EnvModel, m2: EnvModel, name: Seq<char>, node: Node) -> bool {
    &&& names_of(m) is Some
    &&& names_of(m2) == Some(names_of(m)->0.insert(name, node))
    &&& m2.nodes.len() == m.nodes.len()
    &&& forall|i: int|
        0 <= i < m.nodes.len() && i != designation_local().0 ==> #[trigger] m2.nodes[i]
            == m.nodes[i]
    &&& m2.designations == m.designations
}

/// The first environment of `chain` whose designation node holds `name`,
/// and the node it names there.
pub open spec fn lookup_chain<E: Environment>(
    chain: Seq<LocalNode>,
    envs: Map<u64, E>,
    name: Seq<char>,
) -> Option<Node>
    decreases chain.len(),
{
    if chain.len() == 0 {
        None
    } else {
        match names_of(envs[chain[0].0].model()) {
            Some(t) => if t.contains_key(name) {
                Some(t[name])
            } else {
                lookup_chain(chain.drop_first(), envs, name)
            },
            None => lookup_chain(chain.drop_first(), envs, name),
        }
    }
}

/// The triple of `ts` with the lowest id.
#[verifier::opaque]
pub open spec fn first_triple(ts: Set<LocalTriple>) -> LocalTriple {
    choose|t: LocalTriple| ts.contains(t) && forall|u: LocalTriple| ts.contains(u) ==> t.0.0 <= u.0.0
}

/// The symbol a node's structure is, if it is one.
pub open spec fn symbol_structure(m: EnvModel, n: LocalNode) -> Option<Symbol> {
    if !spec_is_triple_id(n.0) && n.0 < m.nodes.len() {
        match m.nodes[n.0 as int] {
            Some(Sexp::Primitive(Primitive::Symbol(s))) => Some(s),
            _ => None,
        }
    } else {
        None
    }
}

pub struct EnvState<E: Environment> {
    env: LocalNode,
    pos: LocalNode,
    /// Ordered list of environment nodes that names are resolved in.
    designation_chain: VecDeque<LocalNode>,
    context: AmlangContext,
    meta_context: MetaEnvContext,
    meta: MetaEnv<E>,
}

impl<E: Environment> EnvState<E> {
    /// The meta node of the current environment.
    pub closed spec fn spec_env(&self) -> LocalNode {
        self.env
    }

    /// The current node within the current environment.
    pub closed spec fn spec_pos(&self) -> LocalNode {
        self.pos
    }

    pub closed spec fn spec_chain(&self) -> Seq<LocalNode> {
        self.designation_chain@
    }

    pub closed spec fn spec_context(&self) -> AmlangContext {
        self.context
    }

    pub closed spec fn spec_meta_context(&self) -> MetaEnvContext {
        self.meta_context
    }

    /// The environments, by the meta node that stands for them; the meta
    /// environment itself stands at the meta node 0.
    pub closed spec fn envs(&self) -> Map<u64, E> {
        self.meta.spec_envs().insert(0, self.meta.spec_base())
    }

    /// The meta environment.
    pub open spec fn meta_env(&self) -> E {
        self.envs()[0]
    }

    /// The current environment.
    pub open spec fn current(&self) -> E {
        self.envs()[self.spec_env().0]
    }

    pub closed spec fn wf(&self) -> bool {
        &&& self.meta.wf()
        &&& forall|id: u64| #[trigger] self.envs().contains_key(id) ==> self.envs()[id].wf()
    }

    /// Every environment of a well-formed state is well-formed.
    pub proof fn lemma_env_wf(&self, id: u64)
        requires
            self.wf(),
            self.envs().contains_key(id),
        ensures
            self.envs()[id].wf(),
    {
    }

    /// Whether the current environment exists.
    pub open spec fn has_current(&self) -> bool {
        self.envs().contains_key(self.spec_env().0)
    }

    /// Whether every environment of the designation chain exists and holds a
    /// table of names in its designation node.
    pub open spec fn chain_valid(&self) -> bool {
        forall|i: int|
            0 <= i < self.spec_chain().len() ==> self.envs().contains_key(
                (#[trigger] self.spec_chain()[i]).0,
            ) && names_of(self.envs()[self.spec_chain()[i].0].model()) is Some
    }

    /// Whether this state differs from `other` in the environments alone.
    pub open spec fn same_place(&self, other: &Self) -> bool {
        &&& self.spec_env() == other.spec_env()
        &&& self.spec_pos() == other.spec_pos()
        &&& self.spec_chain() == other.spec_chain()
        &&& self.spec_context() == other.spec_context()
        &&& self.spec_meta_context() == other.spec_meta_context()
    }

    pub fn new(
        env: LocalNode,
        pos: LocalNode,
        context: AmlangContext,
        meta_context: MetaEnvContext,
        meta: MetaEnv<E>,
    ) -> (res: Self)
        ensures
            res.spec_env() == env,
            res.spec_pos() == pos,
            res.spec_chain() == Seq::<LocalNode>::empty(),
            res.spec_context() == context,
            res.spec_meta_context() == meta_context,
            res.envs() == meta.spec_envs().insert(0, meta.spec_base()),
            res.wf() <== meta.wf() && meta.spec_base().wf() && forall|id: u64| #[trigger]
                meta.spec_envs().contains_key(id) ==> meta.spec_envs()[id].wf(),
    {
        Self { env, pos, designation_chain: VecDeque::new(), context, meta_context, meta }
    }

    pub fn globalize(&self, local: LocalNode) -> (res: Node)
        ensures
            res == (Node { env: self.spec_env(), local }),
    {
        Node::new(self.env, local)
    }

    pub fn pos(&self) -> (res: Node)
        ensures
            res == (Node { env: self.spec_env(), local: self.spec_pos() }),
    {
        Node::new(self.env, self.pos)
    }

    pub fn jump(&mut self, node: Node)
        ensures
            final(self).spec_env() == node.env,
            final(self).spec_pos() == node.local,
            final(self).spec_chain() == old(self).spec_chain(),
            final(self).spec_context() == old(self).spec_context(),
            final(self).spec_meta_context() == old(self).spec_meta_context(),
            final(self).envs() == old(self).envs(),
            final(self).wf() == old(self).wf(),
    {
        self.env = node.env();
        self.pos = node.local();
    }

    /// Jumps to the self node of the environment that `env_node` stands for.
    pub fn jump_env(&mut self, env_node: LocalNode)
        ensures
            final(self).spec_env() == env_node,
            final(self).spec_pos() == self_local(),
            final(self).spec_chain() == old(self).spec_chain(),
            final(self).spec_context() == old(self).spec_context(),
            final(self).spec_meta_context() == old(self).spec_meta_context(),
            final(self).envs() == old(self).envs(),
            final(self).wf() == old(self).wf(),
    {
        self.env = env_node;
        self.pos = LocalNode::default();
    }

    pub fn context(&self) -> (res: &AmlangContext)
        ensures
            *res == self.spec_context(),
    {
        &self.context
    }

    /// The language context, for modification; nothing else changes.
    pub fn context_mut(&mut self) -> (res: &mut AmlangContext)
        ensures
            *res == old(self).spec_context(),
            final(self).spec_context() == *final(res),
            final(self).spec_env() == old(self).spec_env(),
            final(self).spec_pos() == old(self).spec_pos(),
            final(self).spec_chain() == old(self).spec_chain(),
            final(self).spec_meta_context() == old(self).spec_meta_context(),
            final(self).envs() == old(self).envs(),
            final(self).wf() == old(self).wf(),
    {
        &mut self.context
    }

    pub fn meta_context(&self) -> (res: &MetaEnvContext)
        ensures
            *res == self.spec_meta_context(),
    {
        &self.meta_context
    }

    /// The designation node of every environment.
    pub fn designation(&self) -> (res: LocalNode)
        ensures
            res == designation_local(),
    {
        LocalNode::new(1)
    }

    pub fn designation_chain(&self) -> (res: &VecDeque<LocalNode>)
        ensures
            res@ == self.spec_chain(),
    {
        &self.designation_chain
    }

    pub fn designation_chain_mut(&mut self) -> (res: &mut VecDeque<LocalNode>)
        ensures
            res@ == old(self).spec_chain(),
            final(self).spec_chain() == final(res)@,
            final(self).spec_env() == old(self).spec_env(),
            final(self).spec_pos() == old(self).spec_pos(),
            final(self).spec_context() == old(self).spec_context(),
            final(self).spec_meta_context() == old(self).spec_meta_context(),
            final(self).envs() == old(self).envs(),
            final(self).wf() == old(self).wf(),
    {
        &mut self.designation_chain
    }

    /// The environment that a meta node stands for, read-only.
    fn env_ref(&self, meta_node: LocalNode) -> (res: Option<&E>)
        requires
            self.meta.wf(),
        ensures
            self.envs().contains_key(meta_node.0) ==> res == Some(&self.envs()[meta_node.0]),
            !self.envs().contains_key(meta_node.0) ==> res is None,
    {
        if meta_node.id() == 0 {
            Some(self.meta.base())
        } else {
            self.meta.env(meta_node)
        }
    }

    /// Whether the current environment exists.
    pub fn has_current_env(&self) -> (res: bool)
        requires
            self.wf(),
        ensures
            res == self.has_current(),
    {
        self.env_ref(self.env).is_some()
    }

    /// The current environment, read-only.
    pub fn current_env(&self) -> (res: &E)
        requires
            self.wf(),
            self.has_current(),
        ensures
            *res == self.current(),
            res.wf(),
    {
        match self.env_ref(self.env) {
            Some(e) => e,
            None => vstd::pervasive::unreached(),
        }
    }

    /// The environment that a meta node stands for, if any: the meta
    /// environment for the meta node 0.
    pub fn access_env(&mut self, meta_node: LocalNode) -> (res: Option<&mut E>)
        requires
            old(self).wf(),
        ensures
            !old(self).envs().contains_key(meta_node.0) ==> res is None && *final(self) == *old(self),
            old(self).envs().contains_key(meta_node.0) ==> (res matches Some(r) && *r == old(self).envs()[meta_node.0] && final(self).envs() == old(self).envs().insert(
                meta_node.0,
                *final(r),
            ) && final(self).same_place(&*old(self)) && (final(r).wf() ==> final(self).wf())),
    {
        let ghost before = *self;
        if meta_node.id() == 0 {
            let r = self.meta.base_mut();
            proof {
                let after_envs = before.meta.spec_envs().insert(0, *final(r));
                assert(before.envs().insert(0, *final(r)) =~= after_envs);
            }
            Some(r)
        } else {
            let r = self.meta.env_mut(meta_node);
            proof {
                if before.envs().contains_key(meta_node.0) {
                    assert(before.meta.spec_envs().contains_key(meta_node.0));
                }
                if r is Some {
                    assert(before.meta.spec_envs().insert(meta_node.0, *final(r->0)).insert(
                        0,
                        before.meta.spec_base(),
                    ) =~= before.envs().insert(meta_node.0, *final(r->0)));
                }
            }
            r
        }
    }

    /// The current environment.
    pub fn env(&mut self) -> (res: &mut E)
        requires
            old(self).wf(),
            old(self).has_current(),
        ensures
            *res == old(self).current(),
            res.wf(),
            final(self).envs() == old(self).envs().insert(old(self).spec_env().0, *final(res)),
            final(self).same_place(&*old(self)),
            final(res).wf() ==> final(self).wf(),
    {
        let id = self.env;
        match self.access_env(id) {
            Some(r) => r,
            None => vstd::pervasive::unreached(),
        }
    }

    /// The node that `name` names in the table of names of the first
    /// environment of the designation chain that holds it.
    pub fn resolve(&mut self, name: &Symbol) -> (res: Result<Node, LangError>)
        requires
            old(self).wf(),
            old(self).chain_valid(),
        ensures
            *final(self) == *old(self),
            lookup_chain(old(self).spec_chain(), old(self).envs(), name@) matches Some(n) ==> res
                == Ok::<Node, LangError>(n),
            lookup_chain(old(self).spec_chain(), old(self).envs(), name@) is None ==> (
            res matches Err(LangError::UnboundSymbol(s)) && s@ == name@),
    {
        let n = self.designation_chain.len();
        let ghost chain = self.designation_chain@;
        let ghost envs = self.envs();
        let designation = self.designation();
        let mut i: usize = 0;
        assert(chain.skip(0) =~= chain);
        while i < n
            invariant
                self.wf(),
                self.chain_valid(),
                n == chain.len(),
                chain == self.designation_chain@,
                envs == self.envs(),
                designation == designation_local(),
                i <= n,
                lookup_chain(chain, envs, name@) == lookup_chain(chain.skip(i as int), envs, name@),
            decreases n - i,
        {
            let id = self.designation_chain[i];
            assert(chain[i as int] == id);
            assert(envs.contains_key(id.0));
            let env = match self.env_ref(id) {
                Some(e) => e,
                None => vstd::pervasive::unreached(),
            };
            assert(chain.skip(i as int)[0] == id);
            assert(chain.skip(i as int).drop_first() =~= chain.skip(i + 1));
            proof {
                self.lemma_env_wf(id.0);
            }
            let entry = env.entry(designation);
            match entry.as_option() {
                Some(Sexp::Primitive(Primitive::SymNodeTable(table))) => {
                    if let Some(node) = table.lookup(name) {
                        return Ok(node);
                    }
                },
                _ => {
                    return vstd::pervasive::unreached();
                },
            }
            i = i + 1;
        }
        Err(LangError::UnboundSymbol(name.clone()))
    }
}

/// The first element of an increasing sequence is the lowest of its set.
pub proof fn lemma_first_of_increasing(ids: Seq<LocalTriple>)
    requires
        increasing(ids),
        ids.len() > 0,
    ensures
        first_triple(ids.to_set()) == ids[0],
{
    let ts = ids.to_set();
    assert(ts.contains(ids[0]));
    assert forall|u: LocalTriple| ts.contains(u) implies ids[0].0.0 <= u.0.0 by {
        let k = choose|k: int| 0 <= k < ids.len() && ids[k] == u;
        if k > 0 {
            assert(ids[0].0.0 < ids[k].0.0);
        }
    }
    lemma_min_unique(ts, ids[0]);
}

/// A lowest triple of a set is its first triple.
pub proof fn lemma_min_unique(ts: Set<LocalTriple>, t: LocalTriple)
    requires
        ts.contains(t),
        forall|u: LocalTriple| ts.contains(u) ==> t.0.0 <= u.0.0,
    ensures
        first_triple(ts) == t,
{
    reveal(first_triple);
    let c = first_triple(ts);
    assert(ts.contains(c) && forall|u: LocalTriple| ts.contains(u) ==> c.0.0 <= u.0.0);
    assert(c.0.0 == t.0.0);
}

/// The list of the nodes of the triples `ids` in environment `env`.
pub open spec fn triple_nodes_list(env: LocalNode, ids: Seq<LocalTriple>) -> Sexp {
    spec_list(ids.map_values(|t: LocalTriple| node_sexp(Node { env, local: t.0 })))
}

/// The triples that `ask` answers with, where `ph` stands for any node.
pub open spec fn ask_set(m: EnvModel, s: LocalNode, p: LocalNode, o: LocalNode, ph: LocalNode) -> Set<
    LocalTriple,
> {
    if s == ph {
        if p == ph {
            if o == ph {
                m.all_triples()
            } else {
                m.with_object(o)
            }
        } else {
            if o == ph {
                m.with_predicate(p)
            } else {
                m.with_predicate(p).intersect(m.with_object(o))
            }
        }
    } else {
        if p == ph {
            if o == ph {
                m.with_subject(s)
            } else {
                m.with_subject(s).intersect(m.with_object(o))
            }
        } else {
            if o == ph {
                m.with_subject(s).intersect(m.with_predicate(p))
            } else if m.matching(s, p, o).is_empty() {
                Set::empty()
            } else {
                Set::empty().insert(first_triple(m.matching(s, p, o)))
            }
        }
    }
}

/// The structure of a triple of environment `env`.
fn triple_structure(env: LocalNode, s: LocalNode, p: LocalNode, o: LocalNode) -> (res: Sexp)
    ensures
        res == triple_sexp(env, s, p, o),
{
    let mut v: Vec<Sexp> = Vec::new();
    v.push(Sexp::Primitive(Primitive::Node(Node::new(env, s))));
    v.push(Sexp::Primitive(Primitive::Node(Node::new(env, p))));
    v.push(Sexp::Primitive(Primitive::Node(Node::new(env, o))));
    let ghost elems = v@;
    let res = list_from_vec(v);
    assert(elems =~= seq![
        node_sexp(Node { env, local: s }),
        node_sexp(Node { env, local: p }),
        node_sexp(Node { env, local: o }),
    ]);
    res
}

impl LocalNode {
    /// This node as a node of the current environment of `state`.
    pub fn globalize<E: Environment>(self, state: &EnvState<E>) -> (res: Node)
        ensures
            res == (Node { env: state.spec_env(), local: self }),
    {
        state.globalize(self)
    }
}

impl LocalTriple {
    /// The structure of this triple of the current environment of `state`:
    /// the list of its subject, predicate and object.
    pub fn reify<E: Environment>(&self, state: &EnvState<E>) -> (res: Sexp)
        requires
            state.wf(),
            state.has_current(),
            0 <= slot(self.0.0) < state.current().model().triples.len(),
        ensures
            ({
                let m = state.current().model();
                res == triple_sexp(
                    state.spec_env(),
                    m.subject_of(*self),
                    m.predicate_of(*self),
                    m.object_of(*self),
                )
            }),
    {
        let env = state.current_env();
        let s = env.triple_subject(*self);
        let p = env.triple_predicate(*self);
        let o = env.triple_object(*self);
        triple_structure(state.pos().env(), s, p, o)
    }
}

/// The first triple of `m` that records the import of environment `source`
/// into environment `env`.
pub open spec fn import_triple_of(m: EnvModel, env: LocalNode, imports: LocalNode, source: LocalNode) -> Option<
    LocalTriple,
> {
    let ts = m.matching(env, imports, source);
    if ts.is_empty() {
        None
    } else {
        Some(first_triple(ts))
    }
}

/// The triples of `m` that give an import triple its table.
pub open spec fn table_triples(m: EnvModel, t: LocalTriple, import_table: LocalNode) -> Set<
    LocalTriple,
> {
    m.with_subject(t.0).intersect(m.with_predicate(import_table))
}

/// The node that holds the table of an import triple, if it has one.
pub open spec fn table_node_of(m: EnvModel, t: LocalTriple, import_table: LocalNode) -> Option<
    LocalNode,
> {
    let ts = table_triples(m, t, import_table);
    if ts.is_empty() {
        None
    } else {
        Some(m.object_of(first_triple(ts)))
    }
}

/// The table a node holds, if it holds one.
pub open spec fn table_of(m: EnvModel, n: LocalNode) -> Option<Map<LocalNode, LocalNode>> {
    if !spec_is_triple_id(n.0) && n.0 < m.nodes.len() {
        match m.nodes[n.0 as int] {
            Some(Sexp::Primitive(Primitive::LocalNodeTable(tab))) => Some(tab@),
            _ => None,
        }
    } else {
        None
    }
}

/// The node of environment `env` that `original` was imported as, as the
/// meta environment `m` records it.
pub open spec fn imported_in(
    m: EnvModel,
    env: LocalNode,
    imports: LocalNode,
    import_table: LocalNode,
    original: Node,
) -> Option<LocalNode> {
    match import_triple_of(m, env, imports, original.env) {
        Some(t) => match table_node_of(m, t, import_table) {
            Some(tn) => match table_of(m, tn) {
                Some(tab) => if tab.contains_key(original.local) {
                    Some(tab[original.local])
                } else {
                    None
                },
                None => None,
            },
            None => None,
        },
        None => None,
    }
}

/// Whether import triple `t` has at most one table triple.
pub open spec fn table_unique(m: EnvModel, t: LocalTriple, import_table: LocalNode) -> bool {
    forall|a: LocalTriple, b: LocalTriple|
        #![trigger table_triples(m, t, import_table).contains(a), table_triples(m, t, import_table).contains(b)]
        table_triples(m, t, import_table).contains(a) && table_triples(m, t, import_table).contains(
            b,
        ) ==> a == b
}

/// Whether the import of `source` into `env`, where recorded, has at most
/// one table.
pub open spec fn import_table_unique(
    m: EnvModel,
    env: LocalNode,
    imports: LocalNode,
    import_table: LocalNode,
    source: LocalNode,
) -> bool {
    import_triple_of(m, env, imports, source) matches Some(t) ==> table_unique(m, t, import_table)
}

/// A lowest triple of a finite set that is not empty.
pub proof fn min_of(ts: Set<LocalTriple>) -> (c: LocalTriple)
    requires
        ts.finite(),
        !ts.is_empty(),
    ensures
        ts.contains(c),
        forall|u: LocalTriple| #[trigger] ts.contains(u) ==> c.0.0 <= u.0.0,
    decreases ts.len(),
{
    let a = ts.choose();
    let rest = ts.remove(a);
    if rest.is_empty() {
        assert forall|u: LocalTriple| #[trigger] ts.contains(u) implies a.0.0 <= u.0.0 by {
            if u != a {
                assert(rest.contains(u));
            }
        }
        a
    } else {
        let c = min_of(rest);
        if a.0.0 < c.0.0 {
            assert forall|u: LocalTriple| #[trigger] ts.contains(u) implies a.0.0 <= u.0.0 by {
                if u != a {
                    assert(rest.contains(u));
                }
            }
            a
        } else {
            assert forall|u: LocalTriple| #[trigger] ts.contains(u) implies c.0.0 <= u.0.0 by {
                if u != a {
                    assert(rest.contains(u));
                }
            }
            c
        }
    }
}

/// The first triple of a finite set that is not empty is in it and is
/// lowest.
pub proof fn lemma_first_triple(ts: Set<LocalTriple>)
    requires
        ts.finite(),
        !ts.is_empty(),
    ensures
        ts.contains(first_triple(ts)),
        forall|u: LocalTriple| ts.contains(u) ==> first_triple(ts).0.0 <= u.0.0,
{
    let c = min_of(ts);
    lemma_min_unique(ts, c);
}

/// Adding a triple with a higher id than every triple of a set keeps the
/// set's first triple.
pub proof fn lemma_first_kept(ts: Set<LocalTriple>, x: LocalTriple)
    requires
        ts.finite(),
        !ts.is_empty(),
        forall|u: LocalTriple| ts.contains(u) ==> u.0.0 < x.0.0,
    ensures
        first_triple(ts.insert(x)) == first_triple(ts),
{
    lemma_first_triple(ts);
    let c = first_triple(ts);
    assert forall|u: LocalTriple| ts.insert(x).contains(u) implies c.0.0 <= u.0.0 by {
        if u == x {
            assert(c.0.0 < x.0.0);
        }
    }
    lemma_min_unique(ts.insert(x), c);
}

/// The triple that records the import of `source` into `env`, inserted
/// where there is none.
fn get_or_insert_import<E: Environment>(
    meta: &mut E,
    env: LocalNode,
    imports: LocalNode,
    source: LocalNode,
) -> (res: LocalTriple)
    requires
        old(meta).wf(),
        old(meta).model().valid_node(env),
        old(meta).model().valid_node(imports),
        old(meta).model().valid_node(source),
        old(meta).model().triples.len() < crate::env::mem_backend::index_id_conv::triple_bit(),
    ensures
        final(meta).wf(),
        import_triple_of(final(meta).model(), env, imports, source) == Some(res),
        final(meta).model().is_triple(res),
        !old(meta).model().matching(env, imports, source).is_empty() ==> *final(meta) == *old(meta),
        old(meta).model().matching(env, imports, source).is_empty() ==> final(meta).model()
            == old(meta).model().with_triple(env, imports, source) && res
            == crate::env::environment::triple_at(old(meta).model().triples.len() as int),
{
    let ghost m = meta.model();
    let found = meta.match_triple(env, imports, source);
    let first = if found.len() > 0 {
        proof {
            crate::env::triple_ids::lemma_increasing_len(found.elements.ids@);
        }
        let t = found.elements.get(0);
        proof {
            let all = m.matching(env, imports, source);
            assert(found.elements@.contains(t));
            assert forall|u: LocalTriple| all.contains(u) implies t.0.0 <= u.0.0 by {}
            lemma_min_unique(all, t);
        }
        Some(t)
    } else {
        None
    };
    match first {
        Some(t) => t,
        None => {
            let t = meta.insert_triple(env, imports, source);
            proof {
                let m2 = meta.model();
                crate::env::environment::lemma_all_triples_len(m);
                let all = m2.matching(env, imports, source);
                assert(m2.is_triple(t)) by {
                    crate::env::mem_env::lemma_triple_at(m.triples.len() as int);
                }
                assert(all.contains(t)) by {
                    crate::env::mem_env::lemma_triple_at(m.triples.len() as int);
                }
                assert forall|u: LocalTriple| all.contains(u) implies u == t by {
                    crate::env::mem_env::lemma_triple_at(m.triples.len() as int);
                    if u != t {
                        assert(m.is_triple(u));
                        assert(m.matching(env, imports, source).contains(u));
                    }
                }
                assert(all =~= Set::empty().insert(t));
                lemma_min_unique(all, t);
            }
            t
        },
    }
}

/// The sets of triples of `m` by role are finite.
pub proof fn lemma_roles_finite(m: EnvModel, n: LocalNode)
    requires
        m.triples.len() <= crate::env::mem_backend::index_id_conv::triple_bit(),
    ensures
        m.with_subject(n).finite(),
        m.with_predicate(n).finite(),
        m.with_object(n).finite(),
{
    crate::env::environment::lemma_all_triples_len(m);
    assert(m.with_subject(n).subset_of(m.all_triples()));
    assert(m.with_predicate(n).subset_of(m.all_triples()));
    assert(m.with_object(n).subset_of(m.all_triples()));
    vstd::set_lib::lemma_len_subset(m.with_subject(n), m.all_triples());
    vstd::set_lib::lemma_len_subset(m.with_predicate(n), m.all_triples());
    vstd::set_lib::lemma_len_subset(m.with_object(n), m.all_triples());
}

/// Whether `tn` holds an empty table in `m`.
/// Whether the import of `source` into `env` is recorded with a table node
/// that holds no table.
pub open spec fn import_table_broken(
    m: EnvModel,
    env: LocalNode,
    imports: LocalNode,
    import_table: LocalNode,
    source: LocalNode,
) -> bool {
    match import_triple_of(m, env, imports, source) {
        Some(t) => match table_node_of(m, t, import_table) {
            Some(tn) => table_of(m, tn) is None,
            None => false,
        },
        None => false,
    }
}

pub open spec fn holds_empty_table(m: EnvModel, tn: LocalNode) -> bool {
    table_of(m, tn) == Some(Map::<LocalNode, LocalNode>::empty())
}

/// The node that holds the table of import triple `t`, created empty with
/// its table triple where there is none.
fn get_or_insert_table<E: Environment>(meta: &mut E, t: LocalTriple, import_table: LocalNode) -> (res:
    LocalNode)
    requires
        old(meta).wf(),
        old(meta).model().is_triple(t),
        old(meta).model().valid_node(import_table),
        table_unique(old(meta).model(), t, import_table),
        old(meta).model().nodes.len() + 1 < crate::env::mem_backend::index_id_conv::triple_bit(),
        old(meta).model().triples.len() + 1 < crate::env::mem_backend::index_id_conv::triple_bit(),
    ensures
        final(meta).wf(),
        table_unique(final(meta).model(), t, import_table),
        table_node_of(final(meta).model(), t, import_table) == Some(res),
        final(meta).model().designations == old(meta).model().designations,
        !table_triples(old(meta).model(), t, import_table).is_empty() ==> *final(meta) == *old(meta),
        table_triples(old(meta).model(), t, import_table).is_empty() ==> ({
            let m = old(meta).model();
            let m2 = final(meta).model();
            &&& res.0 == m.nodes.len()
            &&& m2.nodes.len() == m.nodes.len() + 1
            &&& m2.nodes.take(m.nodes.len() as int) == m.nodes
            &&& holds_empty_table(m2, res)
            &&& m2.triples == m.triples.push((t.0, import_table, res))
        }),
{
    let ghost m = meta.model();
    proof {
        meta.lemma_wf_bounds();
        lemma_roles_finite(m, t.0);
    }
    let matches = meta.match_but_object(t.node(), import_table);
    let first = if matches.len() > 0 {
        proof {
            crate::env::triple_ids::lemma_increasing_len(matches.elements.ids@);
        }
        let first = matches.elements.get(0);
        proof {
            let ts = table_triples(m, t, import_table);
            assert(ts.contains(first));
            assert forall|u: LocalTriple| ts.contains(u) implies first.0.0 <= u.0.0 by {
                assert(u == first);
            }
            lemma_min_unique(ts, first);
        }
        Some(first)
    } else {
        None
    };
    match first {
        Some(x) => meta.triple_object(x),
        None => {
            let tn = meta.insert_node(Some(Sexp::Primitive(Primitive::LocalNodeTable(LocalNodeTable::new()))));
            let ghost m1 = meta.model();
            proof {
                assert(m1.valid_node(t.0)) by {
                    assert(m.valid_node(t.0));
                }
            }
            let nt = meta.insert_triple(t.node(), import_table, tn);
            proof {
                let m2 = meta.model();
                crate::env::mem_env::lemma_triple_at(m.triples.len() as int);
                assert(m2.nodes.take(m.nodes.len() as int) =~= m.nodes);
                let ts = table_triples(m, t, import_table);
                let ts2 = table_triples(m2, t, import_table);
                assert forall|u: LocalTriple| ts2.contains(u) implies u == nt by {
                    if u != nt {
                        assert(m.is_triple(u));
                        assert(ts.contains(u));
                    }
                }
                assert(ts2.contains(nt));
                assert(ts2 =~= Set::empty().insert(nt));
                lemma_min_unique(ts2, nt);
            }
            tn
        },
    }
}

/// What the import records say depends on the triples alone, and on the
/// structure of the table node.
pub proof fn lemma_import_records(m1: EnvModel, m2: EnvModel, env: LocalNode, imports: LocalNode, import_table: LocalNode, source: LocalNode)
    requires
        m1.triples == m2.triples,
    ensures
        import_triple_of(m1, env, imports, source) == import_triple_of(m2, env, imports, source),
        forall|t: LocalTriple| #[trigger] table_node_of(m1, t, import_table) == table_node_of(m2, t, import_table),
        forall|t: LocalTriple| #[trigger] table_triples(m1, t, import_table) == table_triples(m2, t, import_table),
{
    assert(m1.matching(env, imports, source) =~= m2.matching(env, imports, source));
    assert forall|t: LocalTriple| #[trigger] table_triples(m1, t, import_table) == table_triples(m2, t, import_table) by {
        assert(table_triples(m1, t, import_table) =~= table_triples(m2, t, import_table));
    }
    assert forall|t: LocalTriple| #[trigger] table_node_of(m1, t, import_table) == table_node_of(m2, t, import_table) by {
        assert(table_triples(m1, t, import_table) == table_triples(m2, t, import_table));
    }
}

/// The table node of an import triple is a node of the environment.
pub proof fn lemma_table_node_valid(m: EnvModel, t: LocalTriple, import_table: LocalNode)
    requires
        m.triples.len() <= crate::env::mem_backend::index_id_conv::triple_bit(),
        forall|i: int|
            0 <= i < m.triples.len() ==> m.valid_node((#[trigger] m.triples[i]).0) && m.valid_node(
                m.triples[i].1,
            ) && m.valid_node(m.triples[i].2),
        table_node_of(m, t, import_table) is Some,
    ensures
        m.valid_node(table_node_of(m, t, import_table)->0),
{
    lemma_roles_finite(m, t.0);
    let ts = table_triples(m, t, import_table);
    assert(ts.subset_of(m.with_subject(t.0)));
    vstd::set_lib::lemma_len_subset(ts, m.with_subject(t.0));
    lemma_first_triple(ts);
    let f = first_triple(ts);
    assert(m.is_triple(f));
    assert(m.triples[slot(f.0.0)] == m.triples[slot(f.0.0)]);
}

/// Whether `child` is a suffix of `path`, compared whole component by whole
/// component, as `std::path::Path::ends_with` decides it.
pub uninterp spec fn path_ends_with(path: Seq<char>, child: Seq<char>) -> bool;

/// `std::path::Path::ends_with` on the paths that two strings name. The
/// contract only names the result; how paths split into components is not
/// stated here.
#[verifier::external_body]
fn path_has_suffix(path: &str, child: &str) -> (res: bool)
    ensures
        res == path_ends_with(path@, child@),
{
    std::path::Path::new(path).ends_with(child)
}

/// Whether triple `t` records that an environment is stored at a path that
/// ends with `s`.
pub open spec fn records_path(m: EnvModel, serialize_path: LocalNode, s: Seq<char>, t: LocalTriple) -> bool {
    &&& m.with_predicate(serialize_path).contains(t)
    &&& match m.structure_of(m.object_of(t)) {
        Some(Sexp::Primitive(Primitive::Path(p))) => path_ends_with(p@, s),
        _ => false,
    }
}

/// Whether every triple with predicate `serialize_path` has an object that
/// holds a structure.
pub open spec fn paths_have_structure(m: EnvModel, serialize_path: LocalNode) -> bool {
    forall|t: LocalTriple| #[trigger]
        m.with_predicate(serialize_path).contains(t) ==> !spec_is_triple_id(m.object_of(t).0)
            && m.object_of(t).0 < m.nodes.len() && m.structure_of(m.object_of(t)) is Some
}

/// The symbol of the first designation triple of `local` in `env`, if any.
fn designator_in<E: Environment>(env: &E, local: LocalNode) -> (res: Option<Symbol>)
    requires
        env.wf(),
        env.model().valid_node(local),
        env.model().valid_node(designation_local()),
    ensures
        ({
            let m = env.model();
            let ts = m.with_subject(local).intersect(m.with_predicate(designation_local()));
            if ts.is_empty() {
                res is None
            } else {
                res == symbol_structure(m, m.object_of(first_triple(ts)))
            }
        }),
{
    let ghost m = env.model();
    let ghost ts = m.with_subject(local).intersect(m.with_predicate(designation_local()));
    let names = env.match_but_object(local, LocalNode::new(1));
    let ghost ids = names.elements.ids@;
    assert(ids.to_set() == ts);
    if names.elements.ids.len() == 0 {
        assert(ts =~= Set::<LocalTriple>::empty());
        return None;
    }
    let t = names.elements.ids[0];
    assert(ts.contains(t));
    assert(first_triple(ts) == t) by {
        lemma_first_of_increasing(ids);
    }
    assert(m.valid_node(m.object_of(t))) by {
        env.lemma_wf_bounds();
        assert(m.is_triple(t));
    }
    let name = env.triple_object(t);
    let entry = env.entry(name);
    match entry.as_option() {
        Some(Sexp::Primitive(Primitive::Symbol(sym))) => Some(sym.clone()),
        _ => None,
    }
}

impl<E: Environment> EnvState<E> {
    /// The name that a node is designated by, if any: the symbol of the
    /// first designation triple whose subject it is.
    pub fn node_designator(&self, node: Node) -> (res: Option<Symbol>)
        requires
            self.wf(),
            node.local != designation_local() ==> self.envs().contains_key(node.env.0)
                && self.envs()[node.env.0].model().valid_node(node.local)
                && self.envs()[node.env.0].model().valid_node(designation_local()),
            node.local != designation_local() ==> ({
                let m = self.envs()[node.env.0].model();
                let ts = m.with_subject(node.local).intersect(
                    m.with_predicate(designation_local()),
                );
                !ts.is_empty() ==> m.structure_of(m.object_of(first_triple(ts))) is Some
                    && !spec_is_triple_id(m.object_of(first_triple(ts)).0)
            }),
        ensures
            node.local == designation_local() ==> (res matches Some(s) && s@
                == AMLANG_DESIGNATION@),
            node.local != designation_local() ==> ({
                let m = self.envs()[node.env.0].model();
                let ts = m.with_subject(node.local).intersect(
                    m.with_predicate(designation_local()),
                );
                if ts.is_empty() {
                    res is None
                } else {
                    res == symbol_structure(m, m.object_of(first_triple(ts)))
                }
            }),
    {
        let designation = self.designation();
        if node.local().id() == designation.id() {
            return Some(Symbol::new(AMLANG_DESIGNATION.to_owned()));
        }
        let env = match self.env_ref(node.env()) {
            Some(e) => e,
            None => vstd::pervasive::unreached(),
        };
        designator_in(env, node.local())
    }

    /// What a primitive designates: a symbol its node, a node its structure
    /// (a triple the list of its parts, an atom itself), anything else
    /// itself.
    pub fn designate(&mut self, designator: Primitive) -> (res: Result<Sexp, LangError>)
        requires
            old(self).wf(),
            old(self).chain_valid(),
            designator matches Primitive::Node(n) ==> old(self).envs().contains_key(n.env.0)
                && old(self).envs()[n.env.0].model().valid_node(n.local),
            designator matches Primitive::Node(n) ==> (spec_is_triple_id(n.local.0) ==> (old(self).has_current() && 0 <= slot(n.local.0) < old(self).current().model().triples.len())),
        ensures
            *final(self) == *old(self),
            designator matches Primitive::Symbol(sym) ==> (match lookup_chain(
                old(self).spec_chain(),
                old(self).envs(),
                sym@,
            ) {
                Some(n) => res == Ok::<Sexp, LangError>(node_sexp(n)),
                None => res matches Err(LangError::UnboundSymbol(s)) && s@ == sym@,
            }),
            designator matches Primitive::Node(n) ==> ({
                let m = old(self).envs()[n.env.0].model();
                if spec_is_triple_id(n.local.0) {
                    let c = old(self).current().model();
                    let t = LocalTriple(n.local);
                    res == Ok::<Sexp, LangError>(
                        triple_sexp(
                            old(self).spec_env(),
                            c.subject_of(t),
                            c.predicate_of(t),
                            c.object_of(t),
                        ),
                    )
                } else {
                    match m.structure_of(n.local) {
                        Some(x) => res == Ok::<Sexp, LangError>(x),
                        None => res == Ok::<Sexp, LangError>(node_sexp(n)),
                    }
                }
            }),
            designator matches Primitive::Node(n) ==> res == Ok::<Sexp, LangError>(
                node_meaning(*old(self), n),
            ),
            designated(*old(self), designator, res),
            !(designator is Symbol) && !(designator is Node) ==> res == Ok::<Sexp, LangError>(
                Sexp::Primitive(designator),
            ),
    {
        match designator {
            Primitive::Symbol(symbol) => match self.resolve(&symbol) {
                Ok(node) => Ok(Sexp::Primitive(Primitive::Node(node))),
                Err(_) => Err(LangError::UnboundSymbol(symbol)),
            },
            Primitive::Node(node) => {
                let env = match self.env_ref(node.env()) {
                    Some(e) => e,
                    None => vstd::pervasive::unreached(),
                };
                if !is_triple_id(node.local().id()) {
                    let entry = env.entry(node.local());
                    match entry.as_option() {
                        Some(structure) => Ok(clone_sexp(structure)),
                        None => Ok(Sexp::Primitive(Primitive::Node(node))),
                    }
                } else {
                    let t = LocalTriple::new(node.local().id());
                    let current = match self.env_ref(self.env) {
                        Some(e) => e,
                        None => vstd::pervasive::unreached(),
                    };
                    let s = current.triple_subject(t);
                    let p = current.triple_predicate(t);
                    let o = current.triple_object(t);
                    Ok(triple_structure(self.env, s, p, o))
                }
            },
            other => Ok(Sexp::Primitive(other)),
        }
    }

    /// Adds the triple to the current environment unless it is there
    /// already, in which case the existing triple's structure is the error.
    pub fn tell(&mut self, subject: LocalNode, predicate: LocalNode, object: LocalNode) -> (res:
        Result<Sexp, LangError>)
        requires
            old(self).wf(),
            old(self).has_current(),
            old(self).current().model().valid_node(subject),
            old(self).current().model().valid_node(predicate),
            old(self).current().model().valid_node(object),
            old(self).current().model().triples.len() < crate::env::mem_backend::index_id_conv::triple_bit(),
        ensures
            final(self).wf(),
            final(self).same_place(&*old(self)),
            !old(self).current().model().matching(subject, predicate, object).is_empty() ==> (res
                == Err::<Sexp, LangError>(
                LangError::DuplicateTriple(
                    triple_sexp(old(self).spec_env(), subject, predicate, object),
                ),
            ) && final(self).envs() == old(self).envs()),
            old(self).current().model().matching(subject, predicate, object).is_empty() ==> (res
                == Ok::<Sexp, LangError>(
                node_sexp(
                    Node {
                        env: old(self).spec_env(),
                        local: crate::env::environment::triple_at(
                            old(self).current().model().triples.len() as int,
                        ).0,
                    },
                ),
            ) && final(self).envs().dom() == old(self).envs().dom() && (forall|id: u64|
                id != old(self).spec_env().0 && #[trigger] old(self).envs().contains_key(id)
                    ==> final(self).envs()[id] == old(self).envs()[id])
                && final(self).current().model() == old(self).current().model().with_triple(
                subject,
                predicate,
                object,
            )),
            tell_outcome(*old(self), subject, predicate, object, *final(self), res),
    {
        let current = match self.env_ref(self.env) {
            Some(e) => e,
            None => vstd::pervasive::unreached(),
        };
        let found = current.match_triple(subject, predicate, object);
        if found.len() > 0 {
            return Err(LangError::DuplicateTriple(triple_structure(self.env, subject, predicate, object)));
        }
        let env_id = self.env;
        let env = self.env();
        let triple = env.insert_triple(subject, predicate, object);
        Ok(Sexp::Primitive(Primitive::Node(Node::new(env_id, triple.node()))))
    }

    /// The nodes of the triples of the current environment that match the
    /// pattern, where the placeholder node stands for any node; with no
    /// placeholder, the first matching triple.
    pub fn ask(&mut self, subject: LocalNode, predicate: LocalNode, object: LocalNode) -> (res:
        Result<Sexp, LangError>)
        requires
            old(self).wf(),
            old(self).has_current(),
            subject != old(self).spec_context().placeholder ==> old(self).current().model().valid_node(subject),
            predicate != old(self).spec_context().placeholder ==> old(self).current().model().valid_node(predicate),
            object != old(self).spec_context().placeholder ==> old(self).current().model().valid_node(object),
        ensures
            *final(self) == *old(self),
            res matches Ok(l) && exists|ids: Seq<LocalTriple>|
                increasing(ids) && ids.to_set() == ask_set(
                    old(self).current().model(),
                    subject,
                    predicate,
                    object,
                    old(self).spec_context().placeholder,
                ) && l == triple_nodes_list(old(self).spec_env(), ids),
            ask_outcome(*old(self), subject, predicate, object, res),
    {
        let ph = self.context.placeholder;
        let env_id = self.env;
        let env = match self.env_ref(self.env) {
            Some(e) => e,
            None => vstd::pervasive::unreached(),
        };
        let ghost m = env.model();
        let set = if subject.id() == ph.id() {
            if predicate.id() == ph.id() {
                if object.id() == ph.id() {
                    env.match_all()
                } else {
                    env.match_object(object)
                }
            } else {
                if object.id() == ph.id() {
                    env.match_predicate(predicate)
                } else {
                    env.match_but_subject(predicate, object)
                }
            }
        } else {
            if predicate.id() == ph.id() {
                if object.id() == ph.id() {
                    env.match_subject(subject)
                } else {
                    env.match_but_predicate(subject, object)
                }
            } else {
                if object.id() == ph.id() {
                    env.match_but_object(subject, predicate)
                } else {
                    let found = env.match_triple(subject, predicate, object);
                    proof {
                        let all = m.matching(subject, predicate, object);
                        if !all.is_empty() {
                            crate::env::triple_ids::lemma_increasing_len(found.elements.ids@);
                            let t = found.elements.ids@[0];
                            assert(found.elements@.contains(t));
                            assert forall|u: LocalTriple| all.contains(u) implies t.0.0 <= u.0.0 by {
                            }
                            lemma_min_unique(all, t);
                            assert forall|u: LocalTriple| found.elements@.contains(u) implies u
                                == t by {
                                let k = choose|k: int|
                                    0 <= k < found.elements.ids@.len() && found.elements.ids@[k] == u;
                                if k > 0 {
                                    assert(t.0.0 < u.0.0);
                                    assert(u.0.0 <= t.0.0);
                                }
                            }
                            assert(found.elements@ =~= Set::empty().insert(first_triple(all)));
                        }
                    }
                    found
                }
            }
        };
        let ghost ids = set.elements.ids@;
        assert(ids.to_set() == ask_set(m, subject, predicate, object, ph));
        let n = set.elements.ids.len();
        let mut out: Vec<Sexp> = Vec::new();
        let mut i: usize = 0;
        while i < n
            invariant
                n == ids.len(),
                ids == set.elements.ids@,
                i <= n,
                out@ == ids.take(i as int).map_values(
                    |t: LocalTriple| node_sexp(Node { env: env_id, local: t.0 }),
                ),
            decreases n - i,
        {
            let t = set.elements.ids[i];
            out.push(Sexp::Primitive(Primitive::Node(Node::new(env_id, t.node()))));
            i = i + 1;
            assert(out@ =~= ids.take(i as int).map_values(
                |t: LocalTriple| node_sexp(Node { env: env_id, local: t.0 }),
            ));
        }
        assert(ids.take(n as int) =~= ids);
        let res = list_from_vec(out);
        assert(increasing(ids));
        Ok(res)
    }

    /// Names `node` by the symbol that `name` holds, in the table of names of
    /// the current environment's designation node (the other names stay),
    /// and records the designation triple; unless the symbol is already
    /// bound along the designation chain.
    pub fn name_node(&mut self, name: LocalNode, node: LocalNode) -> (res: Result<Node, LangError>)
        requires
            old(self).wf(),
            old(self).chain_valid(),
            old(self).has_current(),
            old(self).current().model().valid_node(name),
            old(self).current().model().valid_node(node),
            names_of(old(self).current().model()) is Some,
            old(self).current().model().triples.len()
                < crate::env::mem_backend::index_id_conv::triple_bit(),
        ensures
            final(self).wf(),
            final(self).same_place(&*old(self)),
            symbol_structure(old(self).current().model(), name) is None ==> (
            res matches Err(LangError::InvalidArgument { given, expected })
                && given == (if spec_is_triple_id(name.0) {
                empty_list()
            } else {
                match old(self).current().model().structure_of(name) {
                    Some(x) => x,
                    None => empty_list(),
                }
            }) && expected@ == "Node abstracting Symbol"@ && final(self).envs() == old(self).envs()),
            symbol_structure(old(self).current().model(), name) matches Some(sym) ==> (
            lookup_chain(old(self).spec_chain(), old(self).envs(), sym@) is Some ==> res
                == Err::<Node, LangError>(LangError::AlreadyBoundSymbol(sym)) && final(self).envs()
                == old(self).envs()),
            symbol_structure(old(self).current().model(), name) matches Some(sym) ==> (
            lookup_chain(old(self).spec_chain(), old(self).envs(), sym@) is None ==> (res
                == Ok::<Node, LangError>(Node { env: old(self).spec_env(), local: node })
                && final(self).envs().dom() == old(self).envs().dom() && (forall|id: u64|
                id != old(self).spec_env().0 && #[trigger] old(self).envs().contains_key(id)
                    ==> final(self).envs()[id] == old(self).envs()[id])
                && name_added(
                old(self).current().model(),
                final(self).current().model(),
                sym@,
                Node { env: old(self).spec_env(), local: node },
            ) && final(self).current().model().triples == old(self).current().model().triples.push(
                (node, designation_local(), name),
            ))),   {
        let ghost m = self.current().model();
        let designation = self.designation();
        let current = match self.env_ref(self.env) {
            Some(e) => e,
            None => vstd::pervasive::unreached(),
        };
        let symbol = {
            let entry = current.entry(name);
            match entry.as_option() {
                Some(Sexp::Primitive(Primitive::Symbol(sym))) => sym.clone(),
                Some(other) => {
                    return Err(
                        LangError::InvalidArgument {
                            given: clone_sexp(other),
                            expected: "Node abstracting Symbol".to_owned(),
                        },
                    );
                },
                None => {
                    return Err(
                        LangError::InvalidArgument {
                            given: Sexp::default(),
                            expected: "Node abstracting Symbol".to_owned(),
                        },
                    );
                },
            }
        };
        if let Ok(_) = self.resolve(&symbol) {
            return Err(LangError::AlreadyBoundSymbol(symbol));
        }
        let global_node = self.globalize(node);
        let mut table = {
            let current = self.current_env();
            let entry = current.entry(designation);
            match entry.as_option() {
                Some(Sexp::Primitive(Primitive::SymNodeTable(t))) => t.clone(),
                _ => vstd::pervasive::unreached(),
            }
        };
        table.insert(symbol, global_node);
        let ghost m0 = self.current().model();
        let env = self.env();
        env.entry_update(
            EntryMut::new(designation, EntryMutKind::Owned(Sexp::Primitive(Primitive::SymNodeTable(table)))),
        );
        let ghost m1 = env.model();
        proof {
            assert(m1 == m0.with_structure(
                designation,
                Some(Sexp::Primitive(Primitive::SymNodeTable(table))),
            ));
            assert(m1.valid_node(node) && m1.valid_node(name) && m1.valid_node(designation));
        }
        env.insert_triple(node, designation, name);
        Ok(global_node)
    }

    /// The node of the current environment that stands for `original`, a
    /// node of another environment: the one it was imported as before, or
    /// a new node holding `original` that the import table records.
    pub fn import(&mut self, original: Node) -> (res: Result<Node, LangError>)
        requires
            old(self).wf(),
            old(self).has_current(),
            old(self).meta_env().model().valid_node(old(self).spec_env()),
            old(self).meta_env().model().valid_node(old(self).spec_meta_context().imports),
            old(self).meta_env().model().valid_node(old(self).spec_meta_context().import_table),
            old(self).meta_env().model().valid_node(original.env),
            import_table_unique(
                old(self).meta_env().model(),
                old(self).spec_env(),
                old(self).spec_meta_context().imports,
                old(self).spec_meta_context().import_table,
                original.env,
            ),
            old(self).meta_env().model().nodes.len() + 2
                < crate::env::mem_backend::index_id_conv::triple_bit(),
            old(self).meta_env().model().triples.len() + 2
                < crate::env::mem_backend::index_id_conv::triple_bit(),
            old(self).current().model().nodes.len() + 2
                < crate::env::mem_backend::index_id_conv::triple_bit(),
        ensures
            final(self).wf(),
            final(self).same_place(&*old(self)),
            final(self).envs().dom() == old(self).envs().dom(),
            forall|id: u64|
                id != 0 && id != old(self).spec_env().0 && #[trigger] old(self).envs().contains_key(
                    id,
                ) ==> final(self).envs()[id] == old(self).envs()[id],
            old(self).meta_env().model().nodes.len() <= final(self).meta_env().model().nodes.len()
                <= old(self).meta_env().model().nodes.len() + 2,
            old(self).meta_env().model().triples.len() <= final(self).meta_env().model().triples.len()
                <= old(self).meta_env().model().triples.len() + 2,
            old(self).current().model().nodes.len() <= final(self).current().model().nodes.len()
                <= old(self).current().model().nodes.len() + 2,
            old(self).current().model().triples.len() <= final(self).current().model().triples.len()
                <= old(self).current().model().triples.len() + 2,
            import_table_unique(
                final(self).meta_env().model(),
                old(self).spec_env(),
                old(self).spec_meta_context().imports,
                old(self).spec_meta_context().import_table,
                original.env,
            ),
            original.env == old(self).spec_env() ==> (res matches Err(
                LangError::InvalidArgument { given, expected },
            ) && given == node_sexp(original) && expected@ == "Node outside of current env"@
                && *final(self) == *old(self)),
            import_done(*old(self), original, *final(self), res),
            original.env != old(self).spec_env() ==> (res is Err <==> import_table_broken(
                old(self).meta_env().model(),
                old(self).spec_env(),
                old(self).spec_meta_context().imports,
                old(self).spec_meta_context().import_table,
                original.env,
            )),
            original.env != old(self).spec_env() && import_table_broken(
                old(self).meta_env().model(),
                old(self).spec_env(),
                old(self).spec_meta_context().imports,
                old(self).spec_meta_context().import_table,
                original.env,
            ) ==> (res matches Err(LangError::InvalidState { actual, expected }) && actual@
                == "import table triple object has no table"@ && expected@ == "has table"@),
            original.env != old(self).spec_env() ==> (imported_in(
                old(self).meta_env().model(),
                old(self).spec_env(),
                old(self).spec_meta_context().imports,
                old(self).spec_meta_context().import_table,
                original,
            ) matches Some(l) ==> res == Ok::<Node, LangError>(
                Node { env: old(self).spec_env(), local: l },
            ) && final(self).envs() == old(self).envs()),
            original.env != old(self).spec_env() ==> (res matches Ok(g) ==> g.env == old(self).spec_env() && imported_in(
                final(self).meta_env().model(),
                old(self).spec_env(),
                old(self).spec_meta_context().imports,
                old(self).spec_meta_context().import_table,
                original,
            ) == Some(g.local)),
            original.env != old(self).spec_env() && imported_in(
                old(self).meta_env().model(),
                old(self).spec_env(),
                old(self).spec_meta_context().imports,
                old(self).spec_meta_context().import_table,
                original,
            ) is None ==> (res matches Ok(g) ==> final(self).current().model().structure_of(
                g.local,
            ) == Some(node_sexp(original)) && !spec_is_triple_id(g.local.0)
                && g.local.0 < final(self).current().model().nodes.len()),
            import_outcome(*old(self), original, *final(self), res),
    {
        let ghost s0 = *self;
        let env_id = self.env;
        if original.env().id() == env_id.id() {
            return Err(
                LangError::InvalidArgument {
                    given: Sexp::Primitive(Primitive::Node(original)),
                    expected: "Node outside of current env".to_owned(),
                },
            );
        }
        let imports = self.meta_context.imports;
        let import_table = self.meta_context.import_table;
        let ghost m0 = s0.meta_env().model();
        assert(self.envs().contains_key(0));
        let meta = self.meta.base_mut();
        proof {
            meta.lemma_wf_bounds();
        }
        let import_triple = get_or_insert_import(meta, env_id, imports, original.env());
        let ghost m1 = meta.model();
        proof {
            meta.lemma_wf_bounds();
            if m1 != m0 {
                // the import triple is new, so no table triple names it yet
                crate::env::mem_env::lemma_triple_at(m0.triples.len() as int);
                assert forall|u: LocalTriple| !table_triples(m1, import_triple, import_table).contains(u) by {
                    if table_triples(m1, import_triple, import_table).contains(u) {
                        assert(m1.is_triple(u));
                        assert(m1.subject_of(u) == import_triple.0);
                        if u != import_triple {
                            assert(m0.is_triple(u));
                            assert(m0.valid_node(m0.subject_of(u)));
                        }
                    }
                }
            }
        }
        let table_node = get_or_insert_table(meta, import_triple, import_table);
        let ghost m2 = meta.model();
        proof {
            meta.lemma_wf_bounds();
            // the import triple stays the first of its kind
            let ms1 = m1.matching(env_id, imports, original.env);
            if m2 != m1 {
                lemma_roles_finite(m1, env_id);
                crate::env::mem_env::lemma_triple_at(m1.triples.len() as int);
                let nt = crate::env::environment::triple_at(m1.triples.len() as int);
                let ms2 = m2.matching(env_id, imports, original.env);
                assert(ms1.finite()) by {
                    assert(ms1.subset_of(m1.with_subject(env_id)));
                    vstd::set_lib::lemma_len_subset(ms1, m1.with_subject(env_id));
                }
                assert(ms1.contains(import_triple)) by {
                    lemma_first_triple(ms1);
                }
                assert forall|u: LocalTriple| ms1.contains(u) implies u.0.0 < nt.0.0 by {}
                if ms2.contains(nt) {
                    assert(ms2 =~= ms1.insert(nt));
                    lemma_first_kept(ms1, nt);
                } else {
                    assert(ms2 =~= ms1);
                }
            }
        }
        let existing: Option<LocalNode>;
        let mut table: LocalNodeTable;
        {
            let meta_ref = self.meta.base();
            proof {
                assert(m2.valid_node(table_node)) by {
                    meta_ref.lemma_wf_bounds();
                    lemma_table_node_valid(m2, import_triple, import_table);
                }
            }
            let entry = meta_ref.entry(table_node);
            match entry.as_option() {
                Some(Sexp::Primitive(Primitive::LocalNodeTable(t))) => {
                    table = t.clone();
                    existing = table.lookup(&original.local());
                },
                _ => {
                    proof {
                        // Only a table that was there before can hold no table.
                        assert(table_of(m2, table_node) is None);
                        assert(!table_triples(m1, import_triple, import_table).is_empty());
                        assert(m2 == m1);
                        assert(m1 == m0);
                        assert(import_table_broken(m0, env_id, imports, import_table, original.env));
                    }
                    return Err(
                        LangError::InvalidState {
                            actual: "import table triple object has no table".to_owned(),
                            expected: "has table".to_owned(),
                        },
                    );
                },
            }
        }
        proof {
            let mm = self.meta.spec_base().model();
            assert(mm == m2);
            assert(table_of(m2, table_node) is Some);
            if import_table_broken(m0, env_id, imports, import_table, original.env) {
                assert(!m0.matching(env_id, imports, original.env).is_empty());
                assert(m1 == m0);
                assert(import_triple_of(m0, env_id, imports, original.env) == Some(import_triple));
                assert(!table_triples(m1, import_triple, import_table).is_empty());
                assert(m2 == m1);
            }
            assert(self.envs() == s0.envs().insert(0, self.meta.spec_base()));
            if imported_in(m0, env_id, imports, import_table, original) is Some {
                assert(!m0.matching(env_id, imports, original.env).is_empty());
                assert(m1 == m0);
                assert(import_triple_of(m0, env_id, imports, original.env) == Some(import_triple));
                assert(!table_triples(m1, import_triple, import_table).is_empty());
                assert(m2 == m1);
                assert(self.meta.spec_base() == s0.meta.spec_base());
                assert(self.envs() =~= s0.envs());
            }
        }
        if let Some(imported) = existing {
            return Ok(self.globalize(imported));
        }
        let ghost s2 = *self;
        let imported = self.env().insert_node(Some(Sexp::Primitive(Primitive::Node(original))));
        let ghost s3 = *self;
        table.insert(original.local(), imported);
        proof {
            assert(s2.envs()[0] == s2.meta.spec_base());
            assert(s2.meta.spec_base().model() == m2);
            assert(s3.envs().contains_key(0));
            if env_id.0 == 0 {
                assert(s3.envs()[0].model() == s2.envs()[0].model().with_node(
                    Some(node_sexp(original)),
                ));
            } else {
                assert(s3.envs()[0] == s2.envs()[0]);
            }
        }
        let meta = self.meta.base_mut();
        let ghost m3 = meta.model();
        proof {
            assert(m3.triples == m2.triples);
            assert(m3.nodes.len() >= m2.nodes.len());
            assert(table_node.0 < m3.nodes.len());
        }
        meta.entry_update(EntryMut::new(table_node, EntryMutKind::Owned(Sexp::Primitive(Primitive::LocalNodeTable(table)))));
        proof {
            let m4 = meta.model();
            lemma_import_records(m2, m4, env_id, imports, import_table, original.env);
        }
        proof {
            let cur = self.current().model();
            assert(self.envs().contains_key(env_id.0));
            if env_id.0 == 0 {
                assert(imported.0 == m2.nodes.len());
                assert(table_node.0 < m2.nodes.len());
                assert(cur.nodes[imported.0 as int] == m3.nodes[imported.0 as int]);
            } else {
                assert(self.envs()[env_id.0] == s3.envs()[env_id.0]);
            }
            assert forall|id: u64|
                id != 0 && id != env_id.0 && #[trigger] s0.envs().contains_key(id) implies self.envs()[id]
                    == s0.envs()[id] by {
                assert(s2.envs()[id] == s0.envs()[id]);
                assert(s3.envs()[id] == s2.envs()[id]);
            }
        }
        Ok(self.globalize(imported))
    }

    /// The environment node whose recorded storage path ends with `s`: the
    /// subject of the first such record.
    pub fn find_env(&self, s: &str) -> (res: Option<LocalNode>)
        requires
            self.wf(),
            self.meta_env().model().valid_node(self.spec_meta_context().serialize_path),
            paths_have_structure(self.meta_env().model(), self.spec_meta_context().serialize_path),
        ensures
            res is None <==> forall|t: LocalTriple|
                !records_path(
                    self.meta_env().model(),
                    self.spec_meta_context().serialize_path,
                    s@,
                    t,
                ),
            res matches Some(n) ==> exists|t: LocalTriple|
                records_path(self.meta_env().model(), self.spec_meta_context().serialize_path, s@, t)
                    && (forall|u: LocalTriple|
                    records_path(
                        self.meta_env().model(),
                        self.spec_meta_context().serialize_path,
                        s@,
                        u,
                    ) ==> t.0.0 <= u.0.0) && n == self.meta_env().model().subject_of(t),
            env_found(self.meta_env().model(), self.spec_meta_context().serialize_path, s@, res),
    {
        assert(self.envs().contains_key(0));
        let meta = self.meta.base();
        let ghost m = meta.model();
        let sp = self.meta_context.serialize_path;
        let triples = meta.match_predicate(sp);
        let ghost ids = triples.elements.ids@;
        let n = triples.elements.ids.len();
        let mut i: usize = 0;
        while i < n
            invariant
                meta.wf(),
                m == meta.model(),
                m == self.meta_env().model(),
                sp == self.spec_meta_context().serialize_path,
                paths_have_structure(m, sp),
                ids == triples.elements.ids@,
                increasing(ids),
                ids.to_set() == m.with_predicate(sp),
                n == ids.len(),
                i <= n,
                forall|k: int| 0 <= k < i ==> !records_path(m, sp, s@, #[trigger] ids[k]),
            decreases n - i,
        {
            let t = triples.elements.ids[i];
            assert(m.with_predicate(sp).contains(t));
            let object_node = meta.triple_object(t);
            let entry = meta.entry(object_node);
            match entry.as_option() {
                Some(Sexp::Primitive(Primitive::Path(p))) => {
                    if path_has_suffix(p.as_str(), s) {
                        proof {
                            assert(records_path(m, sp, s@, t));
                            assert forall|u: LocalTriple| records_path(m, sp, s@, u) implies t.0.0
                                <= u.0.0 by {
                                let k = choose|k: int| 0 <= k < ids.len() && ids[k] == u;
                                if k < i {
                                    assert(!records_path(m, sp, s@, ids[k]));
                                } else if k > i {
                                    assert(ids[i as int].0.0 < ids[k].0.0);
                                }
                            }
                        }
                        return Some(meta.triple_subject(t));
                    }
                },
                _ => {},
            }
            i = i + 1;
        }
        proof {
            assert forall|t: LocalTriple| !records_path(m, sp, s@, t) by {
                if records_path(m, sp, s@, t) {
                    let k = choose|k: int| 0 <= k < ids.len() && ids[k] == t;
                    assert(!records_path(m, sp, s@, ids[k]));
                }
            }
        }
        None
    }
}

/// The triples of `m` that fit a pattern: each given node fixes the part of
/// the triple in its place.
pub open spec fn pattern_set(
    m: EnvModel,
    s: Option<LocalNode>,
    p: Option<LocalNode>,
    o: Option<LocalNode>,
) -> Set<LocalTriple> {
    Set::new(
        |t: LocalTriple|
            m.is_triple(t) && (s matches Some(x) ==> m.subject_of(t) == x) && (p matches Some(x)
                ==> m.predicate_of(t) == x) && (o matches Some(x) ==> m.object_of(t) == x),
    )
}

/// The local node of a pattern part in environment `env`, where it is one.
pub open spec fn pattern_local(env: LocalNode, arg: Option<Node>) -> Option<LocalNode> {
    match arg {
        Some(n) => Some(n.local),
        None => None,
    }
}

/// Whether a pattern part lies outside environment `env`.
pub open spec fn outside(env: LocalNode, arg: Option<Node>) -> bool {
    arg matches Some(n) && n.env != env
}

/// Whether a pattern part names a node of `m`, where it is given.
pub open spec fn part_valid(m: EnvModel, arg: Option<Node>) -> bool {
    arg matches Some(n) ==> m.valid_node(n.local)
}

/// The message of a pattern that spans environments.
pub open spec fn cross_env_message() -> Seq<char> {
    "Cross-env triples are not currently supported"@
}

/// The local node of a pattern part, or the error for a part outside `env`.
fn to_local(env: LocalNode, arg: Option<Node>) -> (res: Result<Option<LocalNode>, LangError>)
    ensures
        outside(env, arg) ==> (res matches Err(LangError::Unsupported(msg)) && msg@
            == cross_env_message()),
        !outside(env, arg) ==> res == Ok::<Option<LocalNode>, LangError>(pattern_local(env, arg)),
{
    match arg {
        Some(node) => if node.env().id() != env.id() {
            Err(LangError::Unsupported("Cross-env triples are not currently supported".to_owned()))
        } else {
            Ok(Some(node.local()))
        },
        None => Ok(None),
    }
}

/// The table node of the import of `from_env` into `target_env`, where the
/// meta environment records one.
fn find_import_table<E: Environment>(
    meta: &E,
    target_env: LocalNode,
    imports: LocalNode,
    from_env: LocalNode,
    import_table: LocalNode,
) -> (res: Option<LocalNode>)
    requires
        meta.wf(),
        meta.model().valid_node(target_env),
        meta.model().valid_node(imports),
        meta.model().valid_node(from_env),
        meta.model().valid_node(import_table),
        import_table_unique(meta.model(), target_env, imports, import_table, from_env),
    ensures
        res == (match import_triple_of(meta.model(), target_env, imports, from_env) {
            Some(t) => table_node_of(meta.model(), t, import_table),
            None => None,
        }),
{
    let ghost m = meta.model();
    proof {
        meta.lemma_wf_bounds();
    }
    let found = meta.match_triple(target_env, imports, from_env);
    if found.len() == 0 {
        return None;
    }
    proof {
        crate::env::triple_ids::lemma_increasing_len(found.elements.ids@);
    }
    let t = found.elements.get(0);
    proof {
        let all = m.matching(target_env, imports, from_env);
        assert(found.elements@.contains(t));
        assert forall|u: LocalTriple| all.contains(u) implies t.0.0 <= u.0.0 by {}
        lemma_min_unique(all, t);
        lemma_roles_finite(m, t.0);
    }
    let matches = meta.match_but_object(t.node(), import_table);
    if matches.len() == 0 {
        return None;
    }
    proof {
        crate::env::triple_ids::lemma_increasing_len(matches.elements.ids@);
    }
    let first = matches.elements.get(0);
    proof {
        let ts = table_triples(m, t, import_table);
        assert(ts.contains(first));
        assert forall|u: LocalTriple| ts.contains(u) implies first.0.0 <= u.0.0 by {
            assert(u == first);
        }
        lemma_min_unique(ts, first);
    }
    Some(meta.triple_object(first))
}

impl<E: Environment> EnvState<E> {
    /// Adds a node to the current environment, with the given structure.
    pub fn define(&mut self, structure: Option<Sexp>) -> (res: Node)
        requires
            old(self).wf(),
            old(self).has_current(),
            old(self).current().model().nodes.len()
                < crate::env::mem_backend::index_id_conv::triple_bit(),
        ensures
            final(self).wf(),
            final(self).same_place(&*old(self)),
            final(self).envs().dom() == old(self).envs().dom(),
            forall|id: u64|
                id != old(self).spec_env().0 && #[trigger] old(self).envs().contains_key(id)
                    ==> final(self).envs()[id] == old(self).envs()[id],
            res == (Node {
                env: old(self).spec_env(),
                local: LocalNode(old(self).current().model().nodes.len() as u64),
            }),
            final(self).current().model() == old(self).current().model().with_node(structure),
    {
        let local = self.env().insert_node(structure);
        self.globalize(local)
    }

    /// The triples of environment `env` that fit the pattern, where a given
    /// node fixes the part in its place; with every part given, the first
    /// such triple alone. A node of another environment is refused.
    pub fn ask_from(
        &self,
        env: LocalNode,
        subject: Option<Node>,
        predicate: Option<Node>,
        object: Option<Node>,
    ) -> (res: Result<TripleSet<'_, E>, LangError>)
        requires
            self.wf(),
            self.envs().contains_key(env.0),
            !outside(env, subject) ==> part_valid(self.envs()[env.0].model(), subject),
            !outside(env, predicate) ==> part_valid(self.envs()[env.0].model(), predicate),
            !outside(env, object) ==> part_valid(self.envs()[env.0].model(), object),
        ensures
            (outside(env, subject) || outside(env, predicate) || outside(env, object)) ==> (
            res matches Err(LangError::Unsupported(msg)) && msg@ == cross_env_message()),
            !(outside(env, subject) || outside(env, predicate) || outside(env, object)) ==> (
            res matches Ok(ts) && *ts.env == self.envs()[env.0] && ts.elements.wf() && ({
                let m = self.envs()[env.0].model();
                let all = pattern_set(
                    m,
                    pattern_local(env, subject),
                    pattern_local(env, predicate),
                    pattern_local(env, object),
                );
                if subject is Some && predicate is Some && object is Some {
                    &&& ts@.subset_of(all)
                    &&& ts@.len() <= 1
                    &&& (all.is_empty() <==> ts@.is_empty())
                    &&& forall|t: LocalTriple, u: LocalTriple|
                        #![trigger ts@.contains(t), all.contains(u)]
                        ts@.contains(t) && all.contains(u) ==> t.0.0 <= u.0.0
                } else {
                    ts@ == all
                }
            })),
    {
        let s = match to_local(env, subject) {
            Ok(x) => x,
            Err(e) => {
                return Err(e);
            },
        };
        let p = match to_local(env, predicate) {
            Ok(x) => x,
            Err(e) => {
                return Err(e);
            },
        };
        let o = match to_local(env, object) {
            Ok(x) => x,
            Err(e) => {
                return Err(e);
            },
        };
        let e = match self.env_ref(env) {
            Some(e) => e,
            None => vstd::pervasive::unreached(),
        };
        proof {
            self.lemma_env_wf(env.0);
        }
        let ghost m = e.model();
        let res = match s {
            Some(ss) => match p {
                Some(pp) => match o {
                    Some(oo) => {
                        let r = e.match_triple(ss, pp, oo);
                        assert(m.matching(ss, pp, oo) =~= pattern_set(m, s, p, o));
                        r
                    },
                    None => {
                        let r = e.match_but_object(ss, pp);
                        assert(r@ =~= pattern_set(m, s, p, o));
                        r
                    },
                },
                None => match o {
                    Some(oo) => {
                        let r = e.match_but_predicate(ss, oo);
                        assert(r@ =~= pattern_set(m, s, p, o));
                        r
                    },
                    None => {
                        let r = e.match_subject(ss);
                        assert(r@ =~= pattern_set(m, s, p, o));
                        r
                    },
                },
            },
            None => match p {
                Some(pp) => match o {
                    Some(oo) => {
                        let r = e.match_but_subject(pp, oo);
                        assert(r@ =~= pattern_set(m, s, p, o));
                        r
                    },
                    None => {
                        let r = e.match_predicate(pp);
                        assert(r@ =~= pattern_set(m, s, p, o));
                        r
                    },
                },
                None => match o {
                    Some(oo) => {
                        let r = e.match_object(oo);
                        assert(r@ =~= pattern_set(m, s, p, o));
                        r
                    },
                    None => {
                        let r = e.match_all();
                        assert(r@ =~= pattern_set(m, s, p, o));
                        r
                    },
                },
            },
        };
        Ok(res)
    }

    /// The triples of the node's environment that the node takes part in,
    /// in any role.
    pub fn ask_any(&self, node: Node) -> (res: TripleSet<'_, E>)
        requires
            self.wf(),
            self.envs().contains_key(node.env.0),
            self.envs()[node.env.0].model().valid_node(node.local),
        ensures
            *res.env == self.envs()[node.env.0],
            res.elements.wf(),
            ({
                let m = self.envs()[node.env.0].model();
                res@ == m.with_subject(node.local).union(m.with_predicate(node.local)).union(
                    m.with_object(node.local),
                )
            }),
    {
        let e = match self.env_ref(node.env()) {
            Some(e) => e,
            None => vstd::pervasive::unreached(),
        };
        proof {
            self.lemma_env_wf(node.env.0);
        }
        e.match_any(node.local())
    }

    /// The node that `original` was imported as into `target_env`, as a
    /// node of the current environment; `original` itself where it lies in
    /// `target_env` already.
    pub fn get_imported(&self, original: Node, target_env: LocalNode) -> (res: Option<Node>)
        requires
            self.wf(),
            self.meta_env().model().valid_node(target_env),
            self.meta_env().model().valid_node(self.spec_meta_context().imports),
            self.meta_env().model().valid_node(self.spec_meta_context().import_table),
            self.meta_env().model().valid_node(original.env),
            import_table_unique(
                self.meta_env().model(),
                target_env,
                self.spec_meta_context().imports,
                self.spec_meta_context().import_table,
                original.env,
            ),
        ensures
            original.env == target_env ==> res == Some(original),
            original.env != target_env ==> res == (match imported_in(
                self.meta_env().model(),
                target_env,
                self.spec_meta_context().imports,
                self.spec_meta_context().import_table,
                original,
            ) {
                Some(l) => Some(Node { env: self.spec_env(), local: l }),
                None => None,
            }),
    {
        if original.env().id() == target_env.id() {
            return Some(original);
        }
        let meta = self.meta.base();
        proof {
            assert(self.envs().contains_key(0));
            self.lemma_env_wf(0);
        }
        let table_node = match find_import_table(
            meta,
            target_env,
            self.meta_context.imports,
            original.env(),
            self.meta_context.import_table,
        ) {
            Some(n) => n,
            None => {
                return None;
            },
        };
        proof {
            meta.lemma_wf_bounds();
            let m = meta.model();
            let t = import_triple_of(m, target_env, self.meta_context.imports, original.env)->0;
            lemma_table_node_valid(m, t, self.meta_context.import_table);
        }
        let entry = meta.entry(table_node);
        match entry.as_option() {
            Some(Sexp::Primitive(Primitive::LocalNodeTable(table))) => match table.lookup(
                &original.local(),
            ) {
                Some(imported) => Some(self.globalize(imported)),
                None => None,
            },
            _ => None,
        }
    }
}

/// What an import of `original` from state `before` gives, as far as a
/// later import of it relies on: a node of the current environment that the
/// meta environment records as imported, and, where `original` was imported
/// already, that node with no change.
pub open spec fn import_done<E: Environment>(
    before: EnvState<E>,
    original: Node,
    after: EnvState<E>,
    res: Result<Node, LangError>,
) -> bool {
    &&& after.same_place(&before)
    &&& original.env != before.spec_env() ==> (imported_in(
        before.meta_env().model(),
        before.spec_env(),
        before.spec_meta_context().imports,
        before.spec_meta_context().import_table,
        original,
    ) matches Some(l) ==> res == Ok::<Node, LangError>(Node { env: before.spec_env(), local: l })
        && after.envs() == before.envs())
    &&& original.env != before.spec_env() ==> (res matches Ok(g) ==> g.env == before.spec_env()
        && imported_in(
        after.meta_env().model(),
        before.spec_env(),
        before.spec_meta_context().imports,
        before.spec_meta_context().import_table,
        original,
    ) == Some(g.local))
}

/// Importing a node a second time gives the node of the first import and
/// changes nothing.
pub proof fn lemma_import_twice<E: Environment>(
    s0: EnvState<E>,
    s1: EnvState<E>,
    s2: EnvState<E>,
    original: Node,
    r1: Result<Node, LangError>,
    r2: Result<Node, LangError>,
)
    requires
        original.env != s0.spec_env(),
        import_done(s0, original, s1, r1),
        import_done(s1, original, s2, r2),
        r1 is Ok,
    ensures
        r2 == r1,
        s2.envs() == s1.envs(),
        s2.same_place(&s1),
{
}

/// A triple is told only where no equal triple is there, so telling keeps
/// the triples of an environment distinct.
pub proof fn lemma_tell_keeps_distinct(m: EnvModel, s: LocalNode, p: LocalNode, o: LocalNode)
    requires
        m.triples.len() < crate::env::mem_backend::index_id_conv::triple_bit(),
        forall|i: int, j: int| 0 <= i < j < m.triples.len() ==> m.triples[i] != m.triples[j],
        m.matching(s, p, o).is_empty(),
    ensures
        ({
            let m2 = m.with_triple(s, p, o);
            forall|i: int, j: int| 0 <= i < j < m2.triples.len() ==> m2.triples[i] != m2.triples[j]
        }),
{
    let m2 = m.with_triple(s, p, o);
    assert forall|i: int, j: int| 0 <= i < j < m2.triples.len() implies m2.triples[i] != m2.triples[j] by {
        if j == m.triples.len() && m2.triples[i] == m2.triples[j] {
            let t = crate::env::environment::triple_at(i);
            crate::env::mem_env::lemma_triple_at(i);
            assert(m.matching(s, p, o).contains(t));
        }
    }
}

/// Naming a node makes its name resolve to it: where no environment of the
/// designation chain holds `name`, and the current environment, which is in
/// the chain, then holds `name` for `g` in its table of names, resolution
/// finds `g`.
pub proof fn lemma_name_then_resolve<E: Environment>(
    chain: Seq<LocalNode>,
    envs: Map<u64, E>,
    envs2: Map<u64, E>,
    cur: LocalNode,
    name: Seq<char>,
    g: Node,
)
    requires
        lookup_chain(chain, envs, name) is None,
        chain.contains(cur),
        forall|id: u64| id != cur.0 && #[trigger] envs.contains_key(id) ==> envs2.contains_key(id)
            && envs2[id] == envs[id],
        envs2.contains_key(cur.0),
        envs.contains_key(cur.0),
        name_added(envs[cur.0].model(), envs2[cur.0].model(), name, g),
        forall|i: int| 0 <= i < chain.len() ==> envs.contains_key((#[trigger] chain[i]).0),
    ensures
        lookup_chain(chain, envs2, name) == Some(g),
    decreases chain.len(),
{
    if chain[0] == cur {
    } else {
        assert(envs2[chain[0].0] == envs[chain[0].0]);
        let rest = chain.drop_first();
        assert(rest.contains(cur)) by {
            let k = choose|k: int| 0 <= k < chain.len() && chain[k] == cur;
            assert(rest[k - 1] == cur);
        }
        assert forall|i: int| 0 <= i < rest.len() implies envs.contains_key((#[trigger] rest[i]).0) by {
            assert(rest[i] == chain[i + 1]);
        }
        lemma_name_then_resolve(rest, envs, envs2, cur, name, g);
    }
}

/// A told triple is there: telling it again is refused as a duplicate.
pub proof fn lemma_tell_twice(m: EnvModel, s: LocalNode, p: LocalNode, o: LocalNode)
    requires
        m.triples.len() < crate::env::mem_backend::index_id_conv::triple_bit(),
    ensures
        m.with_triple(s, p, o).matching(s, p, o).contains(
            crate::env::environment::triple_at(m.triples.len() as int),
        ),
        !m.with_triple(s, p, o).matching(s, p, o).is_empty(),
{
    crate::env::mem_env::lemma_triple_at(m.triples.len() as int);
}

/// What a node means where it is read: the list of its parts for a triple
/// of the current environment, else its structure, or the node itself where
/// it has none.
pub open spec fn node_meaning<E: Environment>(s: EnvState<E>, n: Node) -> Sexp {
    if spec_is_triple_id(n.local.0) {
        let c = s.current().model();
        let t = LocalTriple(n.local);
        triple_sexp(s.spec_env(), c.subject_of(t), c.predicate_of(t), c.object_of(t))
    } else {
        match s.envs()[n.env.0].model().structure_of(n.local) {
            Some(x) => x,
            None => node_sexp(n),
        }
    }
}

/// What telling the triple `(subject predicate object)` in state `before`
/// leaves: a duplicate is refused and nothing changes; otherwise the triple
/// is appended to the current environment and its node is the result.
pub open spec fn tell_outcome<E: Environment>(
    before: EnvState<E>,
    subject: LocalNode,
    predicate: LocalNode,
    object: LocalNode,
    after: EnvState<E>,
    res: Result<Sexp, LangError>,
) -> bool {
    let m = before.current().model();
    &&& after.wf()
    &&& after.same_place(&before)
    &&& !m.matching(subject, predicate, object).is_empty() ==> (res == Err::<Sexp, LangError>(
        LangError::DuplicateTriple(triple_sexp(before.spec_env(), subject, predicate, object)),
    ) && after.envs() == before.envs())
    &&& m.matching(subject, predicate, object).is_empty() ==> (res == Ok::<Sexp, LangError>(
        node_sexp(
            Node {
                env: before.spec_env(),
                local: crate::env::environment::triple_at(m.triples.len() as int).0,
            },
        ),
    ) && after.envs().dom() =~= before.envs().dom() && (forall|id: u64|
        id != before.spec_env().0 && #[trigger] before.envs().contains_key(id) ==> after.envs()[id]
            == before.envs()[id]) && after.current().model() == m.with_triple(
        subject,
        predicate,
        object,
    ))
}

/// What asking for the pattern `(subject predicate object)` in state
/// `before` gives: the list of the nodes of the matching triples, in the
/// order of their ids.
pub open spec fn ask_outcome<E: Environment>(
    before: EnvState<E>,
    subject: LocalNode,
    predicate: LocalNode,
    object: LocalNode,
    res: Result<Sexp, LangError>,
) -> bool {
    res matches Ok(l) && exists|ids: Seq<LocalTriple>|
        increasing(ids) && ids.to_set() == ask_set(
            before.current().model(),
            subject,
            predicate,
            object,
            before.spec_context().placeholder,
        ) && l == triple_nodes_list(before.spec_env(), ids)
}

/// What importing `original` in state `before` gives: a refusal for a node
/// of the current environment, a failure exactly where the import table is
/// broken, and otherwise the node recorded as imported.
pub open spec fn import_outcome<E: Environment>(
    before: EnvState<E>,
    original: Node,
    after: EnvState<E>,
    res: Result<Node, LangError>,
) -> bool {
    let mc = before.spec_meta_context();
    let mm0 = before.meta_env().model();
    let mm1 = after.meta_env().model();
    &&& after.wf()
    &&& import_done(before, original, after, res)
    &&& after.envs().dom() =~= before.envs().dom()
    &&& import_table_unique(mm1, before.spec_env(), mc.imports, mc.import_table, original.env)
    &&& mm0.nodes.len() <= mm1.nodes.len() <= mm0.nodes.len() + 2
    &&& mm0.triples.len() <= mm1.triples.len() <= mm0.triples.len() + 2
    &&& before.current().model().nodes.len() <= after.current().model().nodes.len()
        <= before.current().model().nodes.len() + 2
    &&& original.env == before.spec_env() ==> (res matches Err(
        LangError::InvalidArgument { given, expected },
    ) && given == node_sexp(original) && expected@ == "Node outside of current env"@ && after
        == before)
    &&& original.env != before.spec_env() ==> (res is Err <==> import_table_broken(
        before.meta_env().model(),
        before.spec_env(),
        mc.imports,
        mc.import_table,
        original.env,
    ))
}

/// What a search for the environment stored at a path ending with `s`
/// gives: nothing where no path record matches, else the subject of the
/// first matching record.
pub open spec fn env_found(m: EnvModel, serialize_path: LocalNode, s: Seq<char>, res: Option<
    LocalNode,
>) -> bool {
    &&& res is None <==> forall|t: LocalTriple| !records_path(m, serialize_path, s, t)
    &&& res matches Some(n) ==> exists|t: LocalTriple|
        records_path(m, serialize_path, s, t) && (forall|u: LocalTriple|
            records_path(m, serialize_path, s, u) ==> t.0.0 <= u.0.0) && n == m.subject_of(t)
}

/// What designating `p` in state `s` gives: a symbol the node it names
/// along the designation chain, a node what it means, anything else itself.
pub open spec fn designated<E: Environment>(
    s: EnvState<E>,
    p: Primitive,
    res: Result<Sexp, LangError>,
) -> bool {
    match p {
        Primitive::Symbol(sym) => match lookup_chain(s.spec_chain(), s.envs(), sym@) {
            Some(n) => res == Ok::<Sexp, LangError>(node_sexp(n)),
            None => res == Err::<Sexp, LangError>(LangError::UnboundSymbol(sym)),
        },
        Primitive::Node(n) => res == Ok::<Sexp, LangError>(node_meaning(s, n)),
        other => res == Ok::<Sexp, LangError>(Sexp::Primitive(other)),
    }
}

/// Whether state `s` admits an import of `original` with room for `room`
/// more nodes and triples in the meta environment and nodes in the current
/// one.
pub open spec fn import_ready<E: Environment>(s: EnvState<E>, original: Node, room: nat) -> bool {
    let mm = s.meta_env().model();
    let mc = s.spec_meta_context();
    &&& s.wf()
    &&& s.has_current()
    &&& mm.valid_node(s.spec_env())
    &&& mm.valid_node(mc.imports)
    &&& mm.valid_node(mc.import_table)
    &&& mm.valid_node(original.env)
    &&& import_table_unique(mm, s.spec_env(), mc.imports, mc.import_table, original.env)
    &&& mm.nodes.len() + room < crate::env::mem_backend::index_id_conv::triple_bit()
    &&& mm.triples.len() + room < crate::env::mem_backend::index_id_conv::triple_bit()
    &&& s.current().model().nodes.len() + room
        < crate::env::mem_backend::index_id_conv::triple_bit()
}

/// Importing a node of another environment, where there is room for two
/// imports: the state after the first import admits a second one, which
/// gives the node of the first and changes nothing.
pub proof fn lemma_import_again<E: Environment>(
    s0: EnvState<E>,
    s1: EnvState<E>,
    s2: EnvState<E>,
    original: Node,
    r1: Result<Node, LangError>,
    r2: Result<Node, LangError>,
)
    requires
        import_ready(s0, original, 4),
        original.env != s0.spec_env(),
        import_outcome(s0, original, s1, r1),
        r1 is Ok,
        import_outcome(s1, original, s2, r2),
    ensures
        import_ready(s1, original, 2),
        r2 == r1,
        s2.envs() == s1.envs(),
        s2.same_place(&s1),
{
    assert(s1.same_place(&s0));
    assert(s1.envs().dom() =~= s0.envs().dom());
    lemma_import_twice(s0, s1, s2, original, r1, r2);
}

/// Telling never leaves two equal triples in the current environment: the
/// triples stay distinct whatever `tell` answers.
pub proof fn lemma_tell_state_keeps_distinct<E: Environment>(
    s0: EnvState<E>,
    s1: EnvState<E>,
    subject: LocalNode,
    predicate: LocalNode,
    object: LocalNode,
    res: Result<Sexp, LangError>,
)
    requires
        s0.has_current(),
        s0.current().model().triples.len() < crate::env::mem_backend::index_id_conv::triple_bit(),
        forall|i: int, j: int|
            0 <= i < j < s0.current().model().triples.len() ==> s0.current().model().triples[i]
                != s0.current().model().triples[j],
        tell_outcome(s0, subject, predicate, object, s1, res),
    ensures
        forall|i: int, j: int|
            0 <= i < j < s1.current().model().triples.len() ==> s1.current().model().triples[i]
                != s1.current().model().triples[j],
{
    let m = s0.current().model();
    if m.matching(subject, predicate, object).is_empty() {
        lemma_tell_keeps_distinct(m, subject, predicate, object);
    }
}


/// Whether the table of names of environment `l` holds `name`.
pub open spec fn holds_name<E: Environment>(envs: Map<u64, E>, l: LocalNode, name: Seq<char>) -> bool {
    names_of(envs[l.0].model()) matches Some(t) && t.contains_key(name)
}

/// A name resolves to the node that the first environment of the chain
/// holding it names it by: earlier environments that do not hold it are
/// passed over, later ones are not looked at.
pub proof fn lemma_lookup_first_holder<E: Environment>(
    chain: Seq<LocalNode>,
    envs: Map<u64, E>,
    name: Seq<char>,
    i: int,
)
    requires
        0 <= i < chain.len(),
        holds_name(envs, chain[i], name),
        forall|j: int| 0 <= j < i ==> !holds_name(envs, #[trigger] chain[j], name),
    ensures
        lookup_chain(chain, envs, name) == Some(names_of(envs[chain[i].0].model())->0[name]),
    decreases i,
{
    if i > 0 {
        assert(!holds_name(envs, chain[0], name));
        let rest = chain.drop_first();
        assert forall|j: int| 0 <= j < i - 1 implies !holds_name(envs, #[trigger] rest[j], name) by {
            assert(rest[j] == chain[j + 1]);
        }
        assert(rest[i - 1] == chain[i]);
        lemma_lookup_first_holder(rest, envs, name, i - 1);
    }
}

/// A name that no environment of the chain holds is unbound.
pub proof fn lemma_lookup_no_holder<E: Environment>(
    chain: Seq<LocalNode>,
    envs: Map<u64, E>,
    name: Seq<char>,
)
    requires
        forall|j: int| 0 <= j < chain.len() ==> !holds_name(envs, #[trigger] chain[j], name),
    ensures
        lookup_chain(chain, envs, name) is None,
    decreases chain.len(),
{
    if chain.len() > 0 {
        assert(!holds_name(envs, chain[0], name));
        let rest = chain.drop_first();
        assert forall|j: int| 0 <= j < rest.len() implies !holds_name(envs, #[trigger] rest[j], name) by {
            assert(rest[j] == chain[j + 1]);
        }
        lemma_lookup_no_holder(rest, envs, name);
    }
}

/// What `ask` finds matches the pattern: its triples are triples of the
/// environment whose subject, predicate and object are those asked for,
/// wherever the placeholder does not stand. With a placeholder somewhere,
/// every triple that matches is found; with none, the one found is the
/// first matching triple, and one is found exactly where one matches.
pub proof fn lemma_ask_matches(
    m: EnvModel,
    s: LocalNode,
    p: LocalNode,
    o: LocalNode,
    ph: LocalNode,
    t: LocalTriple,
)
    requires
        m.triples.len() <= crate::env::mem_backend::index_id_conv::triple_bit(),
    ensures
        ask_set(m, s, p, o, ph).contains(t) ==> {
            &&& m.is_triple(t)
            &&& s != ph ==> m.subject_of(t) == s
            &&& p != ph ==> m.predicate_of(t) == p
            &&& o != ph ==> m.object_of(t) == o
        },
        (s == ph || p == ph || o == ph) ==> ({
            &&& m.is_triple(t)
            &&& s != ph ==> m.subject_of(t) == s
            &&& p != ph ==> m.predicate_of(t) == p
            &&& o != ph ==> m.object_of(t) == o
        } ==> ask_set(m, s, p, o, ph).contains(t)),
        (s != ph && p != ph && o != ph) ==> (ask_set(m, s, p, o, ph).contains(t) ==> forall|u: LocalTriple|
            m.is_triple(u) && m.subject_of(u) == s && m.predicate_of(u) == p && m.object_of(u) == o
                ==> t.0.0 <= u.0.0),
        (s != ph && p != ph && o != ph) ==> ((m.is_triple(t) && m.subject_of(t) == s
            && m.predicate_of(t) == p && m.object_of(t) == o) ==> !ask_set(m, s, p, o, ph).is_empty()),
{
    if s != ph && p != ph && o != ph {
        let ms = m.matching(s, p, o);
        if !ms.is_empty() {
            lemma_roles_finite(m, s);
            assert(ms.subset_of(m.with_subject(s)));
            vstd::set_lib::lemma_len_subset(ms, m.with_subject(s));
            lemma_first_triple(ms);
            assert forall|u: LocalTriple|
                m.is_triple(u) && m.subject_of(u) == s && m.predicate_of(u) == p && m.object_of(u)
                    == o implies first_triple(ms).0.0 <= u.0.0 by {
                assert(ms.contains(u));
            }
        }
        if m.is_triple(t) && m.subject_of(t) == s && m.predicate_of(t) == p && m.object_of(t) == o {
            assert(ms.contains(t));
        }
    }
}

} // verus!
