//! Nodes of the language environment that agents interpret structures by.

use vstd::prelude::*;

use crate::env::local_node::LocalNode;
use crate::primitive::Node;

verus! {

/// The nodes of the language environment, by their role.
#[derive(Clone, Copy, Debug, PartialEq, Eq)]
pub struct AmlangContext {
    pub node: Node,
    pub quote: LocalNode,
    pub lambda: LocalNode,
    pub fexpr: LocalNode,
    pub def: LocalNode,
    pub tell: LocalNode,
    pub curr: LocalNode,
    pub jump: LocalNode,
    pub ask: LocalNode,
    pub placeholder: LocalNode,
    pub apply: LocalNode,
    pub eval: LocalNode,
    pub exec_node: LocalNode,
    pub import: LocalNode,
    pub progn: LocalNode,
    pub branch: LocalNode,
    pub let_basic: LocalNode,
    pub let_rec: LocalNode,
    pub env_find: LocalNode,
    pub env_jump: LocalNode,
    pub t: LocalNode,
    pub f: LocalNode,
    pub eq: LocalNode,
    pub sym_node_table: LocalNode,
    pub sym_sexp_table: LocalNode,
    pub local_node_table: LocalNode,
    pub vector: LocalNode,
    pub set: LocalNode,
    pub anon: LocalNode,
    pub self_ref: LocalNode,
}

impl AmlangContext {
    /// The node of the context itself.
    pub fn node(&self) -> (res: &Node)
        ensures
            *res == self.node,
    {
        &self.node
    }

    pub fn quote(&self) -> (res: &LocalNode)
        ensures
            *res == self.quote,
    {
        &self.quote
    }

    pub fn lambda(&self) -> (res: &LocalNode)
        ensures
            *res == self.lambda,
    {
        &self.lambda
    }

    pub fn fexpr(&self) -> (res: &LocalNode)
        ensures
            *res == self.fexpr,
    {
        &self.fexpr
    }

    pub fn def(&self) -> (res: &LocalNode)
        ensures
            *res == self.def,
    {
        &self.def
    }

    pub fn tell(&self) -> (res: &LocalNode)
        ensures
            *res == self.tell,
    {
        &self.tell
    }

    pub fn curr(&self) -> (res: &LocalNode)
        ensures
            *res == self.curr,
    {
        &self.curr
    }

    pub fn jump(&self) -> (res: &LocalNode)
        ensures
            *res == self.jump,
    {
        &self.jump
    }

    pub fn ask(&self) -> (res: &LocalNode)
        ensures
            *res == self.ask,
    {
        &self.ask
    }

    pub fn placeholder(&self) -> (res: &LocalNode)
        ensures
            *res == self.placeholder,
    {
        &self.placeholder
    }

    pub fn apply(&self) -> (res: &LocalNode)
        ensures
            *res == self.apply,
    {
        &self.apply
    }

    pub fn eval(&self) -> (res: &LocalNode)
        ensures
            *res == self.eval,
    {
        &self.eval
    }

    pub fn exec_node(&self) -> (res: &LocalNode)
        ensures
            *res == self.exec_node,
    {
        &self.exec_node
    }

    pub fn import(&self) -> (res: &LocalNode)
        ensures
            *res == self.import,
    {
        &self.import
    }

    pub fn progn(&self) -> (res: &LocalNode)
        ensures
            *res == self.progn,
    {
        &self.progn
    }

    pub fn branch(&self) -> (res: &LocalNode)
        ensures
            *res == self.branch,
    {
        &self.branch
    }

    pub fn let_basic(&self) -> (res: &LocalNode)
        ensures
            *res == self.let_basic,
    {
        &self.let_basic
    }

    pub fn let_rec(&self) -> (res: &LocalNode)
        ensures
            *res == self.let_rec,
    {
        &self.let_rec
    }

    pub fn env_find(&self) -> (res: &LocalNode)
        ensures
            *res == self.env_find,
    {
        &self.env_find
    }

    pub fn env_jump(&self) -> (res: &LocalNode)
        ensures
            *res == self.env_jump,
    {
        &self.env_jump
    }

    pub fn t(&self) -> (res: &LocalNode)
        ensures
            *res == self.t,
    {
        &self.t
    }

    pub fn f(&self) -> (res: &LocalNode)
        ensures
            *res == self.f,
    {
        &self.f
    }

    pub fn eq(&self) -> (res: &LocalNode)
        ensures
            *res == self.eq,
    {
        &self.eq
    }

    pub fn sym_node_table(&self) -> (res: &LocalNode)
        ensures
            *res == self.sym_node_table,
    {
        &self.sym_node_table
    }

    pub fn sym_sexp_table(&self) -> (res: &LocalNode)
        ensures
            *res == self.sym_sexp_table,
    {
        &self.sym_sexp_table
    }

    pub fn local_node_table(&self) -> (res: &LocalNode)
        ensures
            *res == self.local_node_table,
    {
        &self.local_node_table
    }

    pub fn vector(&self) -> (res: &LocalNode)
        ensures
            *res == self.vector,
    {
        &self.vector
    }

    pub fn set(&self) -> (res: &LocalNode)
        ensures
            *res == self.set,
    {
        &self.set
    }

    pub fn anon(&self) -> (res: &LocalNode)
        ensures
            *res == self.anon,
    {
        &self.anon
    }

    pub fn self_ref(&self) -> (res: &LocalNode)
        ensures
            *res == self.self_ref,
    {
        &self.self_ref
    }
}

} // verus!
