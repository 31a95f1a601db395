//! Abstraction of the ownership semantics of Environment accesses.
//!
//! An Entry either borrows a node's structure from its Environment or owns a
//! copy of it. An EntryMut owns a copy that the Environment takes back with
//! `entry_update` (or `EntryMut::update`).

use vstd::prelude::*;

use crate::env::environment::Environment;
use crate::env::local_node::LocalNode;
use crate::env::mem_backend::index_id_conv::spec_is_triple_id;
use crate::sexp::{clone_sexp, Sexp};

verus! {

pub struct Entry<'a> {
    kind: EntryKind<'a>,
}

#[derive(Debug, PartialEq)]
pub enum EntryKind<'a> {
    Atomic,
    Borrowed(&'a Sexp),
    Owned(Sexp),
}

/// Mutable entry that the Environment takes back through `entry_update`.
#[derive(Debug)]
pub struct EntryMut {
    node: LocalNode,
    kind: EntryMutKind,
}

#[derive(Debug, PartialEq)]
pub enum EntryMutKind {
    Atomic,
    Owned(Sexp),
}

/// The structure an entry kind presents, if any.
pub open spec fn kind_structure(kind: EntryKind) -> Option<Sexp> {
    match kind {
        EntryKind::Atomic => None,
        EntryKind::Borrowed(s) => Some(*s),
        EntryKind::Owned(s) => Some(s),
    }
}

/// The structure a mutable entry kind presents, if any.
pub open spec fn mut_kind_structure(kind: EntryMutKind) -> Option<Sexp> {
    match kind {
        EntryMutKind::Atomic => None,
        EntryMutKind::Owned(s) => Some(s),
    }
}

impl<'a> Entry<'a> {
    /// The structure this entry presents, if any.
    pub closed spec fn structure_option(&self) -> Option<Sexp> {
        kind_structure(self.kind)
    }

    pub fn new(kind: EntryKind<'a>) -> (res: Self)
        ensures
            res.structure_option() == kind_structure(kind),
    {
        Self { kind }
    }

    pub fn kind(&self) -> (res: &EntryKind<'a>)
        ensures
            kind_structure(*res) == self.structure_option(),
    {
        &self.kind
    }

    /// Similar to Option::unwrap, but ties reference ownership back to
    /// &self, since Entries may own the structures in some impls.
    pub fn structure(&self) -> (res: &Sexp)
        requires
            self.structure_option() is Some,
        ensures
            Some(*res) == self.structure_option(),
    {
        match &self.kind {
            EntryKind::Borrowed(sexp) => sexp,
            EntryKind::Owned(sexp) => sexp,
            EntryKind::Atomic => vstd::pervasive::unreached(),
        }
    }

    /// Presents an Option, but ties reference ownership back to &self.
    pub fn as_option(&self) -> (res: Option<&Sexp>)
        ensures
            res is None <==> self.structure_option() is None,
            res matches Some(s) ==> Some(*s) == self.structure_option(),
    {
        match &self.kind {
            EntryKind::Atomic => None,
            EntryKind::Borrowed(sexp) => Some(*sexp),
            EntryKind::Owned(sexp) => Some(sexp),
        }
    }

    /// Presents an Option with ownership.
    pub fn owned(self) -> (res: Option<Sexp>)
        ensures
            res == self.structure_option(),
    {
        match self.kind {
            EntryKind::Atomic => None,
            EntryKind::Borrowed(sexp) => Some(clone_sexp(sexp)),
            EntryKind::Owned(sexp) => Some(sexp),
        }
    }
}

impl EntryMut {
    /// The node this entry belongs to.
    pub closed spec fn spec_node(&self) -> LocalNode {
        self.node
    }

    /// The structure this entry holds, if any.
    pub closed spec fn structure_option(&self) -> Option<Sexp> {
        mut_kind_structure(self.kind)
    }

    pub fn new(node: LocalNode, kind: EntryMutKind) -> (res: Self)
        ensures
            res.spec_node() == node,
            res.structure_option() == mut_kind_structure(kind),
    {
        Self { node, kind }
    }

    pub fn consume(self) -> (res: (LocalNode, EntryMutKind))
        ensures
            res.0 == self.spec_node(),
            mut_kind_structure(res.1) == self.structure_option(),
    {
        (self.node, self.kind)
    }

    pub fn node(&self) -> (res: LocalNode)
        ensures
            res == self.spec_node(),
    {
        self.node
    }

    /// Stores the entry's structure back into its node of `env`, and
    /// returns the node.
    pub fn update<E: Environment>(self, env: &mut E) -> (res: LocalNode)
        requires
            old(env).wf(),
            !spec_is_triple_id(self.spec_node().0),
            self.spec_node().0 < old(env).model().nodes.len(),
        ensures
            final(env).wf(),
            res == self.spec_node(),
            final(env).model() == old(env).model().with_structure(
                self.spec_node(),
                self.structure_option(),
            ),
    {
        env.entry_update(self)
    }

    pub fn kind(&self) -> (res: &EntryMutKind)
        ensures
            mut_kind_structure(*res) == self.structure_option(),
    {
        &self.kind
    }

    pub fn kind_mut(&mut self) -> (res: &mut EntryMutKind)
        ensures
            mut_kind_structure(*res) == old(self).structure_option(),
            final(self).spec_node() == old(self).spec_node(),
            final(self).structure_option() == mut_kind_structure(*final(res)),
    {
        &mut self.kind
    }

    /// Similar to Option::unwrap, but ties reference ownership back to
    /// &mut self.
    pub fn structure(&mut self) -> (res: &mut Sexp)
        requires
            old(self).structure_option() is Some,
        ensures
            Some(*res) == old(self).structure_option(),
            final(self).spec_node() == old(self).spec_node(),
            final(self).structure_option() == Some(*final(res)),
    {
        match &mut self.kind {
            EntryMutKind::Owned(sexp) => sexp,
            EntryMutKind::Atomic => vstd::pervasive::unreached(),
        }
    }

    /// Presents an Option, but ties reference ownership back to &mut self.
    pub fn as_option(&mut self) -> (res: Option<&mut Sexp>)
        ensures
            res is None <==> old(self).structure_option() is None,
            res matches Some(s) ==> Some(*s) == old(self).structure_option(),
            final(self).spec_node() == old(self).spec_node(),
            res is None ==> final(self).structure_option() is None,
            res matches Some(s) ==> final(self).structure_option() == Some(*final(s)),
    {
        match &mut self.kind {
            EntryMutKind::Atomic => None,
            EntryMutKind::Owned(sexp) => Some(sexp),
        }
    }
}

} // verus!
