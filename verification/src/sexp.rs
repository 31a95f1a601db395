//! S-expressions: the structures that nodes can hold.

use vstd::prelude::*;

use crate::primitive::{Number, Primitive, Symbol};

verus! {

/// A structure: either a primitive or a cons cell.
#[derive(Debug, PartialEq)]
pub enum Sexp {
    Primitive(Primitive),
    Cons(Cons),
}

/// A cons cell. The empty list is the cell with neither car nor cdr.
#[derive(Debug, PartialEq)]
pub struct Cons {
    pub car: Option<Box<Sexp>>,
    pub cdr: Option<Box<Sexp>>,
}

pub fn clone_sexp(s: &Sexp) -> (res: Sexp)
    ensures
        res == *s,
    decreases s,
{
    match s {
        Sexp::Primitive(p) => Sexp::Primitive(p.clone()),
        Sexp::Cons(c) => Sexp::Cons(clone_cons(c)),
    }
}

pub fn clone_cons(c: &Cons) -> (res: Cons)
    ensures
        res == *c,
    decreases c,
{
    let car = match &c.car {
        Some(b) => Some(Box::new(clone_sexp(b))),
        None => None,
    };
    let cdr = match &c.cdr {
        Some(b) => Some(Box::new(clone_sexp(b))),
        None => None,
    };
    Cons { car, cdr }
}

impl Clone for Sexp {
    fn clone(&self) -> (res: Sexp)
        ensures
            res == *self,
    {
        clone_sexp(self)
    }
}

impl Clone for Cons {
    fn clone(&self) -> (res: Cons)
        ensures
            res == *self,
    {
        clone_cons(self)
    }
}

/// The empty list.
pub open spec fn empty_list() -> Sexp {
    Sexp::Cons(Cons { car: None, cdr: None })
}

impl Default for Sexp {
    /// The empty list.
    fn default() -> (res: Sexp)
        ensures
            res == empty_list(),
    {
        Sexp::Cons(Cons { car: None, cdr: None })
    }
}

impl Cons {
    pub fn new(car: Option<Box<Sexp>>, cdr: Option<Box<Sexp>>) -> (res: Cons)
        ensures
            res.car == car,
            res.cdr == cdr,
    {
        Cons { car, cdr }
    }

    pub fn consume(self) -> (res: (Option<Box<Sexp>>, Option<Box<Sexp>>))
        ensures
            res.0 == self.car,
            res.1 == self.cdr,
    {
        (self.car, self.cdr)
    }
}

/// The proper list holding the given elements in order.
pub open spec fn spec_list(elems: Seq<Sexp>) -> Sexp
    decreases elems.len(),
{
    if elems.len() == 0 {
        Sexp::Cons(Cons { car: None, cdr: None })
    } else {
        Sexp::Cons(
            Cons {
                car: Some(Box::new(elems[0])),
                cdr: if elems.len() == 1 {
                    None
                } else {
                    Some(Box::new(spec_list(elems.drop_first())))
                },
            },
        )
    }
}

/// The elements of a list: the cars along the chain of cons cells, up to
/// the first cell without a car or without a cell after it.
pub open spec fn list_elems(s: Sexp) -> Seq<Sexp>
    decreases s,
{
    match s {
        Sexp::Cons(c) => match c.car {
            None => Seq::empty(),
            Some(a) => seq![*a] + match c.cdr {
                Some(d) => list_elems(*d),
                None => Seq::empty(),
            },
        },
        Sexp::Primitive(_) => Seq::empty(),
    }
}

/// The elements of a proper list are the ones it was made of.
pub proof fn lemma_list_elems(elems: Seq<Sexp>)
    ensures
        list_elems(spec_list(elems)) == elems,
    decreases elems.len(),
{
    if elems.len() > 1 {
        lemma_list_elems(elems.drop_first());
        assert(seq![elems[0]] + elems.drop_first() =~= elems);
    } else if elems.len() == 1 {
        assert(seq![elems[0]] + Seq::<Sexp>::empty() =~= elems);
    }
}

/// Copies of the elements of a list.
pub fn list_elements(s: &Sexp) -> (res: Vec<Sexp>)
    ensures
        res@ == list_elems(*s),
    decreases s,
{
    match s {
        Sexp::Cons(c) => match &c.car {
            None => Vec::new(),
            Some(a) => {
                let mut out: Vec<Sexp> = Vec::new();
                out.push(clone_sexp(a));
                let rest = match &c.cdr {
                    Some(d) => list_elements(d),
                    None => Vec::new(),
                };
                let ghost first = out@;
                let mut rest = rest;
                out.append(&mut rest);
                out
            },
        },
        Sexp::Primitive(_) => Vec::new(),
    }
}

} // verus!
