//! Per-context designators: bijections between names and nodes,
//! backed by the `bimap` crate.

use vstd::prelude::*;

use bimap::BiHashMap;

verus! {

#[verifier::external_type_specification]
#[verifier::external_body]
#[verifier::reject_recursive_types(L)]
#[verifier::reject_recursive_types(R)]
#[verifier::reject_recursive_types(LS)]
#[verifier::reject_recursive_types(RS)]
pub struct ExBiHashMap<L, R, LS, RS>(BiHashMap<L, R, LS, RS>);

/// Key of a node in a designator: the ids of its environment and of the
/// node within that environment.
pub type NodeKey = (u64, u64);

/// A designator: a bijection between names and nodes.
pub type Designator = BiHashMap<String, NodeKey>;

/// Contents of a designator, from name to node key.
pub type Names = Map<Seq<char>, NodeKey>;

/// The pairs held by a designator, from name to node key.
pub uninterp spec fn designator_contents(d: Designator) -> Map<Seq<char>, (u64, u64)>;

/// The names that `m` maps to `right`.
pub open spec fn names_of(m: Names, right: NodeKey) -> Set<Seq<char>> {
    Set::new(|k: Seq<char>| m.contains_key(k) && m[k] == right)
}

/// Inserting a pair into a bijection: any pair that shares its left or its
/// right side is removed first.
pub open spec fn bimap_insert(m: Names, left: Seq<char>, right: NodeKey) -> Names {
    m.remove_keys(names_of(m, right)).remove(left).insert(left, right)
}

/// Whether no two names map to the same node.
pub open spec fn injective(m: Names) -> bool {
    forall|a: Seq<char>, b: Seq<char>|
        m.contains_key(a) && m.contains_key(b) && #[trigger] m[a] == #[trigger] m[b] ==> a == b
}

pub proof fn lemma_bimap_insert_injective(m: Names, left: Seq<char>, right: NodeKey)
    requires
        injective(m),
    ensures
        injective(bimap_insert(m, left, right)),
        bimap_insert(m, left, right).contains_key(left),
        bimap_insert(m, left, right)[left] == right,
{
}

/// `BiHashMap::new`: an empty bimap.
#[verifier::external_body]
pub fn designator_new() -> (res: Designator)
    ensures
        designator_contents(res).dom() == Set::<Seq<char>>::empty(),
{
    BiHashMap::new()
}

/// `BiHashMap::insert`: removes the pairs holding `left` or `right`, then
/// inserts the pair.
#[verifier::external_body]
pub fn designator_insert(d: &mut Designator, left: String, right: NodeKey)
    ensures
        designator_contents(*final(d)) == bimap_insert(designator_contents(*old(d)), left@, right),
{
    d.insert(left, right);
}

/// `BiHashMap::get_by_left`: the node that a name maps to.
#[verifier::external_body]
pub fn designator_get_by_left(d: &Designator, left: &String) -> (res: Option<NodeKey>)
    ensures
        designator_contents(*d).contains_key(left@) ==> res == Some(designator_contents(*d)[left@]),
        !designator_contents(*d).contains_key(left@) ==> res is None,
{
    d.get_by_left(left).copied()
}

/// `BiHashMap::get_by_right`: a name that maps to the node.
#[verifier::external_body]
pub fn designator_get_by_right<'a>(d: &'a Designator, right: NodeKey) -> (res: Option<
    &'a String,
>)
    ensures
        res matches Some(l) ==> designator_contents(*d).contains_key(l@)
            && designator_contents(*d)[l@] == right,
        res is None ==> names_of(designator_contents(*d), right) == Set::<Seq<char>>::empty(),
{
    d.get_by_right(&right)
}

/// `BiHashMap::iter`, collected: every pair exactly once, in arbitrary order.
#[verifier::external_body]
pub fn designator_iter<'a>(d: &'a Designator) -> (res: Vec<(&'a String, &'a NodeKey)>)
    ensures
        forall|i: int|
            0 <= i < res@.len() ==> designator_contents(*d).contains_key(#[trigger] res@[i].0@)
                && designator_contents(*d)[res@[i].0@] == *res@[i].1,
        forall|k: Seq<char>|
            designator_contents(*d).contains_key(k) ==> exists|i: int|
                0 <= i < res@.len() && #[trigger] res@[i].0@ == k,
        forall|i: int, j: int|
            0 <= i < j < res@.len() ==> (#[trigger] res@[i].0)@ != (#[trigger] res@[j].0)@,
{
    d.iter().collect()
}

} // verus!
