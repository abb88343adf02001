use vstd::prelude::*;
use crate::address::{Address, AgentKey};

verus! {

/// An index link: from an owner, to a content address, under a link type.
pub struct Edge {
    pub owner: AgentKey,
    pub target: Address,
    pub tag: u8,
}

pub type EdgeView = (Seq<u8>, Seq<u8>, u8);

impl View for Edge {
    type V = EdgeView;

    open spec fn view(&self) -> EdgeView {
        (self.owner@, self.target@, self.tag)
    }
}

/// The targets of the links from `owner` under `tag`, in the order the links
/// were added.
pub open spec fn targets_of(edges: Seq<EdgeView>, owner: Seq<u8>, tag: u8) -> Seq<Seq<u8>>
    decreases edges.len(),
{
    if edges.len() == 0 {
        Seq::empty()
    } else {
        let rest = targets_of(edges.drop_last(), owner, tag);
        let e = edges.last();
        if e.0 == owner && e.2 == tag {
            rest.push(e.1)
        } else {
            rest
        }
    }
}

/// The views of a sequence of addresses.
pub open spec fn addresses_view(v: Seq<Address>) -> Seq<Seq<u8>> {
    v.map_values(|a: Address| a@)
}

/// An append-only list of index links.
pub struct OwnerIndex {
    edges: Vec<Edge>,
}

impl View for OwnerIndex {
    type V = Seq<EdgeView>;

    closed spec fn view(&self) -> Seq<EdgeView> {
        self.edges@.map_values(|e: Edge| e@)
    }
}

impl OwnerIndex {
    pub fn new() -> (r: OwnerIndex)
        ensures
            r@ == Seq::<EdgeView>::empty(),
    {
        let r = OwnerIndex { edges: Vec::new() };
        assert(r@ =~= Seq::<EdgeView>::empty());
        r
    }

    /// Appends a link from `owner` to `target` under `tag`.
    pub fn add_edge(&mut self, owner: &AgentKey, target: &Address, tag: u8)
        ensures
            final(self)@ == old(self)@.push((owner@, target@, tag)),
    {
        self.edges.push(Edge { owner: owner.duplicate(), target: target.duplicate(), tag });
        assert(self@ =~= old(self)@.push((owner@, target@, tag)));
    }

    /// The targets of the links from `owner` under `tag`, in insertion order;
    /// empty where there are none.
    pub fn list_edges(&self, owner: &AgentKey, tag: u8) -> (r: Vec<Address>)
        ensures
            addresses_view(r@) == targets_of(self@, owner@, tag),
    {
        let mut r: Vec<Address> = Vec::new();
        let mut i: usize = 0;
        assert(self@.take(0) =~= Seq::<EdgeView>::empty());
        assert(addresses_view(r@) =~= Seq::<Seq<u8>>::empty());
        while i < self.edges.len()
            invariant
                i <= self.edges@.len(),
                self@.len() == self.edges@.len(),
                addresses_view(r@) == targets_of(self@.take(i as int), owner@, tag),
            decreases self.edges@.len() - i,
        {
            let e = &self.edges[i];
            assert(self@.take(i + 1).drop_last() =~= self@.take(i as int));
            assert(self@.take(i + 1).last() == e@);
            if e.owner.same(owner) && e.tag == tag {
                r.push(e.target.duplicate());
            }
            assert(addresses_view(r@) =~= targets_of(self@.take(i + 1), owner@, tag));
            i = i + 1;
        }
        assert(self@.take(i as int) =~= self@);
        r
    }
}

} // verus!
