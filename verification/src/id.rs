use vstd::prelude::*;

verus! {

/// A process-local identifier for elements and connected clients.
/// Identifiers are only ever handed out by an [`IdGenerator`], which
/// issues them in strictly increasing order, so no two issued
/// identifiers are equal.
#[derive(PartialEq, Eq, Clone, Copy, Debug, Hash, Structural)]
pub struct Id(pub u64);

impl Id {
    pub fn new(value: u64) -> (id: Id)
        ensures
            id.0 == value,
    {
        Id(value)
    }
}

/// The single source of fresh identifiers for one process.
///
/// `next` only ever grows, and every identifier issued so far is
/// strictly below `next`; this is what makes identifiers unique.
/// Once `next` reaches `u64::MAX` the generator is exhausted and
/// refuses to issue further identifiers rather than reuse one.
#[derive(Debug, Clone, Copy)]
pub struct IdGenerator {
    pub next: u64,
}

impl IdGenerator {
    pub fn new() -> (g: IdGenerator)
        ensures
            g.next == 1,
    {
        IdGenerator { next: 1 }
    }

    /// Issues a fresh identifier: one equal to the old `next`, which no
    /// earlier call can have returned because `next` only grows.
    pub fn fresh(&mut self) -> (id: Id)
        requires
            old(self).next < u64::MAX,
        ensures
            id.0 == old(self).next,
            final(self).next == old(self).next + 1,
    {
        let id = Id(self.next);
        self.next = self.next + 1;
        id
    }

    /// True when the generator can still issue an identifier.
    pub fn can_issue(&self) -> (b: bool)
        ensures
            b == (self.next < u64::MAX),
    {
        self.next < u64::MAX
    }
}

/// All identifiers in `ids` were issued before `g.next` and are
/// pairwise distinct: the shape every live collection of generated
/// identifiers keeps.
pub open spec fn ids_generated(ids: Seq<Id>, g: IdGenerator) -> bool {
    &&& forall|i: int| 0 <= i < ids.len() ==> (#[trigger] ids[i]).0 < g.next
    &&& forall|i: int, j: int| 0 <= i < j < ids.len() ==> ids[i] != ids[j]
}

/// Issuing a fresh identifier preserves `ids_generated`: the new
/// identifier differs from every identifier issued before it.
pub proof fn lemma_fresh_id_unique(ids: Seq<Id>, g: IdGenerator, id: Id, g2: IdGenerator)
    requires
        ids_generated(ids, g),
        id.0 == g.next,
        g2.next > g.next,
    ensures
        ids_generated(ids.push(id), g2),
        forall|i: int| 0 <= i < ids.len() ==> ids[i] != id,
{
    assert forall|i: int| 0 <= i < ids.push(id).len() implies (#[trigger] ids.push(id)[i]).0
        < g2.next by {
        if i < ids.len() {
            assert(ids[i].0 < g.next);
        }
    }
}


/// A collection of issued identifiers stays well-formed as the
/// generator moves on.
pub proof fn lemma_ids_generated_mono(ids: Seq<Id>, g1: IdGenerator, g2: IdGenerator)
    requires
        ids_generated(ids, g1),
        g2.next >= g1.next,
    ensures
        ids_generated(ids, g2),
{
}


/// Identifiers issued consecutively from `start` are pairwise
/// distinct and all lie below any later value of the counter.
pub proof fn lemma_indexed_ids_generated(ids: Seq<Id>, start: int, g: IdGenerator)
    requires
        forall|i: int| 0 <= i < ids.len() ==> (#[trigger] ids[i]).0 == start + i,
        start + ids.len() <= g.next,
    ensures
        ids_generated(ids, g),
{
}

} // verus!
