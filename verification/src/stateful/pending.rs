//! The pending tips: merkleized batches of blocks that are not finalized yet.

use crate::map::UniqueMap;
use crate::types::{Digest, Round};
use vstd::prelude::*;

verus! {

/// Pending merkleized batches keyed by block digest, tagged with the round in
/// which they were produced.
pub struct Pending<const N: usize, M> {
    entries: UniqueMap<Digest<N>, (Round, M)>,
}

impl<const N: usize, M> View for Pending<N, M> {
    type V = Map<Digest<N>, (Round, M)>;

    closed spec fn view(&self) -> Map<Digest<N>, (Round, M)> {
        self.entries@
    }
}

/// The entries produced in a round after `round`.
pub open spec fn newer_entries<const N: usize, M>(
    entries: Map<Digest<N>, (Round, M)>,
    round: Round,
) -> Map<Digest<N>, (Round, M)> {
    entries.restrict(
        Set::new(
            |digest: Digest<N>|
                entries.contains_key(digest) && entries[digest].0.newer_than(round),
        ),
    )
}

impl<const N: usize, M> Pending<N, M> {
    /// No pending tips.
    pub fn new() -> (pending: Self)
        ensures
            pending@ == Map::<Digest<N>, (Round, M)>::empty(),
    {
        Pending { entries: UniqueMap::new() }
    }

    /// Tests whether the state of this block is pending.
    pub fn contains(&self, digest: &Digest<N>) -> (found: bool)
        ensures
            found == self@.contains_key(*digest),
    {
        self.entries.contains_key(digest)
    }

    /// The pending state of this block.
    pub fn get_merkleized(&self, digest: &Digest<N>) -> (merkleized: Option<&M>)
        ensures
            merkleized == (if self@.contains_key(*digest) {
                Some(&self@[*digest].1)
            } else {
                None
            }),
    {
        match self.entries.get(digest) {
            Some(entry) => Some(&entry.1),
            None => None,
        }
    }

    /// Records the state of a block, in place of one recorded before.
    pub fn insert(&mut self, digest: Digest<N>, round: Round, merkleized: M)
        ensures
            final(self)@ == old(self)@.insert(digest, (round, merkleized)),
    {
        self.entries.insert(digest, (round, merkleized));
    }

    /// Takes the state of a block out.
    pub fn remove(&mut self, digest: &Digest<N>) -> (removed: Option<(Round, M)>)
        ensures
            final(self)@ == old(self)@.remove(*digest),
            removed == (if old(self)@.contains_key(*digest) {
                Some(old(self)@[*digest])
            } else {
                None
            }),
    {
        self.entries.remove(digest)
    }

    /// Drops the states produced in `finalized_round` or before.
    pub fn retain_newer_than(&mut self, finalized_round: Round)
        ensures
            final(self)@ == newer_entries(old(self)@, finalized_round),
    {
        let ghost keep = |entry: (Round, M)| entry.0.newer_than(finalized_round);
        let is_newer = |entry: &(Round, M)| -> (newer: bool)
            ensures
                newer == entry.0.newer_than(finalized_round),
        {
            entry.0.is_newer_than(&finalized_round)
        };
        self.entries.retain(is_newer, Ghost(keep));
        assert(self@ =~= newer_entries(old(self)@, finalized_round));
    }
}

/// Pruning never brings a tip back: to prune for one round and then for a later one
/// leaves what pruning for the later one leaves.
pub proof fn law_pruning_composes<const N: usize, M>(
    entries: Map<Digest<N>, (Round, M)>,
    first: Round,
    second: Round,
)
    requires
        !first.newer_than(second),
    ensures
        newer_entries(newer_entries(entries, first), second) == newer_entries(entries, second),
{
    assert(newer_entries(newer_entries(entries, first), second) =~= newer_entries(entries, second));
}

} // verus!
