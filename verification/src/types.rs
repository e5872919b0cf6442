//! The consensus values that the library reads.

use crate::map::Key;
use commonware_consensus::types as consensus;
use vstd::prelude::*;
use vstd::std_specs::cmp::PartialEqSpecImpl;

verus! {

/// The digest that names a block: `N` bytes.
#[derive(Clone, Copy, Debug)]
pub struct Digest<const N: usize> {
    pub bytes: [u8; N],
}

impl<const N: usize> Digest<N> {
    /// Compares two digests byte by byte.
    pub fn matches(&self, other: &Self) -> (same: bool)
        ensures
            same == (*self == *other),
    {
        let mut i: usize = 0;
        while i < N
            invariant
                i <= N,
                forall|k: int| 0 <= k < i ==> self.bytes@[k] == other.bytes@[k],
            decreases N - i,
        {
            if self.bytes[i] != other.bytes[i] {
                return false;
            }
            i = i + 1;
        }
        assert(self.bytes =~= other.bytes);
        true
    }
}

impl<const N: usize> PartialEq for Digest<N> {
    fn eq(&self, other: &Self) -> (same: bool) {
        self.matches(other)
    }
}

impl<const N: usize> PartialEqSpecImpl for Digest<N> {
    open spec fn obeys_eq_spec() -> bool {
        true
    }

    open spec fn eq_spec(&self, other: &Self) -> bool {
        *self == *other
    }
}

impl<const N: usize> Eq for Digest<N> {

}

impl<const N: usize> Key for Digest<N> {
    fn same(&self, other: &Self) -> bool {
        self.matches(other)
    }
}

/// A consensus round: a view within an epoch.
#[derive(Clone, Copy, Debug, PartialEq, Eq, Structural)]
pub struct Round {
    pub epoch: u64,
    pub view: u64,
}

impl Round {
    /// Rounds are ordered by epoch, then by view within the epoch.
    pub open spec fn newer_than(self, other: Round) -> bool {
        self.epoch > other.epoch || (self.epoch == other.epoch && self.view > other.view)
    }

    /// Tests whether this round comes after `other`.
    pub fn is_newer_than(&self, other: &Round) -> (newer: bool)
        ensures
            newer == self.newer_than(*other),
    {
        round_exceeds(self.epoch, self.view, other.epoch, other.view)
    }
}

/// Compares two rounds with the order of `commonware_consensus::types::Round`.
///
/// The claim: `Round::new(Epoch::new(epoch), View::new(view))` is greater than the
/// other round exactly when its epoch is greater, or the epochs are equal and its
/// view is greater. The type derives its order over the fields `epoch` and `view`,
/// in this order, each of which wraps the given number.
#[verifier::external_body]
fn round_exceeds(epoch: u64, view: u64, other_epoch: u64, other_view: u64) -> (exceeds: bool)
    ensures
        exceeds == (epoch > other_epoch || (epoch == other_epoch && view > other_view)),
{
    consensus::Round::new(consensus::Epoch::new(epoch), consensus::View::new(view))
        > consensus::Round::new(
        consensus::Epoch::new(other_epoch),
        consensus::View::new(other_view),
    )
}

/// Rounds are ordered by epoch, and within an epoch by view.
pub proof fn law_rounds_are_ordered_by_epoch_then_view(a: Round, b: Round, newer: bool)
    requires
        call_ensures(Round::is_newer_than, (&a, &b), newer),
    ensures
        call_requires(Round::is_newer_than, (&a, &b)),
        a.epoch > b.epoch ==> newer,
        a.epoch < b.epoch ==> !newer,
        a.epoch == b.epoch ==> newer == (a.view > b.view),
        newer == a.newer_than(b),
{
}

/// Of two different rounds exactly one is newer, no round is newer than itself, and a round
/// that is newer than a newer round is newer.
pub proof fn law_rounds_are_totally_ordered(
    a: Round,
    b: Round,
    c: Round,
    ab: bool,
    ba: bool,
    bc: bool,
    ac: bool,
)
    requires
        call_ensures(Round::is_newer_than, (&a, &b), ab),
        call_ensures(Round::is_newer_than, (&b, &a), ba),
        call_ensures(Round::is_newer_than, (&b, &c), bc),
        call_ensures(Round::is_newer_than, (&a, &c), ac),
    ensures
        a.epoch == b.epoch && a.view == b.view ==> !ab && !ba,
        a.epoch != b.epoch || a.view != b.view ==> ab != ba,
        ab && bc ==> ac,
{
}

/// Two digests match exactly when all their bytes do.
pub proof fn law_digests_match_byte_by_byte<const N: usize>(
    a: Digest<N>,
    b: Digest<N>,
    same: bool,
    equal: bool,
)
    requires
        call_ensures(Digest::<N>::matches, (&a, &b), same),
        call_ensures(<Digest<N> as PartialEq>::eq, (&a, &b), equal),
    ensures
        same <==> (forall|i: int| 0 <= i < N ==> (#[trigger] a.bytes@[i]) == b.bytes@[i]),
        equal == same,
{
    if forall|i: int| 0 <= i < N ==> (#[trigger] a.bytes@[i]) == b.bytes@[i] {
        assert(a.bytes@ =~= b.bytes@);
        assert(a.bytes =~= b.bytes);
    }
}

} // verus!
