//! Laws of the pending tips.

use crate::stateful::pending::Pending;
use crate::types::{Digest, Round};
use vstd::prelude::*;

verus! {

/// Nothing is pending at first.
pub proof fn law_no_tip_is_pending_at_first<const N: usize, M>(
    pending: Pending<N, M>,
    digest: Digest<N>,
    found: bool,
    state: Option<&M>,
)
    requires
        call_ensures(Pending::<N, M>::new, (), pending),
        call_ensures(Pending::<N, M>::contains, (&pending, &digest), found),
        call_ensures(Pending::<N, M>::get_merkleized, (&pending, &digest), state),
    ensures
        !found,
        state is None,
        call_requires(Pending::<N, M>::new, ()),
        call_requires(Pending::<N, M>::contains, (&pending, &digest)),
        call_requires(Pending::<N, M>::get_merkleized, (&pending, &digest)),
{
}

/// A tip is found exactly when its state can be read.
pub proof fn law_found_tip_can_be_read<const N: usize, M>(
    pending: Pending<N, M>,
    digest: Digest<N>,
    found: bool,
    state: Option<&M>,
)
    requires
        call_ensures(Pending::<N, M>::contains, (&pending, &digest), found),
        call_ensures(Pending::<N, M>::get_merkleized, (&pending, &digest), state),
    ensures
        found <==> state is Some,
{
}

/// A read gives back what was recorded last, and recording one tip leaves the others alone.
pub proof fn law_read_gives_back_what_was_recorded<const N: usize, M>(
    pending: &mut Pending<N, M>,
    digest: Digest<N>,
    round: Round,
    merkleized: M,
    other: Digest<N>,
    before: Option<&M>,
    after: Option<&M>,
)
    requires
        call_ensures(Pending::<N, M>::insert, (pending, digest, round, merkleized), ()),
        call_ensures(Pending::<N, M>::get_merkleized, (old(pending), &other), before),
        call_ensures(Pending::<N, M>::get_merkleized, (final(pending), &other), after),
    ensures
        other == digest ==> after == Some(&merkleized),
        other != digest ==> after == before,
        call_requires(Pending::<N, M>::insert, (pending, digest, round, merkleized)),
{
}

/// A tip is taken out as it was recorded: with its round and its state.
pub proof fn law_tip_is_taken_out_as_it_was_recorded<const N: usize, M>(
    pending: &mut Pending<N, M>,
    digest: Digest<N>,
    round: Round,
    merkleized: M,
    later: &mut Pending<N, M>,
    removed: Option<(Round, M)>,
)
    requires
        call_ensures(Pending::<N, M>::insert, (pending, digest, round, merkleized), ()),
        *old(later) == *final(pending),
        call_ensures(Pending::<N, M>::remove, (later, &digest), removed),
    ensures
        removed == Some((round, merkleized)),
{
}

/// Taking a tip out returns what could be read, and leaves the other tips alone.
pub proof fn law_taking_out_removes_one_tip<const N: usize, M>(
    pending: &mut Pending<N, M>,
    digest: Digest<N>,
    removed: Option<(Round, M)>,
    state: Option<&M>,
    other: Digest<N>,
    before: Option<&M>,
    after: Option<&M>,
)
    requires
        call_ensures(Pending::<N, M>::remove, (pending, &digest), removed),
        call_ensures(Pending::<N, M>::get_merkleized, (old(pending), &digest), state),
        call_ensures(Pending::<N, M>::get_merkleized, (old(pending), &other), before),
        call_ensures(Pending::<N, M>::get_merkleized, (final(pending), &other), after),
    ensures
        removed is Some <==> state is Some,
        removed is Some ==> Some(&(removed->0).1) == state,
        other == digest ==> after is None,
        other != digest ==> after == before,
        call_requires(Pending::<N, M>::remove, (pending, &digest)),
{
}

/// Pruning keeps a tip, with its state, exactly when its round comes later: in a later epoch,
/// or in the same epoch with a later view. `entry` is what was recorded of the tip.
pub proof fn law_pruning_keeps_later_rounds<const N: usize, M>(
    pending: &mut Pending<N, M>,
    finalized_round: Round,
    digest: Digest<N>,
    copy: &mut Pending<N, M>,
    entry: Option<(Round, M)>,
    pruned: &mut Pending<N, M>,
    left: Option<(Round, M)>,
)
    requires
        *old(copy) == *old(pending),
        call_ensures(Pending::<N, M>::remove, (copy, &digest), entry),
        call_ensures(Pending::<N, M>::retain_newer_than, (pending, finalized_round), ()),
        *old(pruned) == *final(pending),
        call_ensures(Pending::<N, M>::remove, (pruned, &digest), left),
    ensures
        left == (match entry {
            Some((round, merkleized)) => if round.epoch > finalized_round.epoch || (round.epoch
                == finalized_round.epoch && round.view > finalized_round.view) {
                Some((round, merkleized))
            } else {
                None
            },
            None => None,
        }),
        call_requires(Pending::<N, M>::retain_newer_than, (pending, finalized_round)),
{
}

} // verus!
