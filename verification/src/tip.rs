//! The branch tip: a mutable slot holding the current best applied-block
//! reference for one branch, mutated only through the chain-selection
//! operation.

use vstd::prelude::*;

verus! {

use crate::chain::Ref;
use crate::store::{has_ref, ChainStore};

/// The slot holding one branch's current best applied-block reference. It is
/// read freely and written only by `select_new_tip`.
pub struct Tip {
    current: Ref,
}

impl View for Tip {
    type V = Ref;

    closed spec fn view(&self) -> Ref {
        self.current
    }
}

impl Tip {
    /// Creates a tip slot initially holding `r`.
    pub fn new(r: Ref) -> (t: Tip)
        ensures
            t@ == r,
    {
        Tip { current: r }
    }

    /// Returns the branch's current best applied-block reference.
    pub fn get_ref(&self) -> (r: Ref)
        ensures
            r == self@,
    {
        self.current
    }
}

/// The canonical chain-selection rule: the candidate replaces the current
/// best reference exactly when its cumulative chain length is strictly
/// greater.
pub open spec fn select_spec(current: Ref, candidate: Ref) -> Ref {
    if candidate.chain_length > current.chain_length {
        candidate
    } else {
        current
    }
}

/// Compares `candidate` against the branch's current tip under the store's
/// canonical chain-selection rule and swaps the tip to the candidate exactly
/// when the candidate wins. This is the sole writer path for a `Tip`.
pub fn select_new_tip(store: &ChainStore, branch: &mut Tip, candidate: Ref)
    requires
        store.wf(),
        has_ref(store@, candidate),
        has_ref(store@, old(branch)@),
    ensures
        final(branch)@ == select_spec(old(branch)@, candidate),
        has_ref(store@, final(branch)@),
{
    let current = branch.get_ref();
    if candidate.chain_length > current.chain_length {
        branch.current = candidate;
    }
}

/// Tip monotonicity: the selection rule never replaces the current best
/// reference with a candidate it ranks as not better, and a winning
/// candidate always becomes the new value.
pub proof fn lemma_select_monotonic(current: Ref, candidate: Ref)
    ensures
        select_spec(current, candidate).chain_length >= current.chain_length,
        candidate.chain_length <= current.chain_length ==> select_spec(current, candidate)
            == current,
        candidate.chain_length > current.chain_length ==> select_spec(current, candidate)
            == candidate,
{
}

/// Tip selection is idempotent: offering the same candidate a second time
/// leaves the tip where the first selection put it.
pub proof fn lemma_select_idempotent(current: Ref, candidate: Ref)
    ensures
        select_spec(select_spec(current, candidate), candidate) == select_spec(current, candidate),
{
}

} // verus!
