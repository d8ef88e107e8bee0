//! Who may borrow on a peer-to-peer lending offer, and how offers are numbered.
use vstd::prelude::*;

verus! {

/// Unique identifier for a lending offer.
pub type LendingOfferId = usize;

/// An offer with an optional minimum credit score accepts a borrower whose
/// score reaches it; an offer without a minimum accepts everyone.
pub open spec fn spec_accepts(min_credit_score: Option<u16>, credit_score: u16) -> bool {
    match min_credit_score {
        Some(min_score) => credit_score >= min_score,
        None => true,
    }
}

/// Whether an offer with the given minimum accepts `credit_score`.
pub fn accepts_credit_score(min_credit_score: Option<u16>, credit_score: u16) -> (ok: bool)
    ensures
        ok == spec_accepts(min_credit_score, credit_score),
        min_credit_score matches Some(m) ==> (ok <==> credit_score >= m),
        min_credit_score is None ==> ok,
{
    match min_credit_score {
        Some(min_score) => credit_score >= min_score,
        None => true,
    }
}

/// Hands out the next offer identifier and advances the counter.
pub fn next_offer_id(counter: &mut LendingOfferId) -> (id: LendingOfferId)
    requires
        *old(counter) < usize::MAX,
    ensures
        id == *old(counter),
        *final(counter) == *old(counter) + 1,
{
    let id = *counter;
    *counter = id + 1;
    id
}

/// Position of the first offer with identifier `offer_id`, if there is one.
pub fn position_of_offer(ids: &Vec<LendingOfferId>, offer_id: LendingOfferId) -> (pos: Option<usize>)
    ensures
        match pos {
            Some(i) => i < ids@.len() && ids@[i as int] == offer_id && forall|j: int|
                0 <= j < i ==> ids@[j] != offer_id,
            None => forall|j: int| 0 <= j < ids@.len() ==> ids@[j] != offer_id,
        },
{
    let mut i: usize = 0;
    while i < ids.len()
        invariant
            i <= ids@.len(),
            forall|j: int| 0 <= j < i ==> ids@[j] != offer_id,
        decreases ids@.len() - i,
    {
        if ids[i] == offer_id {
            return Some(i);
        }
        i = i + 1;
    }
    None
}

/// A higher credit score is accepted wherever a lower one is.
pub proof fn law_acceptance_monotone(min_credit_score: Option<u16>, low: u16, high: u16)
    requires
        low <= high,
        spec_accepts(min_credit_score, low),
    ensures
        spec_accepts(min_credit_score, high),
{
}

/// An offer with a minimum accepts exactly the scores at or above it; an offer
/// without a minimum accepts every score.
pub proof fn law_acceptance_threshold(min_score: u16, credit_score: u16)
    ensures
        spec_accepts(Some(min_score), credit_score) <==> credit_score >= min_score,
        spec_accepts(None, credit_score),
{
}

} // verus!
