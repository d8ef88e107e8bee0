//! Kinds of simulation events and their tallies.
use vstd::prelude::*;

verus! {

/// The kind of a simulation event.
#[derive(Debug, Clone, Copy, PartialEq, Eq, Structural)]
pub enum EventKind {
    TradeExecuted,
    PriceUpdated,
    ReputationChanged,
    StepCompleted,
}

/// Number of events of kind `k`.
pub open spec fn count_kind(kinds: Seq<EventKind>, k: EventKind) -> nat
    decreases kinds.len(),
{
    if kinds.len() == 0 {
        0
    } else {
        count_kind(kinds.drop_last(), k) + if kinds.last() == k { 1nat } else { 0nat }
    }
}

/// The four tallies of events always add up to the number of events.
pub proof fn law_tallies_cover_all_events(kinds: Seq<EventKind>)
    ensures
        count_kind(kinds, EventKind::TradeExecuted) + count_kind(kinds, EventKind::PriceUpdated)
            + count_kind(kinds, EventKind::ReputationChanged) + count_kind(
            kinds,
            EventKind::StepCompleted,
        ) == kinds.len(),
    decreases kinds.len(),
{
    if kinds.len() > 0 {
        law_tallies_cover_all_events(kinds.drop_last());
    }
}

/// Tallies events by kind: trades, price updates, reputation changes and
/// completed steps, in that order.
pub fn count_event_kinds(kinds: &Vec<EventKind>) -> (counts: (usize, usize, usize, usize))
    ensures
        counts.0 == count_kind(kinds@, EventKind::TradeExecuted),
        counts.1 == count_kind(kinds@, EventKind::PriceUpdated),
        counts.2 == count_kind(kinds@, EventKind::ReputationChanged),
        counts.3 == count_kind(kinds@, EventKind::StepCompleted),
{
    let mut trades: usize = 0;
    let mut price_updates: usize = 0;
    let mut reputation_changes: usize = 0;
    let mut steps_completed: usize = 0;
    let mut i: usize = 0;
    while i < kinds.len()
        invariant
            i <= kinds@.len(),
            trades == count_kind(kinds@.take(i as int), EventKind::TradeExecuted),
            price_updates == count_kind(kinds@.take(i as int), EventKind::PriceUpdated),
            reputation_changes == count_kind(kinds@.take(i as int), EventKind::ReputationChanged),
            steps_completed == count_kind(kinds@.take(i as int), EventKind::StepCompleted),
        decreases kinds@.len() - i,
    {
        proof {
            assert(kinds@.take(i + 1).drop_last() =~= kinds@.take(i as int));
            law_tallies_cover_all_events(kinds@.take(i as int));
        }
        match kinds[i] {
            EventKind::TradeExecuted => trades = trades + 1,
            EventKind::PriceUpdated => price_updates = price_updates + 1,
            EventKind::ReputationChanged => reputation_changes = reputation_changes + 1,
            EventKind::StepCompleted => steps_completed = steps_completed + 1,
        }
        i = i + 1;
    }
    assert(kinds@.take(kinds@.len() as int) =~= kinds@);
    (trades, price_updates, reputation_changes, steps_completed)
}

} // verus!
