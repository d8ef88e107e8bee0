use community_simulation::causal_analysis::{
    check_group_sizes, count_significant, default_bootstrap_samples, summary_text,
};
use community_simulation::contract::ContractProgress;
use community_simulation::event::{count_event_kinds, EventKind};
use community_simulation::investment::ReturnSchedule;
use community_simulation::lending_marketplace::{
    accepts_credit_score, next_offer_id, position_of_offer,
};

#[test]
fn test_contract_execution() {
    let mut p = ContractProgress::new(3);
    assert!(p.is_running());
    assert_eq!(p.remaining_steps, 3);
    assert_eq!(p.transactions_executed, 0);

    p.execute_step();
    assert!(p.is_running());
    assert_eq!(p.remaining_steps, 2);
    assert_eq!(p.transactions_executed, 1);

    p.execute_step();
    assert!(p.is_running());
    assert_eq!(p.remaining_steps, 1);
    assert_eq!(p.transactions_executed, 2);

    p.execute_step();
    assert!(!p.is_running());
    assert_eq!(p.remaining_steps, 0);
    assert_eq!(p.transactions_executed, 3);
}

#[test]
fn test_contract_termination() {
    let mut p = ContractProgress::new(10);
    assert!(p.is_running());
    p.terminate();
    assert!(!p.is_running());
    // the remaining steps keep their value
    assert_eq!(p.remaining_steps, 10);
    p.execute_step();
    assert_eq!(p.transactions_executed, 0);
}

#[test]
fn test_execute_after_expiration() {
    let mut p = ContractProgress::new(1);
    p.execute_step();
    assert!(!p.is_running());
    // stepping an expired contract changes nothing
    p.execute_step();
    assert_eq!(p.transactions_executed, 1);
    assert_eq!(p.remaining_steps, 0);
}

#[test]
fn zero_length_contract_never_runs() {
    let mut p = ContractProgress::new(0);
    assert!(!p.is_running());
    assert!(p.is_active);
    p.execute_step();
    assert_eq!(p.transactions_executed, 0);
}

#[test]
fn investment_pays_exactly_duration_returns() {
    let mut s = ReturnSchedule::new(10);
    let mut paid = 0;
    for _ in 0..15 {
        if s.collect() {
            paid += 1;
        }
    }
    assert_eq!(paid, 10);
    assert_eq!(s.returns_paid, 10);
    assert!(s.is_completed);
}

#[test]
fn test_lending_offer_accepts_credit_score() {
    // offer with a minimum score requirement
    assert!(accepts_credit_score(Some(650), 650));
    assert!(accepts_credit_score(Some(650), 700));
    assert!(!accepts_credit_score(Some(650), 600));
    // offer without a minimum accepts any score
    assert!(accepts_credit_score(None, 300));
    assert!(accepts_credit_score(None, 850));
    assert!(accepts_credit_score(None, 0));
}

#[test]
fn offer_numbering_and_lookup() {
    let mut counter = 0;
    assert_eq!(next_offer_id(&mut counter), 0);
    assert_eq!(next_offer_id(&mut counter), 1);
    assert_eq!(counter, 2);
    let ids = vec![4, 7, 7, 9];
    assert_eq!(position_of_offer(&ids, 7), Some(1));
    assert_eq!(position_of_offer(&ids, 4), Some(0));
    assert_eq!(position_of_offer(&ids, 5), None);
}

#[test]
fn test_event_counts() {
    // two trades, a price update, a reputation change and a completed step
    let kinds = vec![
        EventKind::TradeExecuted,
        EventKind::TradeExecuted,
        EventKind::PriceUpdated,
        EventKind::ReputationChanged,
        EventKind::StepCompleted,
    ];
    let (trades, price_updates, reputation_changes, steps) = count_event_kinds(&kinds);
    assert_eq!(trades, 2);
    assert_eq!(price_updates, 1);
    assert_eq!(reputation_changes, 1);
    assert_eq!(steps, 1);
}

#[test]
fn event_tallies() {
    let kinds = vec![
        EventKind::TradeExecuted,
        EventKind::TradeExecuted,
        EventKind::PriceUpdated,
        EventKind::StepCompleted,
    ];
    assert_eq!(count_event_kinds(&kinds), (2, 1, 0, 1));
    assert_eq!(count_event_kinds(&vec![]), (0, 0, 0, 0));
}

#[test]
fn causal_analysis_bookkeeping() {
    assert_eq!(default_bootstrap_samples(), 1000);
    assert_eq!(check_group_sizes(0, 3).unwrap_err(), "Treatment group cannot be empty");
    assert_eq!(check_group_sizes(2, 0).unwrap_err(), "Control group cannot be empty");
    assert!(check_group_sizes(1, 1).is_ok());
    assert_eq!(count_significant(&vec![true, false, true, true]), 3);
    assert_eq!(
        summary_text(2, 4, 95),
        "2 out of 4 metrics show statistically significant differences at 95% confidence level"
    );
}
