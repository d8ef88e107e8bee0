use community_simulation::credit_rating::{CreditScore, DEFAULT_CREDIT_SCORE};

#[test]
fn test_default_credit_score() {
    let score = CreditScore::default();
    assert_eq!(score.score, 650);
    assert_eq!(score.successful_payments, 0);
    assert_eq!(score.missed_payments, 0);
    assert_eq!(score.credit_history_steps, 0);
}

#[test]
fn test_rating_category() {
    assert_eq!(CreditScore { score: 820, ..Default::default() }.rating_category(), "Excellent");
    assert_eq!(CreditScore { score: 750, ..Default::default() }.rating_category(), "Very Good");
    assert_eq!(CreditScore { score: 700, ..Default::default() }.rating_category(), "Good");
    assert_eq!(CreditScore { score: 620, ..Default::default() }.rating_category(), "Fair");
    assert_eq!(CreditScore { score: 500, ..Default::default() }.rating_category(), "Poor");
}

#[test]
fn test_recent_loans_reset() {
    let mut score = CreditScore::new();
    score.start_credit_history(0);

    score.record_new_loan(0);
    score.record_new_loan(5);
    score.record_new_loan(10);
    assert_eq!(score.recent_loans_count, 3);

    score.record_new_loan(60);
    assert_eq!(score.recent_loans_count, 1, "Recent loans should reset after 50 steps");
}

#[test]
fn rating_boundaries() {
    let at = |s: u16| CreditScore { score: s, ..Default::default() }.rating_category().to_string();
    assert_eq!(at(850), "Excellent");
    assert_eq!(at(800), "Excellent");
    assert_eq!(at(799), "Very Good");
    assert_eq!(at(740), "Very Good");
    assert_eq!(at(739), "Good");
    assert_eq!(at(670), "Good");
    assert_eq!(at(669), "Fair");
    assert_eq!(at(580), "Fair");
    assert_eq!(at(579), "Poor");
    assert_eq!(at(300), "Poor");
    assert_eq!(at(299), "No Rating");
    assert_eq!(at(851), "No Rating");
}

#[test]
fn interest_multiplier_tiers() {
    let m = |s: u16| CreditScore { score: s, ..Default::default() }.interest_multiplier_tenths();
    assert_eq!(m(820), 5);
    assert_eq!(m(750), 7);
    assert_eq!(m(700), 10);
    assert_eq!(m(620), 15);
    assert_eq!(m(500), 25);
    assert_eq!(m(100), 10);
    assert_eq!(m(900), 10);
    // a better score never pays more
    let mut prev = m(300);
    for s in 300..=850u16 {
        assert!(m(s) <= prev);
        prev = m(s);
    }
}

#[test]
fn payment_counters_and_history() {
    let mut score = CreditScore::new();
    assert!(score.has_no_history());
    score.increment_credit_history();
    assert_eq!(score.credit_history_steps, 0);
    score.start_credit_history(7);
    assert_eq!(score.credit_history_steps, 1);
    assert_eq!(score.recent_loans_reset_step, 7);
    assert_eq!(score.credit_mix, 1);
    score.start_credit_history(30);
    assert_eq!(score.recent_loans_reset_step, 7);
    score.increment_credit_history();
    score.increment_credit_history();
    assert_eq!(score.credit_history_steps, 3);
    score.record_successful_payment();
    score.record_successful_payment();
    score.record_missed_payment();
    assert_eq!(score.successful_payments, 2);
    assert_eq!(score.missed_payments, 1);
    assert!(!score.has_no_history());
    assert_eq!(score.score, DEFAULT_CREDIT_SCORE);
}

#[test]
fn new_credit_and_mix_factors() {
    let mut score = CreditScore::new();
    assert_eq!(score.credit_mix_factor_tenths(), 5);
    score.start_credit_history(0);
    assert_eq!(score.credit_mix_factor_tenths(), 7);
    assert_eq!(score.new_credit_factor_tenths(10), 10);
    score.record_new_loan(1);
    assert_eq!(score.new_credit_factor_tenths(10), 9);
    score.record_new_loan(2);
    assert_eq!(score.new_credit_factor_tenths(10), 7);
    score.record_new_loan(3);
    assert_eq!(score.new_credit_factor_tenths(10), 5);
    score.record_new_loan(4);
    assert_eq!(score.active_recent_loans(49), 4);
    assert_eq!(score.new_credit_factor_tenths(49), 3);
    assert_eq!(score.active_recent_loans(50), 0);
    assert_eq!(score.new_credit_factor_tenths(50), 10);
}
