//! Credit scores on a FICO-like 300-850 scale and the bookkeeping behind them.
//!
//! The score itself is recomputed from the counters kept here; the counters,
//! the score tiers and the integer parts of the scoring factors live in this
//! module.
use vstd::prelude::*;

verus! {

/// Default credit score for persons with no credit history (fair credit).
pub const DEFAULT_CREDIT_SCORE: u16 = 650;

/// Length of the "recent" period for new credit, in steps.
pub const RECENT_LOAN_WINDOW: usize = 50;

/// Credit score data tracking a person's creditworthiness.
#[derive(Debug, Clone)]
pub struct CreditScore {
    /// Current credit score (300-850 scale); 650 without history.
    pub score: u16,
    /// Loan payments made on time.
    pub successful_payments: usize,
    /// Loan payments missed or late.
    pub missed_payments: usize,
    /// Steps since the first loan; zero means no credit history.
    pub credit_history_steps: usize,
    /// New loans taken in the current recent period.
    pub recent_loans_count: usize,
    /// Step at which the recent period began.
    pub recent_loans_reset_step: usize,
    /// Number of different loan types held.
    pub credit_mix: usize,
}

/// The rating tier of a score.
pub open spec fn spec_rating_category(score: u16) -> Seq<char> {
    if 800 <= score && score <= 850 {
        "Excellent"@
    } else if 740 <= score && score <= 799 {
        "Very Good"@
    } else if 670 <= score && score <= 739 {
        "Good"@
    } else if 580 <= score && score <= 669 {
        "Fair"@
    } else if 300 <= score && score <= 579 {
        "Poor"@
    } else {
        "No Rating"@
    }
}

/// The interest multiplier of a score tier, in tenths of the base rate.
pub open spec fn spec_interest_multiplier_tenths(score: u16) -> u32 {
    if 800 <= score && score <= 850 {
        5
    } else if 740 <= score && score <= 799 {
        7
    } else if 670 <= score && score <= 739 {
        10
    } else if 580 <= score && score <= 669 {
        15
    } else if 300 <= score && score <= 579 {
        25
    } else {
        10
    }
}

/// Number of loans counted as recent at `current_step`: none once the recent
/// period that began at `reset_step` is at least 50 steps old.
pub open spec fn spec_active_recent_loans(count: nat, reset_step: nat, current_step: nat) -> nat {
    if current_step >= reset_step + 50 {
        0
    } else {
        count
    }
}

/// The new-credit factor, in tenths, for a number of recent loans.
pub open spec fn spec_new_credit_factor_tenths(active_recent_loans: nat) -> u32 {
    if active_recent_loans == 0 {
        10
    } else if active_recent_loans == 1 {
        9
    } else if active_recent_loans == 2 {
        7
    } else if active_recent_loans == 3 {
        5
    } else {
        3
    }
}

impl CreditScore {
    /// The record of a person without credit history.
    pub open spec fn spec_default() -> CreditScore {
        CreditScore {
            score: DEFAULT_CREDIT_SCORE,
            successful_payments: 0,
            missed_payments: 0,
            credit_history_steps: 0,
            recent_loans_count: 0,
            recent_loans_reset_step: 0,
            credit_mix: 0,
        }
    }

    /// No loan has been taken and no payment recorded.
    pub open spec fn spec_no_history(self) -> bool {
        self.credit_history_steps == 0 && self.successful_payments == 0 && self.missed_payments == 0
    }

    /// Creates a credit score with default values.
    pub fn new() -> (c: Self)
        ensures
            c == Self::spec_default(),
    {
        CreditScore {
            score: DEFAULT_CREDIT_SCORE,
            successful_payments: 0,
            missed_payments: 0,
            credit_history_steps: 0,
            recent_loans_count: 0,
            recent_loans_reset_step: 0,
            credit_mix: 0,
        }
    }

    /// Whether there is no credit history at all; such a record keeps the
    /// default score of 650.
    pub fn has_no_history(&self) -> (none: bool)
        ensures
            none == self.spec_no_history(),
    {
        self.credit_history_steps == 0 && self.successful_payments == 0 && self.missed_payments == 0
    }

    /// Records a loan payment made on time.
    pub fn record_successful_payment(&mut self)
        requires
            old(self).successful_payments < usize::MAX,
        ensures
            *final(self) == (CreditScore {
                successful_payments: (old(self).successful_payments + 1) as usize,
                ..*old(self)
            }),
    {
        self.successful_payments += 1;
    }

    /// Records a missed loan payment.
    pub fn record_missed_payment(&mut self)
        requires
            old(self).missed_payments < usize::MAX,
        ensures
            *final(self) == (CreditScore {
                missed_payments: (old(self).missed_payments + 1) as usize,
                ..*old(self)
            }),
    {
        self.missed_payments += 1;
    }

    /// Starts the credit history when the first loan is taken at
    /// `current_step`; later calls keep the history and its recent period.
    pub fn start_credit_history(&mut self, current_step: usize)
        ensures
            *final(self) == (if old(self).credit_history_steps == 0 {
                CreditScore {
                    credit_history_steps: 1,
                    recent_loans_reset_step: current_step,
                    credit_mix: 1,
                    ..*old(self)
                }
            } else {
                CreditScore { credit_mix: 1, ..*old(self) }
            }),
    {
        if self.credit_history_steps == 0 {
            self.credit_history_steps = 1;
            self.recent_loans_reset_step = current_step;
        }
        self.credit_mix = 1;
    }

    /// Records a new loan taken at `current_step`. A recent period that is at
    /// least 50 steps old is closed first and a new one starts now.
    pub fn record_new_loan(&mut self, current_step: usize)
        requires
            spec_active_recent_loans(
                old(self).recent_loans_count as nat,
                old(self).recent_loans_reset_step as nat,
                current_step as nat,
            ) < usize::MAX,
        ensures
            *final(self) == (if current_step >= old(self).recent_loans_reset_step + 50 {
                CreditScore {
                    recent_loans_count: 1,
                    recent_loans_reset_step: current_step,
                    ..*old(self)
                }
            } else {
                CreditScore {
                    recent_loans_count: (old(self).recent_loans_count + 1) as usize,
                    ..*old(self)
                }
            }),
    {
        let steps_since_reset = current_step.saturating_sub(self.recent_loans_reset_step);
        if steps_since_reset >= RECENT_LOAN_WINDOW {
            self.recent_loans_count = 0;
            self.recent_loans_reset_step = current_step;
        }
        self.recent_loans_count += 1;
    }

    /// Lengthens an existing credit history by one step; without history
    /// nothing changes.
    pub fn increment_credit_history(&mut self)
        requires
            old(self).credit_history_steps < usize::MAX,
        ensures
            *final(self) == (if old(self).credit_history_steps > 0 {
                CreditScore {
                    credit_history_steps: (old(self).credit_history_steps + 1) as usize,
                    ..*old(self)
                }
            } else {
                *old(self)
            }),
    {
        if self.credit_history_steps > 0 {
            self.credit_history_steps += 1;
        }
    }

    /// Number of loans that count as recent at `current_step`.
    pub fn active_recent_loans(&self, current_step: usize) -> (n: usize)
        ensures
            n == spec_active_recent_loans(
                self.recent_loans_count as nat,
                self.recent_loans_reset_step as nat,
                current_step as nat,
            ),
    {
        let steps_since_reset = current_step.saturating_sub(self.recent_loans_reset_step);
        if steps_since_reset >= RECENT_LOAN_WINDOW {
            0
        } else {
            self.recent_loans_count
        }
    }

    /// The new-credit factor at `current_step`, in tenths: 10 without recent
    /// loans, then 9, 7, 5 and 3 for four or more.
    pub fn new_credit_factor_tenths(&self, current_step: usize) -> (factor: u32)
        ensures
            factor == spec_new_credit_factor_tenths(
                spec_active_recent_loans(
                    self.recent_loans_count as nat,
                    self.recent_loans_reset_step as nat,
                    current_step as nat,
                ),
            ),
    {
        match self.active_recent_loans(current_step) {
            0 => 10,
            1 => 9,
            2 => 7,
            3 => 5,
            _ => 3,
        }
    }

    /// The credit-mix factor in tenths: 5 without credit, 7 with the single
    /// loan type there is.
    pub fn credit_mix_factor_tenths(&self) -> (factor: u32)
        ensures
            factor == (if self.credit_mix == 0 { 5u32 } else { 7u32 }),
    {
        if self.credit_mix == 0 {
            5
        } else {
            7
        }
    }

    /// The interest multiplier of this score's tier, in tenths of the base
    /// rate: 5 (Excellent), 7 (Very Good), 10 (Good), 15 (Fair), 25 (Poor),
    /// and 10 for a score outside 300-850.
    pub fn interest_multiplier_tenths(&self) -> (tenths: u32)
        ensures
            tenths == spec_interest_multiplier_tenths(self.score),
            800 <= self.score <= 850 ==> tenths == 5,
            740 <= self.score <= 799 ==> tenths == 7,
            670 <= self.score <= 739 ==> tenths == 10,
            580 <= self.score <= 669 ==> tenths == 15,
            300 <= self.score <= 579 ==> tenths == 25,
            (self.score < 300 || self.score > 850) ==> tenths == 10,
    {
        if 800 <= self.score && self.score <= 850 {
            5
        } else if 740 <= self.score && self.score <= 799 {
            7
        } else if 670 <= self.score && self.score <= 739 {
            10
        } else if 580 <= self.score && self.score <= 669 {
            15
        } else if 300 <= self.score && self.score <= 579 {
            25
        } else {
            10
        }
    }

    /// A human-readable rating category for the score.
    pub fn rating_category(&self) -> (category: &str)
        ensures
            category@ == spec_rating_category(self.score),
    {
        if 800 <= self.score && self.score <= 850 {
            "Excellent"
        } else if 740 <= self.score && self.score <= 799 {
            "Very Good"
        } else if 670 <= self.score && self.score <= 739 {
            "Good"
        } else if 580 <= self.score && self.score <= 669 {
            "Fair"
        } else if 300 <= self.score && self.score <= 579 {
            "Poor"
        } else {
            "No Rating"
        }
    }
}

impl Default for CreditScore {
    /// The record of a person without credit history, scored 650.
    fn default() -> (c: Self)
        ensures
            c == CreditScore::spec_default(),
    {
        CreditScore::new()
    }
}

/// Within the 300-850 scale, a higher score never pays a higher interest
/// multiplier.
pub proof fn law_better_score_never_costs_more(low: u16, high: u16)
    requires
        300 <= low <= high <= 850,
    ensures
        spec_interest_multiplier_tenths(high) <= spec_interest_multiplier_tenths(low),
{
}

/// Fewer recent loans never give a lower new-credit factor.
pub proof fn law_fewer_recent_loans_never_hurt(fewer: nat, more: nat)
    requires
        fewer <= more,
    ensures
        spec_new_credit_factor_tenths(more) <= spec_new_credit_factor_tenths(fewer),
{
}

/// Every score on the 300-850 scale has a rating; outside it there is none.
pub proof fn law_rating_covers_scale(score: u16)
    ensures
        (300 <= score <= 850) <==> spec_rating_category(score) != "No Rating"@,
{
    reveal_strlit("Excellent");
    reveal_strlit("Very Good");
    reveal_strlit("Good");
    reveal_strlit("Fair");
    reveal_strlit("Poor");
    reveal_strlit("No Rating");
    assert("Excellent"@[0] != "No Rating"@[0]);
    assert("Very Good"@[0] != "No Rating"@[0]);
    assert("Good"@.len() != "No Rating"@.len());
    assert("Fair"@.len() != "No Rating"@.len());
    assert("Poor"@.len() != "No Rating"@.len());
}

/// The interest multiplier, in tenths of the base rate, by score band:
/// 800-850 pays 0.5x, 740-799 0.7x, 670-739 1.0x, 580-669 1.5x, 300-579 2.5x,
/// and a score off the scale the base rate. It follows the rating tier: each
/// tier has one multiplier.
pub proof fn law_interest_multiplier_by_band(score: u16)
    ensures
        800 <= score <= 850 ==> spec_interest_multiplier_tenths(score) == 5,
        740 <= score <= 799 ==> spec_interest_multiplier_tenths(score) == 7,
        670 <= score <= 739 ==> spec_interest_multiplier_tenths(score) == 10,
        580 <= score <= 669 ==> spec_interest_multiplier_tenths(score) == 15,
        300 <= score <= 579 ==> spec_interest_multiplier_tenths(score) == 25,
        (score < 300 || score > 850) ==> spec_interest_multiplier_tenths(score) == 10,
        spec_rating_category(score) == "Excellent"@ ==> spec_interest_multiplier_tenths(score) == 5,
        spec_rating_category(score) == "Very Good"@ ==> spec_interest_multiplier_tenths(score) == 7,
        spec_rating_category(score) == "Good"@ ==> spec_interest_multiplier_tenths(score) == 10,
        spec_rating_category(score) == "Fair"@ ==> spec_interest_multiplier_tenths(score) == 15,
        spec_rating_category(score) == "Poor"@ ==> spec_interest_multiplier_tenths(score) == 25,
        spec_rating_category(score) == "No Rating"@ ==> spec_interest_multiplier_tenths(score) == 10,
{
    reveal_strlit("Excellent");
    reveal_strlit("Very Good");
    reveal_strlit("Good");
    reveal_strlit("Fair");
    reveal_strlit("Poor");
    reveal_strlit("No Rating");
    assert("Excellent"@[0] != "Very Good"@[0]);
    assert("Excellent"@[0] != "Good"@[0]);
    assert("Excellent"@[0] != "Fair"@[0]);
    assert("Excellent"@[0] != "Poor"@[0]);
    assert("Excellent"@[0] != "No Rating"@[0]);
    assert("Very Good"@[0] != "Good"@[0]);
    assert("Very Good"@[0] != "Fair"@[0]);
    assert("Very Good"@[0] != "Poor"@[0]);
    assert("Very Good"@[0] != "No Rating"@[0]);
    assert("Good"@[0] != "Fair"@[0]);
    assert("Good"@[0] != "Poor"@[0]);
    assert("Good"@[0] != "No Rating"@[0]);
    assert("Fair"@[0] != "Poor"@[0]);
    assert("Fair"@[0] != "No Rating"@[0]);
    assert("Poor"@[0] != "No Rating"@[0]);
}

} // verus!
