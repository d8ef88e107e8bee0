//! Insurance coverage kinds and the timing rules of a policy.
use vstd::prelude::*;

verus! {

/// Unique identifier for an insurance policy.
pub type InsuranceId = usize;

/// Types of insurance coverage available in the simulation.
#[derive(Debug, Clone, Copy, PartialEq, Eq, Structural)]
pub enum InsuranceType {
    /// Covers credit default risk: pays out when loans cannot be repaid.
    Credit,
    /// Covers income risk: pays out when income falls below a threshold.
    Income,
    /// Covers crisis event risk: pays out during economic crises.
    Crisis,
}

/// Every coverage kind, in declaration order.
pub open spec fn all_insurance_types() -> Seq<InsuranceType> {
    seq![InsuranceType::Credit, InsuranceType::Income, InsuranceType::Crisis]
}

impl InsuranceType {
    /// Display name of a coverage kind.
    pub open spec fn spec_name(self) -> Seq<char> {
        match self {
            InsuranceType::Credit => "Credit Insurance"@,
            InsuranceType::Income => "Income Insurance"@,
            InsuranceType::Crisis => "Crisis Insurance"@,
        }
    }

    /// All insurance types, for iteration.
    pub fn all_types() -> (types: [InsuranceType; 3])
        ensures
            types@ == all_insurance_types(),
    {
        let types = [InsuranceType::Credit, InsuranceType::Income, InsuranceType::Crisis];
        assert(types@ =~= all_insurance_types());
        types
    }

    /// A human-readable name for this insurance type.
    pub fn name(&self) -> (name: &str)
        ensures
            name@ == self.spec_name(),
    {
        match self {
            InsuranceType::Credit => "Credit Insurance",
            InsuranceType::Income => "Income Insurance",
            InsuranceType::Crisis => "Crisis Insurance",
        }
    }
}

/// Every coverage kind occurs exactly once in the list of all kinds, and the
/// kinds have distinct names.
pub proof fn law_all_insurance_types_complete(t: InsuranceType)
    ensures
        all_insurance_types().len() == 3,
        all_insurance_types().contains(t),
        forall|i: int, j: int|
            0 <= i < 3 && 0 <= j < 3 && i != j ==> all_insurance_types()[i] != all_insurance_types()[j]
                && all_insurance_types()[i].spec_name() != all_insurance_types()[j].spec_name(),
{
    reveal_strlit("Credit Insurance");
    reveal_strlit("Income Insurance");
    reveal_strlit("Crisis Insurance");
    assert("Credit Insurance"@[1] != "Income Insurance"@[1]);
    assert("Credit Insurance"@[2] != "Crisis Insurance"@[2]);
    assert("Income Insurance"@[0] != "Crisis Insurance"@[0]);
    match t {
        InsuranceType::Credit => assert(all_insurance_types()[0] == t),
        InsuranceType::Income => assert(all_insurance_types()[1] == t),
        InsuranceType::Crisis => assert(all_insurance_types()[2] == t),
    }
}

/// A policy bought at `purchased_at_step` for `duration` steps has run out at
/// `current_step`; a duration of 0 means indefinite coverage.
pub open spec fn spec_policy_expired(purchased_at_step: nat, duration: nat, current_step: nat) -> bool {
    duration > 0 && current_step >= purchased_at_step + duration
}

/// Whether a policy bought at `purchased_at_step` for `duration` steps has
/// expired by `current_step`. A duration of 0 never expires.
pub fn policy_expired(purchased_at_step: usize, duration: usize, current_step: usize) -> (expired: bool)
    ensures
        expired == spec_policy_expired(purchased_at_step as nat, duration as nat, current_step as nat),
        expired <==> (duration > 0 && current_step >= purchased_at_step + duration),
{
    if duration == 0 {
        return false;
    }
    current_step >= purchased_at_step && current_step - purchased_at_step >= duration
}

/// A claim on a policy is paid only while the policy is active, has not paid
/// out before, and has not expired.
pub open spec fn spec_claim_payable(is_active: bool, has_claimed: bool, expired: bool) -> bool {
    is_active && !has_claimed && !expired
}

/// Whether a claim filed at `current_step` on a policy in the given state is
/// paid.
pub fn claim_payable(
    is_active: bool,
    has_claimed: bool,
    purchased_at_step: usize,
    duration: usize,
    current_step: usize,
) -> (payable: bool)
    ensures
        payable <==> (is_active && !has_claimed && (duration == 0 || current_step
            < purchased_at_step + duration)),
        payable == spec_claim_payable(
            is_active,
            has_claimed,
            spec_policy_expired(purchased_at_step as nat, duration as nat, current_step as nat),
        ),
{
    is_active && !has_claimed && !policy_expired(purchased_at_step, duration, current_step)
}

/// Once a policy with a positive duration has expired, it stays expired at
/// every later step; an indefinite policy never expires.
pub proof fn law_expiry_is_permanent(purchased_at_step: nat, duration: nat, t1: nat, t2: nat)
    requires
        t1 <= t2,
    ensures
        spec_policy_expired(purchased_at_step, duration, t1) ==> spec_policy_expired(
            purchased_at_step,
            duration,
            t2,
        ),
        duration == 0 ==> !spec_policy_expired(purchased_at_step, duration, t2),
{
}

/// A claim is paid exactly when the policy is active, has not paid out
/// before and has not run out: an inactive policy, a second claim, or a claim
/// at or after the last covered step of a limited policy is refused.
pub proof fn law_claim_paid_once_while_covered(
    is_active: bool,
    has_claimed: bool,
    purchased_at_step: nat,
    duration: nat,
    current_step: nat,
)
    ensures
        spec_claim_payable(
            is_active,
            has_claimed,
            spec_policy_expired(purchased_at_step, duration, current_step),
        ) <==> (is_active && !has_claimed && (duration == 0 || current_step < purchased_at_step
            + duration)),
        has_claimed ==> !spec_claim_payable(
            is_active,
            has_claimed,
            spec_policy_expired(purchased_at_step, duration, current_step),
        ),
        !is_active ==> !spec_claim_payable(
            is_active,
            has_claimed,
            spec_policy_expired(purchased_at_step, duration, current_step),
        ),
{
}

} // verus!
