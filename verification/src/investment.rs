//! What a capital allocation funds.
use vstd::prelude::*;

verus! {

/// Unique identifier for an investment.
pub type InvestmentId = usize;

/// The target of an investment.
#[derive(Debug, Clone)]
pub enum InvestmentType {
    /// Funding another person's education in a skill.
    Education {
        /// The skill being learned.
        skill_id: String,
    },
    /// Funding a production capacity.
    Production {
        /// The recipe that gets produced.
        recipe_name: String,
    },
}

impl PartialEq for InvestmentType {
    fn eq(&self, other: &Self) -> (same: bool) {
        match self {
            InvestmentType::Education { skill_id: a } => match other {
                InvestmentType::Education { skill_id: b } => a.eq(b),
                _ => false,
            },
            InvestmentType::Production { recipe_name: a } => match other {
                InvestmentType::Production { recipe_name: b } => a.eq(b),
                _ => false,
            },
        }
    }
}

impl vstd::std_specs::cmp::PartialEqSpecImpl for InvestmentType {
    open spec fn obeys_eq_spec() -> bool {
        true
    }

    open spec fn eq_spec(&self, other: &InvestmentType) -> bool {
        match (self, other) {
            (InvestmentType::Education { skill_id: a }, InvestmentType::Education { skill_id: b }) => a@ == b@,
            (
                InvestmentType::Production { recipe_name: a },
                InvestmentType::Production { recipe_name: b },
            ) => a@ == b@,
            _ => false,
        }
    }
}

impl Eq for InvestmentType {

}

/// Where the payment of an investment's returns stands: the number of
/// returns it pays in all, how many have been paid, and whether it is done.
#[derive(Debug, Clone, Copy, PartialEq, Eq, Structural)]
pub struct ReturnSchedule {
    pub duration: usize,
    pub returns_paid: usize,
    pub is_completed: bool,
}

/// The schedule after one collection: a completed investment pays nothing and
/// stays as it is; otherwise one more return is paid, and the investment is
/// completed once as many returns as its duration have been paid.
pub open spec fn spec_collect(s: ReturnSchedule) -> ReturnSchedule {
    if s.is_completed {
        s
    } else {
        ReturnSchedule {
            returns_paid: (s.returns_paid + 1) as usize,
            is_completed: s.returns_paid + 1 >= s.duration,
            ..s
        }
    }
}

/// The schedule after `k` collections.
pub open spec fn spec_collect_times(s: ReturnSchedule, k: nat) -> ReturnSchedule
    decreases k,
{
    if k == 0 {
        s
    } else {
        spec_collect(spec_collect_times(s, (k - 1) as nat))
    }
}

impl ReturnSchedule {
    /// The schedule of a new investment paying back over `duration` steps.
    pub fn new(duration: usize) -> (s: Self)
        ensures
            s == (ReturnSchedule { duration, returns_paid: 0, is_completed: false }),
    {
        ReturnSchedule { duration, returns_paid: 0, is_completed: false }
    }

    /// Collects one return; `true` when a return is paid, `false` once the
    /// investment is completed.
    pub fn collect(&mut self) -> (paid: bool)
        requires
            !old(self).is_completed ==> old(self).returns_paid < usize::MAX,
        ensures
            paid == !old(self).is_completed,
            *final(self) == spec_collect(*old(self)),
    {
        if self.is_completed {
            return false;
        }
        self.returns_paid = self.returns_paid + 1;
        if self.returns_paid >= self.duration {
            self.is_completed = true;
        }
        true
    }
}

/// An investment with a positive duration pays exactly that many returns:
/// after `k` collections it has paid `min(k, duration)` of them and is
/// completed from the `duration`-th on.
pub proof fn law_returns_paid_exactly_duration(duration: usize, k: nat)
    requires
        duration >= 1,
    ensures
        spec_collect_times(ReturnSchedule { duration, returns_paid: 0, is_completed: false }, k)
            == (ReturnSchedule {
            duration,
            returns_paid: (if k < duration { k } else { duration as nat }) as usize,
            is_completed: k >= duration,
        }),
    decreases k,
{
    if k > 0 {
        law_returns_paid_exactly_duration(duration, (k - 1) as nat);
    }
}

} // verus!
