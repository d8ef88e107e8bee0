//! The schedule of a long-term contract: how many deliveries remain and how
//! many have been made.
use vstd::prelude::*;

verus! {

/// Unique identifier for a contract.
pub type ContractId = usize;

/// Where a contract stands: whether it is marked active, the steps it still
/// runs, and the deliveries made so far.
#[derive(Debug, Clone, Copy, PartialEq, Eq, Structural)]
pub struct ContractProgress {
    pub is_active: bool,
    pub remaining_steps: usize,
    pub transactions_executed: usize,
}

/// The progress of a contract signed for `duration` steps.
pub open spec fn spec_new_progress(duration: usize) -> ContractProgress {
    ContractProgress { is_active: true, remaining_steps: duration, transactions_executed: 0 }
}

/// A contract is running while it is marked active and steps remain.
pub open spec fn spec_running(p: ContractProgress) -> bool {
    p.is_active && p.remaining_steps > 0
}

/// One step of a contract: a running contract delivers once and loses a step,
/// and is closed when no step remains; any other contract stays as it is.
pub open spec fn spec_step(p: ContractProgress) -> ContractProgress {
    if spec_running(p) {
        let remaining = (p.remaining_steps - 1) as usize;
        ContractProgress {
            is_active: remaining != 0,
            remaining_steps: remaining,
            transactions_executed: (p.transactions_executed + 1) as usize,
        }
    } else {
        p
    }
}

impl ContractProgress {
    /// The progress of a contract signed for `duration` steps.
    pub fn new(duration: usize) -> (p: Self)
        ensures
            p == spec_new_progress(duration),
    {
        ContractProgress { is_active: true, remaining_steps: duration, transactions_executed: 0 }
    }

    /// Whether the contract is still running.
    pub fn is_running(&self) -> (running: bool)
        ensures
            running == spec_running(*self),
    {
        self.is_active && self.remaining_steps > 0
    }

    /// Executes one step of the contract.
    pub fn execute_step(&mut self)
        requires
            spec_running(*old(self)) ==> old(self).transactions_executed < usize::MAX,
        ensures
            *final(self) == spec_step(*old(self)),
            !(old(self).is_active && old(self).remaining_steps > 0) ==> *final(self) == *old(self),
            old(self).is_active && old(self).remaining_steps > 0 ==> {
                &&& final(self).transactions_executed == old(self).transactions_executed + 1
                &&& final(self).remaining_steps == old(self).remaining_steps - 1
                &&& final(self).is_active == (old(self).remaining_steps > 1)
            },
    {
        if self.is_running() {
            self.remaining_steps = self.remaining_steps - 1;
            self.transactions_executed = self.transactions_executed + 1;
            if self.remaining_steps == 0 {
                self.is_active = false;
            }
        }
    }

    /// Ends the contract early; the remaining steps are kept as they were.
    pub fn terminate(&mut self)
        ensures
            *final(self) == (ContractProgress { is_active: false, ..*old(self) }),
    {
        self.is_active = false;
    }
}

/// A contract's deliveries made and steps remaining always add up to its
/// duration: it never delivers more than it was signed for, and a step keeps
/// the sum.
pub proof fn law_contract_deliveries_bounded(duration: usize, p: ContractProgress)
    requires
        p.transactions_executed + p.remaining_steps == duration,
    ensures
        spec_new_progress(duration).transactions_executed + spec_new_progress(duration).remaining_steps
            == duration,
        spec_step(p).transactions_executed + spec_step(p).remaining_steps == duration,
        spec_step(p).transactions_executed <= duration,
{
}

/// After as many steps as its duration, a contract has delivered every time
/// and is no longer running.
pub proof fn law_contract_runs_its_duration(duration: usize, k: nat)
    requires
        k <= duration,
    ensures
        steps(spec_new_progress(duration), k) == (ContractProgress {
            is_active: k == 0 || k < duration,
            remaining_steps: (duration - k) as usize,
            transactions_executed: k as usize,
        }),
    decreases k,
{
    if k > 0 {
        law_contract_runs_its_duration(duration, (k - 1) as nat);
    }
}

/// The progress after `k` steps.
pub open spec fn steps(p: ContractProgress, k: nat) -> ContractProgress
    decreases k,
{
    if k == 0 {
        p
    } else {
        spec_step(steps(p, (k - 1) as nat))
    }
}

/// A step of a contract that is not running (terminated, or with no step
/// left) changes nothing; a step of a running contract delivers once, uses up
/// one step, and closes the contract when that was its last step.
pub proof fn law_step_only_while_running(p: ContractProgress)
    requires
        p.transactions_executed < usize::MAX,
    ensures
        !(p.is_active && p.remaining_steps > 0) ==> spec_step(p) == p,
        p.is_active && p.remaining_steps > 0 ==> {
            &&& spec_step(p).transactions_executed == p.transactions_executed + 1
            &&& spec_step(p).remaining_steps == p.remaining_steps - 1
            &&& spec_step(p).is_active == (p.remaining_steps > 1)
        },
{
}

/// A terminated contract stays as it was however many steps follow.
pub proof fn law_terminated_contract_is_frozen(p: ContractProgress, k: nat)
    requires
        !p.is_active,
    ensures
        steps(p, k) == p,
    decreases k,
{
    if k > 0 {
        law_terminated_contract_is_frozen(p, (k - 1) as nat);
    }
}

} // verus!
