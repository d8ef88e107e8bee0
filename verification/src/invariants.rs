//! Invariants of a running simulation and the reports of their violations.
use vstd::prelude::*;
use crate::text::{decimal, push_decimal};

verus! {

/// Represents a violation of an invariant.
#[derive(Debug, Clone)]
pub struct InvariantViolation {
    /// Name of the violated invariant.
    pub invariant_name: String,
    /// Description of what went wrong.
    pub description: String,
    /// Simulation step at which the violation occurred.
    pub step: usize,
    /// Expected value, if one is known.
    pub expected: Option<String>,
    /// Actual value observed, if one is known.
    pub actual: Option<String>,
}

/// The one-line report of a violation: name, step and description, followed
/// by the expected and actual values when both are known.
pub open spec fn violation_text(v: InvariantViolation) -> Seq<char> {
    let head = "Invariant violation '"@ + v.invariant_name@ + "' at step "@ + decimal(v.step as nat)
        + ": "@ + v.description@;
    match (v.expected, v.actual) {
        (Some(e), Some(a)) => head + " (expected: "@ + e@ + ", actual: "@ + a@ + ")"@,
        _ => head,
    }
}

impl InvariantViolation {
    /// The human-readable report of this violation.
    pub fn display_text(&self) -> (text: String)
        ensures
            text@ == violation_text(*self),
    {
        let mut text = String::from_str("Invariant violation '");
        text.append(self.invariant_name.as_str());
        text.append("' at step ");
        push_decimal(&mut text, self.step);
        text.append(": ");
        text.append(self.description.as_str());
        match (&self.expected, &self.actual) {
            (Some(expected), Some(actual)) => {
                text.append(" (expected: ");
                text.append(expected.as_str());
                text.append(", actual: ");
                text.append(actual.as_str());
                text.append(")");
            },
            _ => {},
        }
        text
    }
}

/// Texts joined with ", " between neighbours.
pub open spec fn join_comma(parts: Seq<Seq<char>>) -> Seq<char>
    decreases parts.len(),
{
    if parts.len() == 0 {
        Seq::empty()
    } else if parts.len() == 1 {
        parts[0]
    } else {
        join_comma(parts.drop_last()) + ", "@ + parts.last()
    }
}

/// How one person with negative wealth is listed: their index and their
/// money, already written out.
pub open spec fn negative_wealth_entry(entry: (usize, Seq<char>)) -> Seq<char> {
    "Person "@ + decimal(entry.0 as nat) + " has "@ + entry.1
}

/// The listing of persons with negative wealth: the first five, and how many
/// more there are when there are more than five.
pub open spec fn negative_wealth_details(entries: Seq<(usize, Seq<char>)>) -> Seq<char> {
    let shown = join_comma(entries.take(if entries.len() > 5 { 5 } else { entries.len() as int }).map_values(
        |e: (usize, Seq<char>)| negative_wealth_entry(e),
    ));
    if entries.len() > 5 {
        shown + " (and "@ + decimal((entries.len() - 5) as nat) + " more)"@
    } else {
        shown
    }
}

/// The violation reported at `step` for the persons with negative wealth.
pub open spec fn negative_wealth_violation(step: usize, entries: Seq<(usize, Seq<char>)>) -> (
    Seq<char>,
    Seq<char>,
    Seq<char>,
    Seq<char>,
) {
    (
        "NonNegativeWealth"@,
        decimal(entries.len()) + " person(s) have negative wealth: "@ + negative_wealth_details(entries),
        "All persons have non-negative wealth"@,
        decimal(entries.len()) + " persons with negative wealth"@,
    )
}

/// `outcome` is the report at `step` for the persons with negative wealth
/// listed in `negative`: no violation when there are none, else the violation
/// that [`negative_wealth_violation`] lays out.
pub open spec fn is_wealth_report(
    step: usize,
    negative: Seq<(usize, String)>,
    outcome: Result<(), InvariantViolation>,
) -> bool {
    &&& negative.len() == 0 ==> outcome is Ok
    &&& negative.len() > 0 ==> (outcome matches Err(v) && {
        let entries = negative.map_values(|e: (usize, String)| (e.0, e.1@));
        let (name, description, expected, actual) = negative_wealth_violation(step, entries);
        &&& v.invariant_name@ == name
        &&& v.description@ == description
        &&& v.step == step
        &&& v.expected matches Some(e) && e@ == expected
        &&& v.actual matches Some(a) && a@ == actual
    })
}

/// What the non-negative wealth invariant reads of a simulation: the step,
/// whether loans are enabled, and the persons with negative money (their index
/// and their money written with two decimals).
pub struct WealthState {
    pub step: usize,
    pub loans_enabled: bool,
    pub negative: Vec<(usize, String)>,
}

/// Invariant that no person holds negative wealth, optionally waived while
/// loans are enabled.
#[derive(Debug, Clone)]
pub struct NonNegativeWealthInvariant {
    allow_negative_when_loans_enabled: bool,
}

impl NonNegativeWealthInvariant {
    /// Whether negative balances are accepted while loans are enabled.
    pub closed spec fn allows_debt_with_loans(self) -> bool {
        self.allow_negative_when_loans_enabled
    }

    /// The description of an invariant with the given waiver.
    pub open spec fn spec_description(allows_debt_with_loans: bool) -> Seq<char> {
        if allows_debt_with_loans {
            "Ensures no person has negative wealth (unless loans are enabled)"@
        } else {
            "Ensures no person has negative wealth"@
        }
    }

    /// Creates the invariant; with `allow_negative_when_loans_enabled` the check
    /// is skipped while loans are enabled.
    pub fn new(allow_negative_when_loans_enabled: bool) -> (inv: Self)
        ensures
            inv.allows_debt_with_loans() == allow_negative_when_loans_enabled,
    {
        Self { allow_negative_when_loans_enabled }
    }

    /// The name under which violations are reported.
    pub fn name(&self) -> (name: &str)
        ensures
            name@ == "NonNegativeWealth"@,
    {
        "NonNegativeWealth"
    }

    /// What this invariant checks.
    pub fn description(&self) -> (text: String)
        ensures
            text@ == Self::spec_description(self.allows_debt_with_loans()),
    {
        if self.allow_negative_when_loans_enabled {
            String::from_str("Ensures no person has negative wealth (unless loans are enabled)")
        } else {
            String::from_str("Ensures no person has negative wealth")
        }
    }

    /// Whether the check is skipped for a simulation with or without loans.
    pub fn waived(&self, loans_enabled: bool) -> (skip: bool)
        ensures
            skip == (self.allows_debt_with_loans() && loans_enabled),
    {
        self.allow_negative_when_loans_enabled && loans_enabled
    }

    /// The outcome of the check at `step`, given the persons whose money is
    /// negative (their index and their money written with two decimals): no
    /// violation when there are none, else the report naming at most five of
    /// them.
    pub fn report(&self, step: usize, negative: &Vec<(usize, String)>) -> (outcome: Result<(), InvariantViolation>)
        ensures
            is_wealth_report(step, negative@, outcome),
    {
        let n = negative.len();
        if n == 0 {
            return Ok(());
        }
        let ghost entries = negative@.map_values(|e: (usize, String)| (e.0, e.1@));
        let shown: usize = if n > 5 { 5 } else { n };
        let ghost parts = entries.take(shown as int).map_values(
            |e: (usize, Seq<char>)| negative_wealth_entry(e),
        );
        let mut details = String::new();
        let mut i: usize = 0;
        while i < shown
            invariant
                shown <= n,
                n == negative@.len(),
                entries == negative@.map_values(|e: (usize, String)| (e.0, e.1@)),
                parts == entries.take(shown as int).map_values(
                    |e: (usize, Seq<char>)| negative_wealth_entry(e),
                ),
                i <= shown,
                details@ == join_comma(parts.take(i as int)),
            decreases shown - i,
        {
            let ghost before = details@;
            if i > 0 {
                details.append(", ");
            }
            details.append("Person ");
            push_decimal(&mut details, negative[i].0);
            details.append(" has ");
            details.append(negative[i].1.as_str());
            proof {
                assert(parts[i as int] == negative_wealth_entry(entries[i as int]));
                assert(parts.take(i + 1).drop_last() =~= parts.take(i as int));
                if i == 0 {
                    assert(details@ =~= parts[0]);
                } else {
                    assert(details@ =~= before + ", "@ + parts[i as int]);
                }
            }
            i = i + 1;
        }
        proof {
            assert(parts.take(shown as int) =~= parts);
        }
        if n > 5 {
            details.append(" (and ");
            push_decimal(&mut details, n - 5);
            details.append(" more)");
        }
        let mut description = String::new();
        push_decimal(&mut description, n);
        description.append(" person(s) have negative wealth: ");
        description.append(details.as_str());
        let mut actual = String::new();
        push_decimal(&mut actual, n);
        actual.append(" persons with negative wealth");
        Err(
            InvariantViolation {
                invariant_name: String::from_str("NonNegativeWealth"),
                description,
                step,
                expected: Some(String::from_str("All persons have non-negative wealth")),
                actual: Some(actual),
            },
        )
    }
}

/// A condition that should hold of every state of a running simulation.
///
/// `S` is the simulation state the invariant inspects.
pub trait Invariant<S: ?Sized> {
    /// The name of this invariant, for reports.
    fn name(&self) -> &str;

    /// `Ok(())` when the invariant holds of `state`, else the violation found.
    fn check(&self, state: &S) -> Result<(), InvariantViolation>;

    /// What this invariant checks; by default "Checks the '<name>' invariant",
    /// with the name that [`Invariant::name`] gives.
    fn description(&self) -> (text: String)
        default_ensures
            exists|name: &str|
                call_ensures(Self::name, (self,), name) && text@ == "Checks the '"@ + name@
                    + "' invariant"@,
    {
        let mut text = String::from_str("Checks the '");
        text.append(self.name());
        text.append("' invariant");
        text
    }
}

impl Invariant<WealthState> for NonNegativeWealthInvariant {
    fn name(&self) -> (name: &str)
        ensures
            name@ == "NonNegativeWealth"@,
    {
        "NonNegativeWealth"
    }

    /// No violation while the check is waived; otherwise the report of the
    /// persons with negative wealth.
    fn check(&self, state: &WealthState) -> (outcome: Result<(), InvariantViolation>)
        ensures
            self.allows_debt_with_loans() && state.loans_enabled ==> outcome is Ok,
            !(self.allows_debt_with_loans() && state.loans_enabled) ==> is_wealth_report(
                state.step,
                state.negative@,
                outcome,
            ),
    {
        if self.waived(state.loans_enabled) {
            Ok(())
        } else {
            self.report(state.step, &state.negative)
        }
    }

    fn description(&self) -> (text: String)
        ensures
            text@ == NonNegativeWealthInvariant::spec_description(self.allows_debt_with_loans()),
    {
        NonNegativeWealthInvariant::description(self)
    }
}

/// The violations among the outcomes of checking invariants, in order.
pub open spec fn violations_of(outcomes: Seq<Result<(), InvariantViolation>>) -> Seq<InvariantViolation>
    decreases outcomes.len(),
{
    if outcomes.len() == 0 {
        Seq::empty()
    } else {
        let rest = violations_of(outcomes.drop_last());
        match outcomes.last() {
            Ok(()) => rest,
            Err(v) => rest.push(v),
        }
    }
}

/// What a round of checks reports, given each invariant's outcome in
/// registration order: in lenient mode every violation; in strict mode the
/// first violation as an error, or nothing when there is none.
pub open spec fn gathered(outcomes: Seq<Result<(), InvariantViolation>>, strict: bool) -> Result<
    Seq<InvariantViolation>,
    InvariantViolation,
> {
    if !strict {
        Ok(violations_of(outcomes))
    } else if violations_of(outcomes).len() > 0 {
        Err(violations_of(outcomes)[0])
    } else {
        Ok(Seq::empty())
    }
}

proof fn lemma_violations_of_front(outcomes: Seq<Result<(), InvariantViolation>>)
    requires
        outcomes.len() > 0,
    ensures
        violations_of(outcomes) == match outcomes[0] {
            Ok(()) => violations_of(outcomes.drop_first()),
            Err(v) => seq![v] + violations_of(outcomes.drop_first()),
        },
    decreases outcomes.len(),
{
    let o = outcomes;
    if o.len() == 1 {
        assert(o.drop_first().len() == 0);
        assert(o.drop_last().len() == 0);
        assert(o.last() == o[0]);
        assert(violations_of(o.drop_last()) == Seq::<InvariantViolation>::empty());
        assert(violations_of(o.drop_first()) == Seq::<InvariantViolation>::empty());
        match o[0] {
            Ok(()) => {},
            Err(v) => {
                assert(Seq::<InvariantViolation>::empty().push(v) =~= seq![v] + Seq::<InvariantViolation>::empty());
            },
        }
    } else {
        let p = o.drop_last();
        let r = o.drop_first();
        let q = r.drop_last();
        assert(p.drop_first() =~= q);
        assert(p[0] == o[0]);
        assert(r.last() == o.last());
        lemma_violations_of_front(p);
        match o.last() {
            Ok(()) => {
                assert(violations_of(o) == violations_of(p));
                assert(violations_of(r) == violations_of(q));
            },
            Err(w) => {
                assert(violations_of(o) == violations_of(p).push(w));
                assert(violations_of(r) == violations_of(q).push(w));
                match o[0] {
                    Ok(()) => {},
                    Err(v) => {
                        assert((seq![v] + violations_of(q)).push(w) =~= seq![v] + violations_of(q).push(w));
                    },
                }
            },
        }
    }
}

proof fn lemma_violations_of_len(outcomes: Seq<Result<(), InvariantViolation>>)
    ensures
        violations_of(outcomes).len() <= outcomes.len(),
    decreases outcomes.len(),
{
    if outcomes.len() > 0 {
        lemma_violations_of_len(outcomes.drop_last());
    }
}

/// The report of a round of checks, given each invariant's outcome in
/// registration order (see [`gathered`]).
pub fn gather_violations(outcomes: Vec<Result<(), InvariantViolation>>, strict: bool) -> (report: Result<
    Vec<InvariantViolation>,
    InvariantViolation,
>)
    ensures
        match (report, gathered(outcomes@, strict)) {
            (Ok(found), Ok(expected)) => found@ == expected,
            (Err(v), Err(expected)) => v == expected,
            _ => false,
        },
{
    let ghost all = outcomes@;
    let mut rest = outcomes;
    let mut found: Vec<InvariantViolation> = Vec::new();
    while rest.len() > 0
        invariant
            all == outcomes@,
            violations_of(all) == found@ + violations_of(rest@),
            strict ==> found@.len() == 0,
        decreases rest@.len(),
    {
        proof {
            lemma_violations_of_front(rest@);
        }
        let ghost before = rest@;
        let outcome = rest.remove(0);
        assert(rest@ =~= before.drop_first());
        match outcome {
            Ok(()) => {},
            Err(v) => {
                if strict {
                    assert(violations_of(all) =~= seq![v] + violations_of(rest@));
                    assert(violations_of(all)[0] == v);
                    assert(gathered(all, strict) == Err::<Seq<InvariantViolation>, InvariantViolation>(v));
                    return Err(v);
                }
                found.push(v);
                assert(violations_of(all) =~= found@ + violations_of(rest@));
            },
        }
    }
    assert(violations_of(rest@) =~= Seq::<InvariantViolation>::empty());
    assert(found@ =~= violations_of(all));
    Ok(found)
}

/// On the same outcomes, a strict round fails exactly when a lenient round
/// finds violations, and with the first of them.
pub proof fn law_strict_reports_first_lenient_violation(outcomes: Seq<Result<(), InvariantViolation>>)
    ensures
        match (gathered(outcomes, true), gathered(outcomes, false)) {
            (Err(first), Ok(all)) => all.len() > 0 && first == all[0],
            (Ok(none), Ok(all)) => none.len() == 0 && all.len() == 0,
            _ => false,
        },
{
}

/// A collection of invariants checked together against a simulation state.
///
/// `I` is the type of the invariants held; by default any invariant of `S`.
#[verifier::reject_recursive_types(S)]
pub struct InvariantChecker<S: ?Sized, I: Invariant<S> + ?Sized = dyn Invariant<S>> {
    invariants: Vec<Box<I>>,
    state: std::marker::PhantomData<Box<S>>,
    strict_mode: bool,
    total_violations: usize,
}

impl<S: ?Sized, I: Invariant<S> + ?Sized> InvariantChecker<S, I> {
    /// The registered invariants, in registration order.
    pub closed spec fn spec_rules(&self) -> Seq<Box<I>> {
        self.invariants@
    }

    /// Number of registered invariants.
    pub open spec fn spec_count(&self) -> nat {
        self.spec_rules().len()
    }

    /// Whether the first violation stops the simulation.
    pub closed spec fn spec_strict(&self) -> bool {
        self.strict_mode
    }

    /// Violations found so far.
    pub closed spec fn spec_total_violations(&self) -> nat {
        self.total_violations as nat
    }

    /// A lenient checker without invariants.
    pub fn new() -> (c: Self)
        ensures
            c.spec_count() == 0,
            !c.spec_strict(),
            c.spec_total_violations() == 0,
    {
        InvariantChecker {
            invariants: Vec::new(),
            state: std::marker::PhantomData,
            strict_mode: false,
            total_violations: 0,
        }
    }

    /// A strict checker without invariants: its first violation stops the
    /// simulation.
    pub fn new_strict() -> (c: Self)
        ensures
            c.spec_count() == 0,
            c.spec_strict(),
            c.spec_total_violations() == 0,
    {
        InvariantChecker {
            invariants: Vec::new(),
            state: std::marker::PhantomData,
            strict_mode: true,
            total_violations: 0,
        }
    }

    /// Registers an invariant to be checked.
    pub fn add_invariant(&mut self, rule: Box<I>)
        ensures
            final(self).spec_rules() == old(self).spec_rules().push(rule),
            final(self).spec_count() == old(self).spec_count() + 1,
            final(self).spec_strict() == old(self).spec_strict(),
            final(self).spec_total_violations() == old(self).spec_total_violations(),
    {
        self.invariants.push(rule);
    }

    /// Chooses between strict mode (stop on violation) and lenient mode.
    pub fn set_strict_mode(&mut self, strict: bool)
        ensures
            final(self).spec_rules() == old(self).spec_rules(),
            final(self).spec_count() == old(self).spec_count(),
            final(self).spec_strict() == strict,
            final(self).spec_total_violations() == old(self).spec_total_violations(),
    {
        self.strict_mode = strict;
    }

    /// Checks every registered invariant, in registration order, against
    /// `state`, and reports the outcomes as [`gather_violations`] does.
    ///
    /// In lenient mode all violations are returned and added to the running
    /// total. In strict mode the first violation is returned as `Err` at once,
    /// without checking the invariants after it, for the caller to stop the
    /// simulation, and the total is left as it was.
    pub fn check_all(&mut self, state: &S) -> (outcome: Result<Vec<InvariantViolation>, InvariantViolation>)
        requires
            old(self).spec_total_violations() + old(self).spec_count() <= usize::MAX,
        ensures
            final(self).spec_count() == old(self).spec_count(),
            final(self).spec_strict() == old(self).spec_strict(),
            match outcome {
                Ok(found) => {
                    &&& found@.len() <= old(self).spec_count()
                    &&& old(self).spec_strict() ==> found@.len() == 0
                    &&& final(self).spec_total_violations() == old(self).spec_total_violations()
                        + found@.len()
                },
                Err(_) => {
                    &&& old(self).spec_strict()
                    &&& final(self).spec_total_violations() == old(self).spec_total_violations()
                },
            },
            final(self).spec_rules() == old(self).spec_rules(),
            exists|checked: Seq<Result<(), InvariantViolation>>|
                {
                    &&& forall|j: int|
                        0 <= j < checked.len() ==> call_ensures(
                            I::check,
                            (&*old(self).spec_rules()[j], state),
                            #[trigger] checked[j],
                        )
                    &&& checked.len() <= old(self).spec_count()
                    &&& outcome is Ok ==> checked.len() == old(self).spec_count()
                    &&& old(self).spec_strict() ==> forall|j: int|
                        0 <= j < checked.len() - 1 ==> (#[trigger] checked[j]) is Ok
                    &&& match (outcome, gathered(checked, old(self).spec_strict())) {
                        (Ok(found), Ok(expected)) => found@ == expected,
                        (Err(v), Err(expected)) => v == expected,
                        _ => false,
                    }
                },
    {
        let n = self.invariants.len();
        let mut outcomes: Vec<Result<(), InvariantViolation>> = Vec::new();
        let mut stopped = false;
        let mut i: usize = 0;
        while i < n && !stopped
            invariant
                n == self.invariants@.len(),
                i <= n,
                outcomes@.len() == i,
                forall|j: int|
                    0 <= j < i ==> call_ensures(
                        I::check,
                        (&*self.invariants@[j], state),
                        #[trigger] outcomes@[j],
                    ),
                stopped ==> self.strict_mode && outcomes@.len() > 0 && outcomes@.last() is Err,
                self.strict_mode ==> forall|j: int|
                    0 <= j < i && !(stopped && j == i - 1) ==> (#[trigger] outcomes@[j]) is Ok,
            decreases n - i,
        {
            let outcome = self.invariants[i].check(state);
            stopped = self.strict_mode && outcome.is_err();
            outcomes.push(outcome);
            i = i + 1;
        }
        let ghost checked = outcomes@;
        proof {
            lemma_violations_of_len(outcomes@);
            if stopped {
                assert(violations_of(checked).len() > 0);
            }
        }
        match gather_violations(outcomes, self.strict_mode) {
            Ok(found) => {
                self.total_violations = self.total_violations + found.len();
                Ok(found)
            },
            Err(violation) => Err(violation),
        }
    }

    /// Violations found so far.
    pub fn total_violations(&self) -> (total: usize)
        ensures
            total == self.spec_total_violations(),
    {
        self.total_violations
    }

    /// Whether any invariant is registered.
    pub fn has_invariants(&self) -> (any: bool)
        ensures
            any == (self.spec_count() > 0),
    {
        self.invariants.len() > 0
    }

    /// Number of registered invariants.
    pub fn count(&self) -> (n: usize)
        ensures
            n == self.spec_count(),
    {
        self.invariants.len()
    }

    /// Whether strict mode is on.
    pub fn is_strict(&self) -> (strict: bool)
        ensures
            strict == self.spec_strict(),
    {
        self.strict_mode
    }
}

impl<S: ?Sized, I: Invariant<S> + ?Sized> Default for InvariantChecker<S, I> {
    fn default() -> (c: Self)
        ensures
            c.spec_count() == 0,
            !c.spec_strict(),
            c.spec_total_violations() == 0,
    {
        InvariantChecker::new()
    }
}

} // verus!
