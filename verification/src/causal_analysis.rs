//! The bookkeeping of a causal comparison between a treatment group and a
//! control group of simulation runs.
use vstd::prelude::*;
use crate::text::{decimal, digits_value, law_decimal_spells_its_number, push_decimal};

verus! {

/// Default number of bootstrap samples for confidence intervals.
pub fn default_bootstrap_samples() -> (samples: usize)
    ensures
        samples == 1000,
{
    1000
}

/// Why a comparison of groups of the given sizes cannot be made, if it
/// cannot: the treatment group is checked first.
pub open spec fn spec_group_size_problem(treatment_n: nat, control_n: nat) -> Option<Seq<char>> {
    if treatment_n == 0 {
        Some("Treatment group cannot be empty"@)
    } else if control_n == 0 {
        Some("Control group cannot be empty"@)
    } else {
        None
    }
}

/// Checks that both groups hold at least one run; the error is the
/// validation message.
pub fn check_group_sizes(treatment_n: usize, control_n: usize) -> (checked: Result<(), String>)
    ensures
        match spec_group_size_problem(treatment_n as nat, control_n as nat) {
            None => checked is Ok,
            Some(msg) => checked matches Err(e) && e@ == msg,
        },
{
    if treatment_n == 0 {
        return Err(String::from_str("Treatment group cannot be empty"));
    }
    if control_n == 0 {
        return Err(String::from_str("Control group cannot be empty"));
    }
    Ok(())
}

/// Number of `true` entries.
pub open spec fn count_true(flags: Seq<bool>) -> nat
    decreases flags.len(),
{
    if flags.len() == 0 {
        0
    } else {
        count_true(flags.drop_last()) + if flags.last() { 1nat } else { 0nat }
    }
}

/// Number of metrics whose difference is statistically significant.
pub fn count_significant(significant: &Vec<bool>) -> (n: usize)
    ensures
        n == count_true(significant@),
        n <= significant@.len(),
{
    let mut n: usize = 0;
    let mut i: usize = 0;
    while i < significant.len()
        invariant
            i <= significant@.len(),
            n == count_true(significant@.take(i as int)),
            n <= i,
        decreases significant@.len() - i,
    {
        assert(significant@.take(i + 1).drop_last() =~= significant@.take(i as int));
        if significant[i] {
            n = n + 1;
        }
        i = i + 1;
    }
    assert(significant@.take(significant@.len() as int) =~= significant@);
    n
}

/// The one-line summary of a comparison.
pub open spec fn spec_summary(significant: nat, total: nat, confidence_percent: nat) -> Seq<char> {
    decimal(significant) + " out of "@ + decimal(total)
        + " metrics show statistically significant differences at "@ + decimal(confidence_percent)
        + "% confidence level"@
}

/// Summarises how many of `total` metrics differ significantly at the given
/// confidence level (in whole percent).
pub fn summary_text(significant: usize, total: usize, confidence_percent: usize) -> (text: String)
    ensures
        text@ == spec_summary(significant as nat, total as nat, confidence_percent as nat),
        text@.take((decimal(significant as nat).len() + 8 + decimal(total as nat).len()) as int)
            == decimal(significant as nat) + " out of "@ + decimal(total as nat),
{
    let mut text = String::new();
    push_decimal(&mut text, significant);
    text.append(" out of ");
    push_decimal(&mut text, total);
    text.append(" metrics show statistically significant differences at ");
    push_decimal(&mut text, confidence_percent);
    text.append("% confidence level");
    proof {
        law_summary_leads_with_counts(significant as nat, total as nat, confidence_percent as nat);
    }
    text
}

/// The summary opens with the number of significant metrics, then " out of ",
/// then the number of metrics: its leading digits spell `significant`, and the
/// digits after " out of " spell `total`.
pub proof fn law_summary_leads_with_counts(significant: nat, total: nat, confidence_percent: nat)
    ensures
        ({
            let text = spec_summary(significant, total, confidence_percent);
            let k = decimal(significant).len() as int;
            let m = decimal(total).len() as int;
            &&& text.take(k + 8 + m) == decimal(significant) + " out of "@ + decimal(total)
            &&& forall|i: int| 0 <= i < k ==> '0' <= #[trigger] text[i] <= '9'
            &&& text[k] == ' '
            &&& digits_value(text.take(k)) == significant
            &&& text.subrange(k, k + 8) == " out of "@
            &&& digits_value(text.subrange(k + 8, k + 8 + m)) == total
        }),
{
    reveal_strlit(" out of ");
    law_decimal_spells_its_number(significant);
    law_decimal_spells_its_number(total);
    let text = spec_summary(significant, total, confidence_percent);
    let a = decimal(significant);
    let b = decimal(total);
    let k = a.len() as int;
    let m = b.len() as int;
    let head = a + " out of "@ + b;
    assert(" out of "@.len() == 8);
    assert(text == head + (" metrics show statistically significant differences at "@ + decimal(
        confidence_percent,
    ) + "% confidence level"@));
    assert(text.take(k + 8 + m) =~= head);
    assert(text.take(k) =~= a);
    assert(text.subrange(k, k + 8) =~= " out of "@);
    assert(text.subrange(k + 8, k + 8 + m) =~= b);
    assert forall|i: int| 0 <= i < k implies '0' <= #[trigger] text[i] <= '9' by {
        assert(text[i] == a[i]);
    }
    assert(text[k] == " out of "@[0]);
}

} // verus!
