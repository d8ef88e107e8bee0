use community_simulation::invariants::{
    gather_violations, Invariant, InvariantChecker, InvariantViolation, NonNegativeWealthInvariant,
    WealthState,
};

#[test]
fn test_invariant_violation_display() {
    let violation = InvariantViolation {
        invariant_name: "TestInvariant".to_string(),
        description: "Test violation".to_string(),
        step: 42,
        expected: Some("100".to_string()),
        actual: Some("95".to_string()),
    };

    let display = violation.display_text();
    assert!(display.contains("TestInvariant"));
    assert!(display.contains("step 42"));
    assert!(display.contains("Test violation"));
    assert!(display.contains("expected: 100"));
    assert!(display.contains("actual: 95"));
}

#[test]
fn test_invariant_violation_display_without_values() {
    let violation = InvariantViolation {
        invariant_name: "TestInvariant".to_string(),
        description: "Test violation".to_string(),
        step: 42,
        expected: None,
        actual: None,
    };

    let display = violation.display_text();
    assert!(display.contains("TestInvariant"));
    assert!(display.contains("step 42"));
    assert!(!display.contains("expected:"));
}

#[test]
fn violation_text_exact() {
    let violation = InvariantViolation {
        invariant_name: "MoneyConservation".to_string(),
        description: "changed".to_string(),
        step: 1007,
        expected: Some("1.00".to_string()),
        actual: None,
    };
    assert_eq!(
        violation.display_text(),
        "Invariant violation 'MoneyConservation' at step 1007: changed"
    );
    let both = InvariantViolation { actual: Some("2.00".to_string()), ..violation };
    assert_eq!(
        both.display_text(),
        "Invariant violation 'MoneyConservation' at step 1007: changed (expected: 1.00, actual: 2.00)"
    );
    let at_zero = InvariantViolation { step: 0, ..both };
    assert!(at_zero.display_text().contains("at step 0:"));
}

#[test]
fn test_non_negative_wealth_description() {
    let invariant1 = NonNegativeWealthInvariant::new(false);
    let desc1 = invariant1.description();
    assert!(desc1.contains("negative wealth"));
    assert!(!desc1.contains("unless loans"));

    let invariant2 = NonNegativeWealthInvariant::new(true);
    let desc2 = invariant2.description();
    assert!(desc2.contains("negative wealth"));
    assert!(desc2.contains("unless loans are enabled"));
}

#[test]
fn non_negative_wealth_report() {
    let inv = NonNegativeWealthInvariant::new(false);
    assert_eq!(inv.name(), "NonNegativeWealth");
    assert!(inv.report(3, &vec![]).is_ok());
    let v = inv.report(3, &vec![(2, "-1.50".to_string())]).unwrap_err();
    assert_eq!(v.invariant_name, "NonNegativeWealth");
    assert_eq!(v.step, 3);
    assert_eq!(v.description, "1 person(s) have negative wealth: Person 2 has -1.50");
    assert_eq!(v.expected.as_deref(), Some("All persons have non-negative wealth"));
    assert_eq!(v.actual.as_deref(), Some("1 persons with negative wealth"));

    let many: Vec<(usize, String)> = (0..7).map(|i| (i * 10, format!("-{}.00", i + 1))).collect();
    let v = inv.report(9, &many).unwrap_err();
    assert_eq!(
        v.description,
        "7 person(s) have negative wealth: Person 0 has -1.00, Person 10 has -2.00, \
         Person 20 has -3.00, Person 30 has -4.00, Person 40 has -5.00 (and 2 more)"
    );
    assert_eq!(v.actual.as_deref(), Some("7 persons with negative wealth"));
}

#[test]
fn non_negative_wealth_waiver() {
    assert!(NonNegativeWealthInvariant::new(true).waived(true));
    assert!(!NonNegativeWealthInvariant::new(true).waived(false));
    assert!(!NonNegativeWealthInvariant::new(false).waived(true));
}

struct Balances {
    money: Vec<i64>,
    step: usize,
}

struct NoDebt;

impl Invariant<Balances> for NoDebt {
    fn name(&self) -> &str {
        "NoDebt"
    }

    fn check(&self, state: &Balances) -> Result<(), InvariantViolation> {
        if state.money.iter().any(|m| *m < 0) {
            Err(InvariantViolation {
                invariant_name: "NoDebt".to_string(),
                description: "debt".to_string(),
                step: state.step,
                expected: None,
                actual: None,
            })
        } else {
            Ok(())
        }
    }
}

#[test]
fn test_invariant_checker_empty() {
    let checker: InvariantChecker<Balances> = InvariantChecker::new();
    assert!(!checker.has_invariants());
    assert_eq!(checker.count(), 0);
    assert!(!checker.is_strict());
}

#[test]
fn test_invariant_checker_strict_mode() {
    let mut checker: InvariantChecker<Balances> = InvariantChecker::new_strict();
    assert!(checker.is_strict());

    checker.set_strict_mode(false);
    assert!(!checker.is_strict());
}

#[test]
fn test_invariant_checker_violations_count() {
    let checker: InvariantChecker<Balances> = InvariantChecker::new();
    assert_eq!(checker.total_violations(), 0);
}

#[test]
fn checker_collects_violations() {
    let mut checker: InvariantChecker<Balances> = InvariantChecker::new();
    checker.add_invariant(Box::new(NoDebt));
    checker.add_invariant(Box::new(NoDebt));
    assert_eq!(checker.count(), 2);
    assert!(checker.has_invariants());
    let fine = Balances { money: vec![1, 2], step: 1 };
    assert_eq!(checker.check_all(&fine).unwrap().len(), 0);
    let bad = Balances { money: vec![1, -2], step: 2 };
    assert_eq!(checker.check_all(&bad).unwrap().len(), 2);
    assert_eq!(checker.total_violations(), 2);
    checker.set_strict_mode(true);
    let stopped = checker.check_all(&bad).unwrap_err();
    assert_eq!(stopped.step, 2);
    assert_eq!(checker.total_violations(), 2);
}

#[test]
fn default_description_names_the_invariant() {
    assert_eq!(NoDebt.description(), "Checks the 'NoDebt' invariant");
}

fn violation_named(name: &str) -> InvariantViolation {
    InvariantViolation {
        invariant_name: name.to_string(),
        description: "broken".to_string(),
        step: 1,
        expected: None,
        actual: None,
    }
}

#[test]
fn lenient_round_reports_every_violation_in_order() {
    let outcomes = vec![
        Ok(()),
        Err(violation_named("First")),
        Ok(()),
        Err(violation_named("Second")),
    ];
    let found = gather_violations(outcomes, false).unwrap();
    let names: Vec<String> = found.iter().map(|v| v.invariant_name.clone()).collect();
    assert_eq!(names, vec!["First".to_string(), "Second".to_string()]);
}

#[test]
fn strict_round_stops_at_first_violation() {
    let outcomes = vec![Ok(()), Err(violation_named("First")), Err(violation_named("Second"))];
    match gather_violations(outcomes, true) {
        Err(v) => assert_eq!(v.invariant_name, "First"),
        Ok(_) => panic!("a strict round with a violation must fail"),
    }
}

#[test]
fn clean_round_reports_nothing() {
    assert!(gather_violations(vec![Ok(()), Ok(())], true).unwrap().is_empty());
    assert!(gather_violations(vec![], false).unwrap().is_empty());
}

#[test]
fn strict_and_lenient_rounds_agree() {
    let make = || vec![Ok(()), Err(violation_named("A")), Err(violation_named("B"))];
    let lenient = gather_violations(make(), false).unwrap();
    let strict = gather_violations(make(), true).unwrap_err();
    assert_eq!(strict.invariant_name, lenient[0].invariant_name);
    assert_eq!(lenient.len(), 2);
}

struct AlwaysBroken(&'static str);

impl Invariant<Balances> for AlwaysBroken {
    fn name(&self) -> &str {
        self.0
    }

    fn check(&self, state: &Balances) -> Result<(), InvariantViolation> {
        Err(InvariantViolation {
            invariant_name: self.0.to_string(),
            description: "always broken".to_string(),
            step: state.step,
            expected: None,
            actual: None,
        })
    }
}

#[test]
fn check_all_follows_registration_order() {
    let state = Balances { money: vec![5], step: 3 };
    let mut checker: InvariantChecker<Balances> = InvariantChecker::new();
    checker.add_invariant(Box::new(AlwaysBroken("Second")));
    checker.add_invariant(Box::new(NoDebt));
    checker.add_invariant(Box::new(AlwaysBroken("First")));
    let found = checker.check_all(&state).unwrap();
    let names: Vec<String> = found.iter().map(|v| v.invariant_name.clone()).collect();
    assert_eq!(names, vec!["Second".to_string(), "First".to_string()]);
    assert_eq!(checker.total_violations(), 2);

    checker.set_strict_mode(true);
    let first = checker.check_all(&state).unwrap_err();
    assert_eq!(first.invariant_name, "Second");
    assert_eq!(checker.total_violations(), 2);
}

#[test]
fn non_negative_wealth_registers_with_the_checker() {
    let mut checker: InvariantChecker<WealthState> = InvariantChecker::new();
    checker.add_invariant(Box::new(NonNegativeWealthInvariant::new(true)));
    checker.add_invariant(Box::new(NonNegativeWealthInvariant::new(false)));
    let indebted = WealthState {
        step: 7,
        loans_enabled: true,
        negative: vec![(2, "-1.50".to_string())],
    };
    // the first invariant is waived while loans are enabled, the second is not
    let found = checker.check_all(&indebted).unwrap();
    assert_eq!(found.len(), 1);
    assert_eq!(found[0].invariant_name, "NonNegativeWealth");
    assert_eq!(found[0].step, 7);
    assert_eq!(found[0].description, "1 person(s) have negative wealth: Person 2 has -1.50");
    let solvent = WealthState { step: 8, loans_enabled: false, negative: vec![] };
    assert!(checker.check_all(&solvent).unwrap().is_empty());
    let invariant = NonNegativeWealthInvariant::new(false);
    assert_eq!(Invariant::<WealthState>::name(&invariant), "NonNegativeWealth");
    assert_eq!(
        Invariant::<WealthState>::description(&invariant),
        "Ensures no person has negative wealth"
    );
}
