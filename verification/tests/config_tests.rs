use community_simulation::config::{
    default_loan_repayment_period, default_max_contract_duration, default_min_contract_duration,
    default_proposal_duration, default_seasonal_period, default_skills_per_person, PresetName,
};

#[test]
fn test_preset_name_from_str() {
    assert_eq!(PresetName::from_str("default").unwrap(), PresetName::Default);
    assert_eq!(PresetName::from_str("small_economy").unwrap(), PresetName::SmallEconomy);
    assert_eq!(PresetName::from_str("small").unwrap(), PresetName::SmallEconomy);
    assert_eq!(PresetName::from_str("crisis").unwrap(), PresetName::CrisisScenario);
    assert!(PresetName::from_str("nonexistent").is_err());
}

#[test]
fn test_preset_name_as_str() {
    assert_eq!(PresetName::Default.as_str(), "default");
    assert_eq!(PresetName::SmallEconomy.as_str(), "small_economy");
    assert_eq!(PresetName::QuickTest.as_str(), "quick_test");
}

#[test]
fn preset_names_ignore_case_and_accept_aliases() {
    assert_eq!(PresetName::from_str("LARGE").unwrap(), PresetName::LargeEconomy);
    assert_eq!(PresetName::from_str("High_Inflation").unwrap(), PresetName::HighInflation);
    assert_eq!(PresetName::from_str("inflation").unwrap(), PresetName::HighInflation);
    assert_eq!(PresetName::from_str("Tech").unwrap(), PresetName::TechGrowth);
    assert_eq!(PresetName::from_str("tech_growth").unwrap(), PresetName::TechGrowth);
    assert_eq!(PresetName::from_str("QUICK").unwrap(), PresetName::QuickTest);
    assert_eq!(PresetName::from_str("crisis_scenario").unwrap(), PresetName::CrisisScenario);
}

#[test]
fn unknown_preset_error_message() {
    assert_eq!(
        PresetName::from_str("Nonexistent").unwrap_err(),
        "Unknown preset: 'Nonexistent'".to_string()
    );
    assert!(PresetName::from_str("").is_err());
    assert!(PresetName::from_str(" default").is_err());
}

#[test]
fn preset_parse_through_from_str_trait() {
    let parsed: PresetName = "Quick_Test".parse().unwrap();
    assert_eq!(parsed, PresetName::QuickTest);
    let failed: Result<PresetName, String> = "bogus".parse();
    assert_eq!(failed.unwrap_err(), "Unknown preset: 'bogus'");
}

#[test]
fn every_preset_round_trips_through_its_name() {
    let all = PresetName::all();
    assert_eq!(all.len(), 7);
    for p in all {
        assert_eq!(PresetName::from_str(p.as_str()).unwrap(), p);
        assert_eq!(PresetName::from_str(&p.as_str().to_uppercase()).unwrap(), p);
    }
}

#[test]
fn preset_descriptions() {
    assert_eq!(PresetName::Default.description(), "Standard economy with 100 persons, 500 steps");
    assert_eq!(
        PresetName::QuickTest.description(),
        "Very small economy for rapid testing (10 persons, 50 steps)"
    );
    assert_eq!(
        PresetName::CrisisScenario.description(),
        "Economic crisis with low initial money and high prices"
    );
}

#[test]
fn integer_defaults() {
    assert_eq!(default_seasonal_period(), 100);
    assert_eq!(default_loan_repayment_period(), 20);
    assert_eq!(default_skills_per_person(), 1);
    assert_eq!(default_max_contract_duration(), 50);
    assert_eq!(default_min_contract_duration(), 10);
    assert_eq!(default_proposal_duration(), 20);
}

#[test]
fn every_preset_parses_in_any_ascii_case() {
    for p in PresetName::all() {
        assert_eq!(PresetName::from_str(p.as_str()).unwrap(), p);
        assert_eq!(PresetName::from_str(&p.as_str().to_uppercase()).unwrap(), p);
    }
    assert_eq!(
        PresetName::from_str("nonexistent").unwrap_err(),
        "Unknown preset: 'nonexistent'".to_string()
    );
}
