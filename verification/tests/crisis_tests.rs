use community_simulation::crisis::CrisisEvent;

#[test]
fn test_crisis_event_names() {
    assert_eq!(CrisisEvent::MarketCrash.name(), "Market Crash");
    assert_eq!(CrisisEvent::DemandShock.name(), "Demand Shock");
    assert_eq!(CrisisEvent::SupplyShock.name(), "Supply Shock");
    assert_eq!(CrisisEvent::CurrencyDevaluation.name(), "Currency Devaluation");
    assert_eq!(CrisisEvent::TechnologyShock.name(), "Technology Shock");
}

#[test]
fn test_all_crisis_types() {
    let types = CrisisEvent::all_types();
    assert_eq!(types.len(), 5);
    assert!(types.contains(&CrisisEvent::MarketCrash));
    assert!(types.contains(&CrisisEvent::DemandShock));
    assert!(types.contains(&CrisisEvent::SupplyShock));
    assert!(types.contains(&CrisisEvent::CurrencyDevaluation));
    assert!(types.contains(&CrisisEvent::TechnologyShock));
}

#[test]
fn test_crisis_descriptions() {
    assert!(CrisisEvent::MarketCrash.description().contains("20-40%"));
    assert!(CrisisEvent::DemandShock.description().contains("30-50%"));
    assert!(CrisisEvent::SupplyShock.description().contains("20-40%"));
    assert!(CrisisEvent::CurrencyDevaluation.description().contains("10-30%"));
    assert!(CrisisEvent::TechnologyShock.description().contains("50-80%"));
}

#[test]
fn test_crisis_event_equality() {
    assert_eq!(CrisisEvent::MarketCrash, CrisisEvent::MarketCrash);
    assert_ne!(CrisisEvent::MarketCrash, CrisisEvent::DemandShock);
}

#[test]
fn test_crisis_event_clone() {
    let crisis = CrisisEvent::TechnologyShock;
    let cloned = crisis;
    assert_eq!(crisis, cloned);
}

#[test]
fn crisis_names_are_distinct() {
    let types = CrisisEvent::all_types();
    for (i, a) in types.iter().enumerate() {
        for (j, b) in types.iter().enumerate() {
            assert_eq!(i == j, a.name() == b.name());
        }
    }
}
