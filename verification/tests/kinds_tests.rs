use community_simulation::auction::AuctionType;
use community_simulation::environment::Resource;
use community_simulation::insurance::{claim_payable, policy_expired, InsuranceType};
use community_simulation::investment::InvestmentType;

#[test]
fn test_resource_all() {
    let all = Resource::all();
    assert_eq!(all.len(), 4);
    assert!(all.contains(&Resource::Energy));
    assert!(all.contains(&Resource::Water));
    assert!(all.contains(&Resource::Materials));
    assert!(all.contains(&Resource::Land));
}

#[test]
fn resource_names() {
    let names: Vec<&str> = Resource::all().iter().map(|r| r.name()).collect();
    assert_eq!(names, vec!["Energy", "Water", "Materials", "Land"]);
}

#[test]
fn test_insurance_types() {
    let types = InsuranceType::all_types();
    assert_eq!(types.len(), 3);
    assert!(types.contains(&InsuranceType::Credit));
    assert!(types.contains(&InsuranceType::Income));
    assert!(types.contains(&InsuranceType::Crisis));
}

#[test]
fn insurance_type_names() {
    assert_eq!(InsuranceType::Credit.name(), "Credit Insurance");
    assert_eq!(InsuranceType::Income.name(), "Income Insurance");
    assert_eq!(InsuranceType::Crisis.name(), "Crisis Insurance");
}

#[test]
fn test_insurance_expiration() {
    // bought at step 0 for 50 steps
    assert!(!policy_expired(0, 50, 0));
    assert!(!policy_expired(0, 50, 49));
    assert!(policy_expired(0, 50, 50));
    assert!(policy_expired(0, 50, 100));
}

#[test]
fn test_indefinite_insurance_never_expires() {
    // a duration of 0 is indefinite coverage
    assert!(!policy_expired(0, 0, 0));
    assert!(!policy_expired(0, 0, 1000));
    assert!(!policy_expired(0, 0, 10000));
}

#[test]
fn policy_expiry_rules() {
    assert!(!policy_expired(100, 5, 50));
    assert!(!policy_expired(usize::MAX - 1, 10, usize::MAX));
    assert!(claim_payable(true, false, 0, 50, 10));
    assert!(!claim_payable(true, true, 0, 50, 10));
    assert!(!claim_payable(false, false, 0, 50, 10));
    assert!(!claim_payable(true, false, 0, 50, 60));
}

#[test]
fn auction_and_investment_kinds() {
    assert_eq!(AuctionType::English, AuctionType::English);
    let a = InvestmentType::Education { skill_id: "Programming".to_string() };
    let b = InvestmentType::Education { skill_id: "Programming".to_string() };
    let c = InvestmentType::Production { recipe_name: "Programming".to_string() };
    let d = InvestmentType::Education { skill_id: "Cooking".to_string() };
    assert_eq!(a, b);
    assert_ne!(a, c);
    assert_ne!(a, d);
    assert_eq!(a.clone(), a);
}
