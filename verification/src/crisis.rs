//! Kinds of economic crisis that can strike the simulated economy.
use vstd::prelude::*;

verus! {

/// Types of economic crises that can occur during the simulation.
#[derive(Debug, Clone, Copy, PartialEq, Eq, Structural)]
pub enum CrisisEvent {
    /// Sudden price drop across all skills.
    MarketCrash,
    /// Sudden drop in overall demand.
    DemandShock,
    /// Sudden reduction in available supply.
    SupplyShock,
    /// Sudden reduction in everyone's purchasing power.
    CurrencyDevaluation,
    /// Technological breakthrough making some skills obsolete.
    TechnologyShock,
}

/// Every crisis kind, in declaration order.
pub open spec fn all_crisis_events() -> Seq<CrisisEvent> {
    seq![
        CrisisEvent::MarketCrash,
        CrisisEvent::DemandShock,
        CrisisEvent::SupplyShock,
        CrisisEvent::CurrencyDevaluation,
        CrisisEvent::TechnologyShock,
    ]
}

impl CrisisEvent {
    /// Display name of a crisis kind.
    pub open spec fn spec_name(self) -> Seq<char> {
        match self {
            CrisisEvent::MarketCrash => "Market Crash"@,
            CrisisEvent::DemandShock => "Demand Shock"@,
            CrisisEvent::SupplyShock => "Supply Shock"@,
            CrisisEvent::CurrencyDevaluation => "Currency Devaluation"@,
            CrisisEvent::TechnologyShock => "Technology Shock"@,
        }
    }

    /// Description of what a crisis kind does to the economy.
    pub open spec fn spec_description(self) -> Seq<char> {
        match self {
            CrisisEvent::MarketCrash => "Sudden price drop across all skills (20-40%)"@,
            CrisisEvent::DemandShock => "Sudden drop in overall demand (30-50%)"@,
            CrisisEvent::SupplyShock => "Reduction in available supply (20-40%)"@,
            CrisisEvent::CurrencyDevaluation => "Reduction in purchasing power (10-30%)"@,
            CrisisEvent::TechnologyShock => "Technological disruption making certain skills obsolete (50-80%)"@,
        }
    }

    /// All possible crisis event types.
    pub fn all_types() -> (types: Vec<CrisisEvent>)
        ensures
            types@ == all_crisis_events(),
    {
        vec![
            CrisisEvent::MarketCrash,
            CrisisEvent::DemandShock,
            CrisisEvent::SupplyShock,
            CrisisEvent::CurrencyDevaluation,
            CrisisEvent::TechnologyShock,
        ]
    }

    /// A human-readable name for this crisis type.
    pub fn name(&self) -> (name: &str)
        ensures
            name@ == self.spec_name(),
    {
        match self {
            CrisisEvent::MarketCrash => "Market Crash",
            CrisisEvent::DemandShock => "Demand Shock",
            CrisisEvent::SupplyShock => "Supply Shock",
            CrisisEvent::CurrencyDevaluation => "Currency Devaluation",
            CrisisEvent::TechnologyShock => "Technology Shock",
        }
    }

    /// A description of this crisis type's effects.
    pub fn description(&self) -> (text: &str)
        ensures
            text@ == self.spec_description(),
    {
        match self {
            CrisisEvent::MarketCrash => "Sudden price drop across all skills (20-40%)",
            CrisisEvent::DemandShock => "Sudden drop in overall demand (30-50%)",
            CrisisEvent::SupplyShock => "Reduction in available supply (20-40%)",
            CrisisEvent::CurrencyDevaluation => "Reduction in purchasing power (10-30%)",
            CrisisEvent::TechnologyShock => {
                "Technological disruption making certain skills obsolete (50-80%)"
            },
        }
    }
}

/// Every crisis kind occurs exactly once in the list of all kinds.
pub proof fn law_all_crisis_events_complete(e: CrisisEvent)
    ensures
        all_crisis_events().len() == 5,
        all_crisis_events().contains(e),
        forall|i: int, j: int|
            0 <= i < 5 && 0 <= j < 5 && i != j ==> all_crisis_events()[i] != all_crisis_events()[j],
{
    match e {
        CrisisEvent::MarketCrash => assert(all_crisis_events()[0] == e),
        CrisisEvent::DemandShock => assert(all_crisis_events()[1] == e),
        CrisisEvent::SupplyShock => assert(all_crisis_events()[2] == e),
        CrisisEvent::CurrencyDevaluation => assert(all_crisis_events()[3] == e),
        CrisisEvent::TechnologyShock => assert(all_crisis_events()[4] == e),
    }
}

/// Distinct crisis kinds have distinct names.
pub proof fn law_crisis_names_distinct(a: CrisisEvent, b: CrisisEvent)
    requires
        a != b,
    ensures
        a.spec_name() != b.spec_name(),
{
    reveal_strlit("Market Crash");
    reveal_strlit("Demand Shock");
    reveal_strlit("Supply Shock");
    reveal_strlit("Currency Devaluation");
    reveal_strlit("Technology Shock");
    assert("Market Crash"@[0] != "Demand Shock"@[0]);
    assert("Market Crash"@[0] != "Supply Shock"@[0]);
    assert("Market Crash"@[0] != "Currency Devaluation"@[0]);
    assert("Market Crash"@[0] != "Technology Shock"@[0]);
    assert("Demand Shock"@[0] != "Supply Shock"@[0]);
    assert("Demand Shock"@[0] != "Currency Devaluation"@[0]);
    assert("Demand Shock"@[0] != "Technology Shock"@[0]);
    assert("Supply Shock"@[0] != "Currency Devaluation"@[0]);
    assert("Supply Shock"@[0] != "Technology Shock"@[0]);
    assert("Currency Devaluation"@[0] != "Technology Shock"@[0]);
}

} // verus!
