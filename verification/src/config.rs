//! Named configuration presets and the integer defaults of the configuration.
use vstd::prelude::*;
use crate::text::{all_ascii, ascii_lowercase, str_equal, to_lowercase, unicode_lowercase};

verus! {

/// Preset configuration names for typical simulation scenarios.
#[derive(Debug, Clone, PartialEq, Eq, Structural)]
pub enum PresetName {
    Default,
    SmallEconomy,
    LargeEconomy,
    CrisisScenario,
    HighInflation,
    TechGrowth,
    QuickTest,
}

/// Every preset, in declaration order.
pub open spec fn all_presets() -> Seq<PresetName> {
    seq![
        PresetName::Default,
        PresetName::SmallEconomy,
        PresetName::LargeEconomy,
        PresetName::CrisisScenario,
        PresetName::HighInflation,
        PresetName::TechGrowth,
        PresetName::QuickTest,
    ]
}

/// The preset that a lowercase name or alias stands for, if any.
pub open spec fn preset_for_lowercase(name: Seq<char>) -> Option<PresetName> {
    if name == "default"@ {
        Some(PresetName::Default)
    } else if name == "small_economy"@ || name == "small"@ {
        Some(PresetName::SmallEconomy)
    } else if name == "large_economy"@ || name == "large"@ {
        Some(PresetName::LargeEconomy)
    } else if name == "crisis_scenario"@ || name == "crisis"@ {
        Some(PresetName::CrisisScenario)
    } else if name == "high_inflation"@ || name == "inflation"@ {
        Some(PresetName::HighInflation)
    } else if name == "tech_growth"@ || name == "tech"@ {
        Some(PresetName::TechGrowth)
    } else if name == "quick_test"@ || name == "quick"@ {
        Some(PresetName::QuickTest)
    } else {
        None
    }
}

/// The message of a name that is no preset.
pub open spec fn unknown_preset_message(name: Seq<char>) -> Seq<char> {
    "Unknown preset: '"@ + name + "'"@
}

impl PresetName {
    /// The string identifier of a preset.
    pub open spec fn spec_as_str(self) -> Seq<char> {
        match self {
            PresetName::Default => "default"@,
            PresetName::SmallEconomy => "small_economy"@,
            PresetName::LargeEconomy => "large_economy"@,
            PresetName::CrisisScenario => "crisis_scenario"@,
            PresetName::HighInflation => "high_inflation"@,
            PresetName::TechGrowth => "tech_growth"@,
            PresetName::QuickTest => "quick_test"@,
        }
    }

    /// The description of a preset.
    pub open spec fn spec_description(self) -> Seq<char> {
        match self {
            PresetName::Default => "Standard economy with 100 persons, 500 steps"@,
            PresetName::SmallEconomy => "Small economy with 20 persons for quick testing"@,
            PresetName::LargeEconomy => "Large economy with 500 persons for detailed analysis"@,
            PresetName::CrisisScenario => "Economic crisis with low initial money and high prices"@,
            PresetName::HighInflation => "High inflation scenario with dynamic pricing"@,
            PresetName::TechGrowth => "Technology growth scenario with high initial capital"@,
            PresetName::QuickTest => "Very small economy for rapid testing (10 persons, 50 steps)"@,
        }
    }

    /// All available preset names.
    pub fn all() -> (presets: Vec<PresetName>)
        ensures
            presets@ == all_presets(),
    {
        vec![
            PresetName::Default,
            PresetName::SmallEconomy,
            PresetName::LargeEconomy,
            PresetName::CrisisScenario,
            PresetName::HighInflation,
            PresetName::TechGrowth,
            PresetName::QuickTest,
        ]
    }

    /// The string identifier of this preset.
    pub fn as_str(&self) -> (name: &str)
        ensures
            name@ == self.spec_as_str(),
    {
        match self {
            PresetName::Default => "default",
            PresetName::SmallEconomy => "small_economy",
            PresetName::LargeEconomy => "large_economy",
            PresetName::CrisisScenario => "crisis_scenario",
            PresetName::HighInflation => "high_inflation",
            PresetName::TechGrowth => "tech_growth",
            PresetName::QuickTest => "quick_test",
        }
    }

    /// A description of this preset.
    pub fn description(&self) -> (text: &str)
        ensures
            text@ == self.spec_description(),
    {
        match self {
            PresetName::Default => "Standard economy with 100 persons, 500 steps",
            PresetName::SmallEconomy => "Small economy with 20 persons for quick testing",
            PresetName::LargeEconomy => "Large economy with 500 persons for detailed analysis",
            PresetName::CrisisScenario => "Economic crisis with low initial money and high prices",
            PresetName::HighInflation => "High inflation scenario with dynamic pricing",
            PresetName::TechGrowth => "Technology growth scenario with high initial capital",
            PresetName::QuickTest => "Very small economy for rapid testing (10 persons, 50 steps)",
        }
    }

    /// The preset named by an already lowercased name or alias, if any.
    pub fn from_lowercase(name: &str) -> (preset: Option<PresetName>)
        ensures
            preset == preset_for_lowercase(name@),
    {
        if str_equal(name, "default") {
            Some(PresetName::Default)
        } else if str_equal(name, "small_economy") || str_equal(name, "small") {
            Some(PresetName::SmallEconomy)
        } else if str_equal(name, "large_economy") || str_equal(name, "large") {
            Some(PresetName::LargeEconomy)
        } else if str_equal(name, "crisis_scenario") || str_equal(name, "crisis") {
            Some(PresetName::CrisisScenario)
        } else if str_equal(name, "high_inflation") || str_equal(name, "inflation") {
            Some(PresetName::HighInflation)
        } else if str_equal(name, "tech_growth") || str_equal(name, "tech") {
            Some(PresetName::TechGrowth)
        } else if str_equal(name, "quick_test") || str_equal(name, "quick") {
            Some(PresetName::QuickTest)
        } else {
            None
        }
    }

    /// Parses a preset name or alias, ignoring case.
    pub fn from_str(s: &str) -> (parsed: Result<PresetName, String>)
        ensures
            match preset_for_lowercase(unicode_lowercase(s@)) {
                Some(p) => parsed == Ok::<PresetName, String>(p),
                None => parsed matches Err(msg) && msg@ == unknown_preset_message(s@),
            },
            all_ascii(s@) ==> match preset_for_lowercase(ascii_lowercase(s@)) {
                Some(p) => parsed == Ok::<PresetName, String>(p),
                None => parsed matches Err(msg) && msg@ == unknown_preset_message(s@),
            },
    {
        let lower = to_lowercase(s);
        match PresetName::from_lowercase(lower.as_str()) {
            Some(p) => Ok(p),
            None => {
                let mut msg = String::from_str("Unknown preset: '");
                msg.append(s);
                msg.append("'");
                Err(msg)
            },
        }
    }
}

impl std::str::FromStr for PresetName {
    type Err = String;

    fn from_str(s: &str) -> (parsed: Result<PresetName, String>)
        ensures
            match preset_for_lowercase(unicode_lowercase(s@)) {
                Some(p) => parsed == Ok::<PresetName, String>(p),
                None => parsed matches Err(msg) && msg@ == unknown_preset_message(s@),
            },
            all_ascii(s@) ==> match preset_for_lowercase(ascii_lowercase(s@)) {
                Some(p) => parsed == Ok::<PresetName, String>(p),
                None => parsed matches Err(msg) && msg@ == unknown_preset_message(s@),
            },
    {
        PresetName::from_str(s)
    }
}

/// A preset's identifier written in any mix of ASCII upper and lower case
/// names that preset: parsing ignores case.
pub proof fn law_preset_parse_ignores_ascii_case(p: PresetName, s: Seq<char>)
    requires
        all_ascii(s),
        ascii_lowercase(s) == p.spec_as_str(),
    ensures
        preset_for_lowercase(ascii_lowercase(s)) == Some(p),
{
    law_preset_identifier_round_trip(p);
}

/// The identifier of every preset is lowercase ASCII text that names that
/// preset back.
pub proof fn law_preset_identifier_round_trip(p: PresetName)
    ensures
        all_ascii(p.spec_as_str()),
        ascii_lowercase(p.spec_as_str()) == p.spec_as_str(),
        preset_for_lowercase(p.spec_as_str()) == Some(p),
{
    reveal_strlit("default");
    reveal_strlit("small_economy");
    reveal_strlit("small");
    reveal_strlit("large_economy");
    reveal_strlit("large");
    reveal_strlit("crisis_scenario");
    reveal_strlit("crisis");
    reveal_strlit("high_inflation");
    reveal_strlit("inflation");
    reveal_strlit("tech_growth");
    reveal_strlit("tech");
    reveal_strlit("quick_test");
    reveal_strlit("quick");
    let s = p.spec_as_str();
    assert(ascii_lowercase(s) =~= s);
    match p {
        PresetName::Default => {},
        PresetName::SmallEconomy => {
            assert(s[0] != "default"@[0]);
        },
        PresetName::LargeEconomy => {
            assert(s[0] != "default"@[0]);
            assert(s[0] != "small_economy"@[0]);
            assert(s[0] != "small"@[0]);
        },
        PresetName::CrisisScenario => {
            assert(s[0] != "default"@[0]);
            assert(s[0] != "small_economy"@[0] && s[0] != "small"@[0]);
            assert(s[0] != "large_economy"@[0] && s[0] != "large"@[0]);
        },
        PresetName::HighInflation => {
            assert(s[0] != "default"@[0]);
            assert(s[0] != "small_economy"@[0] && s[0] != "small"@[0]);
            assert(s[0] != "large_economy"@[0] && s[0] != "large"@[0]);
            assert(s[0] != "crisis_scenario"@[0] && s[0] != "crisis"@[0]);
        },
        PresetName::TechGrowth => {
            assert(s[0] != "default"@[0]);
            assert(s[0] != "small_economy"@[0] && s[0] != "small"@[0]);
            assert(s[0] != "large_economy"@[0] && s[0] != "large"@[0]);
            assert(s[0] != "crisis_scenario"@[0] && s[0] != "crisis"@[0]);
            assert(s[0] != "high_inflation"@[0] && s[0] != "inflation"@[0]);
        },
        PresetName::QuickTest => {
            assert(s[0] != "default"@[0]);
            assert(s[0] != "small_economy"@[0] && s[0] != "small"@[0]);
            assert(s[0] != "large_economy"@[0] && s[0] != "large"@[0]);
            assert(s[0] != "crisis_scenario"@[0] && s[0] != "crisis"@[0]);
            assert(s[0] != "high_inflation"@[0] && s[0] != "inflation"@[0]);
            assert(s[0] != "tech_growth"@[0] && s[0] != "tech"@[0]);
        },
    }
}

/// Default length of a seasonal cycle, in steps.
pub fn default_seasonal_period() -> (steps: usize)
    ensures
        steps == 100,
{
    100
}

/// Default number of steps over which a loan is repaid.
pub fn default_loan_repayment_period() -> (steps: usize)
    ensures
        steps == 20,
{
    20
}

/// Default number of skills each person offers.
pub fn default_skills_per_person() -> (skills: usize)
    ensures
        skills == 1,
{
    1
}

/// Default longest contract, in steps.
pub fn default_max_contract_duration() -> (steps: usize)
    ensures
        steps == 50,
{
    50
}

/// Default shortest contract, in steps.
pub fn default_min_contract_duration() -> (steps: usize)
    ensures
        steps == 10,
{
    10
}

/// Default voting period of a proposal, in steps.
pub fn default_proposal_duration() -> (steps: usize)
    ensures
        steps == 20,
{
    20
}

} // verus!
