//! Environmental resources consumed by economic activity.
use vstd::prelude::*;

verus! {

/// Categories of natural resources and environmental services that production
/// and trade consume.
#[derive(Debug, Clone, Copy, PartialEq, Eq, Hash, Structural)]
pub enum Resource {
    /// Energy resources (electricity, fuel, etc.)
    Energy,
    /// Water resources
    Water,
    /// Raw materials (metals, minerals, etc.)
    Materials,
    /// Land use and space
    Land,
}

/// Every resource kind, in declaration order.
pub open spec fn all_resources() -> Seq<Resource> {
    seq![Resource::Energy, Resource::Water, Resource::Materials, Resource::Land]
}

impl Resource {
    /// Display name of a resource kind.
    pub open spec fn spec_name(self) -> Seq<char> {
        match self {
            Resource::Energy => "Energy"@,
            Resource::Water => "Water"@,
            Resource::Materials => "Materials"@,
            Resource::Land => "Land"@,
        }
    }

    /// All resource types, for iteration.
    pub fn all() -> (resources: [Resource; 4])
        ensures
            resources@ == all_resources(),
    {
        let resources = [Resource::Energy, Resource::Water, Resource::Materials, Resource::Land];
        assert(resources@ =~= all_resources());
        resources
    }

    /// A human-readable name for this resource type.
    pub fn name(&self) -> (name: &'static str)
        ensures
            name@ == self.spec_name(),
    {
        match self {
            Resource::Energy => "Energy",
            Resource::Water => "Water",
            Resource::Materials => "Materials",
            Resource::Land => "Land",
        }
    }
}

/// Every resource kind occurs exactly once in the list of all kinds.
pub proof fn law_all_resources_complete(r: Resource)
    ensures
        all_resources().len() == 4,
        all_resources().contains(r),
        forall|i: int, j: int|
            0 <= i < 4 && 0 <= j < 4 && i != j ==> all_resources()[i] != all_resources()[j],
{
    match r {
        Resource::Energy => assert(all_resources()[0] == r),
        Resource::Water => assert(all_resources()[1] == r),
        Resource::Materials => assert(all_resources()[2] == r),
        Resource::Land => assert(all_resources()[3] == r),
    }
}

} // verus!
