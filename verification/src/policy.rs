//! Stateless policy vocabulary consumed by the external name resolver:
//! the device-type filter and the name-match mode.

use vstd::prelude::*;

verus! {

/// How a user-supplied device name is matched against known device labels
/// by the external resolver: full case-respecting equality, or approximate
/// matching with implementation-defined tie-breaking.
#[derive(Copy, Clone, Debug, PartialEq, Eq, Structural)]
pub enum MatchMode {
    Exact,
    Fuzzy,
}

/// Narrows a device listing to one category of actuator. Every variant but
/// `All` corresponds to one fixed vendor component-type token; `All` means
/// "do not constrain by type".
#[derive(Copy, Clone, Debug, PartialEq, Eq, Structural)]
pub enum DeviceTypeFilter {
    All,
    GarageDoor,
    Gate,
    RollerShutter,
}

impl DeviceTypeFilter {
    /// The vendor component-type token of this filter, as a sequence of
    /// characters: empty for `All`, a fixed non-empty token otherwise.
    pub open spec fn spec_str(self) -> Seq<char> {
        match self {
            DeviceTypeFilter::All => ""@,
            DeviceTypeFilter::GarageDoor => "io:GarageOpenerIOComponent"@,
            DeviceTypeFilter::Gate => "io:SlidingDiscreteGateOpenerIOComponent"@,
            DeviceTypeFilter::RollerShutter => "io:RollerShutterWithLowSpeedManagementIOComponent"@,
        }
    }

    /// The vendor component-type token this filter stands for; `""` for
    /// `All`. Total and pure: every variant has its fixed token.
    pub fn as_str(&self) -> (r: &str)
        ensures
            r@ == self.spec_str(),
    {
        match self {
            DeviceTypeFilter::All => "",
            DeviceTypeFilter::GarageDoor => "io:GarageOpenerIOComponent",
            DeviceTypeFilter::Gate => "io:SlidingDiscreteGateOpenerIOComponent",
            DeviceTypeFilter::RollerShutter => "io:RollerShutterWithLowSpeedManagementIOComponent",
        }
    }
}

/// `All` maps to the empty token, every other variant maps to a non-empty
/// token, and no two variants share a token.
pub proof fn lemma_component_tokens_distinct()
    ensures
        DeviceTypeFilter::All.spec_str().len() == 0,
        forall|f: DeviceTypeFilter|
            f != DeviceTypeFilter::All ==> #[trigger] f.spec_str().len() > 0,
        forall|a: DeviceTypeFilter, b: DeviceTypeFilter|
            a != b ==> #[trigger] a.spec_str() != #[trigger] b.spec_str(),
{
    reveal_strlit("");
    reveal_strlit("io:GarageOpenerIOComponent");
    reveal_strlit("io:SlidingDiscreteGateOpenerIOComponent");
    reveal_strlit("io:RollerShutterWithLowSpeedManagementIOComponent");
    assert(DeviceTypeFilter::All.spec_str().len() == 0);
    assert(DeviceTypeFilter::GarageDoor.spec_str().len() == 26);
    assert(DeviceTypeFilter::Gate.spec_str().len() == 39);
    assert(DeviceTypeFilter::RollerShutter.spec_str().len() == 49);
}

} // verus!
