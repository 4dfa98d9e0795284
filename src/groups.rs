use vstd::prelude::*;

use crate::rules::Policy;

verus! {

/// The country groups that rule sets are made for.
#[derive(Clone, Copy, Debug, PartialEq, Eq, Structural)]
pub enum CountryGroup {
    Brics,
    Nato,
    Eu,
    Asean,
    G7,
    G20,
    Opec,
    Africa,
}

impl CountryGroup {
    pub open spec fn spec_name(self) -> Seq<char> {
        match self {
            CountryGroup::Brics => "brics"@,
            CountryGroup::Nato => "nato"@,
            CountryGroup::Eu => "eu"@,
            CountryGroup::Asean => "asean"@,
            CountryGroup::G7 => "g7"@,
            CountryGroup::G20 => "g20"@,
            CountryGroup::Opec => "opec"@,
            CountryGroup::Africa => "african_union"@,
        }
    }

    /// Lower-case name of the group, as used in file names.
    pub fn name(&self) -> (r: String)
        ensures
            r@ == self.spec_name(),
    {
        match self {
            CountryGroup::Brics => String::from_str("brics"),
            CountryGroup::Nato => String::from_str("nato"),
            CountryGroup::Eu => String::from_str("eu"),
            CountryGroup::Asean => String::from_str("asean"),
            CountryGroup::G7 => String::from_str("g7"),
            CountryGroup::G20 => String::from_str("g20"),
            CountryGroup::Opec => String::from_str("opec"),
            CountryGroup::Africa => String::from_str("african_union"),
        }
    }
}

/// Path of the data file of a group: `<group>_ip_map.json`.
pub fn data_file_name(group: CountryGroup) -> (r: String)
    ensures
        r@ == group.spec_name() + "_ip_map.json"@,
{
    let mut r = group.name();
    r.append("_ip_map.json");
    r
}

/// Path of the rule-set file of a group and policy: `<group>_<policy>.nft`.
pub fn rules_file_name(group: CountryGroup, policy: Policy) -> (r: String)
    ensures
        r@ == group.spec_name() + "_"@ + policy.spec_name() + ".nft"@,
{
    let mut r = group.name();
    r.append("_");
    let p = policy.name();
    r.append(p.as_str());
    r.append(".nft");
    r
}

} // verus!
