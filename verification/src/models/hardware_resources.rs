use vstd::prelude::*;

verus! {

/// Hardware profile given to the routers of an experiment.
#[derive(Debug, Clone, Copy, PartialEq, Eq, Structural)]
pub enum HardwareResources {
    /// Low resources (1 vCPU, 1024 MB RAM)
    LowResources,
    /// Medium resources (2 vCPU, 2048 MB RAM)
    MediumResources,
    /// High resources (4 vCPU, 8096 MB RAM)
    HighResources,
}

/// Number of virtual CPUs and MB of RAM of each profile.
pub open spec fn vcpu_and_ram(r: HardwareResources) -> (u32, u32) {
    match r {
        HardwareResources::LowResources => (1, 1024),
        HardwareResources::MediumResources => (2, 2048),
        HardwareResources::HighResources => (4, 8096),
    }
}

/// The name under which a profile is displayed.
pub open spec fn resources_name(r: HardwareResources) -> Seq<char> {
    match r {
        HardwareResources::LowResources => "Low Resources"@,
        HardwareResources::MediumResources => "Medium Resources"@,
        HardwareResources::HighResources => "High Resources"@,
    }
}

impl HardwareResources {
    /// The name under which the profile is displayed.
    pub fn to_display_string(&self) -> (r: String)
        ensures
            r@ == resources_name(*self),
    {
        match self {
            HardwareResources::LowResources => String::from_str("Low Resources"),
            HardwareResources::MediumResources => String::from_str("Medium Resources"),
            HardwareResources::HighResources => String::from_str("High Resources"),
        }
    }

    /// Every profile, in declaration order.
    pub fn variants() -> (r: Vec<HardwareResources>)
        ensures
            r@ == seq![
                HardwareResources::LowResources,
                HardwareResources::MediumResources,
                HardwareResources::HighResources,
            ],
    {
        vec![HardwareResources::LowResources, HardwareResources::MediumResources, HardwareResources::HighResources]
    }

    /// The virtual CPUs and the RAM, in MB, of the profile.
    pub fn to_vcpu_and_ram(&self) -> (r: (u32, u32))
        ensures
            r == vcpu_and_ram(*self),
    {
        match self {
            HardwareResources::LowResources => (1, 1024),
            HardwareResources::MediumResources => (2, 2048),
            HardwareResources::HighResources => (4, 8096),
        }
    }
}

} // verus!
