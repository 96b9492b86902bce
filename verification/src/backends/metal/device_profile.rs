//! What is known of the device.
use vstd::prelude::*;

verus! {

/// A chip that kernels were tuned on, or that shares the tuning of one.
#[derive(Clone, Copy, Debug, PartialEq, Eq, Hash, Structural)]
pub enum DeviceIdentity {
    M1,
    M1Max,
    M2,
    M2Pro,
    M2Max,
    M3,
    M3Max,
    M4,
    M4Pro,
    M5,
    M5Pro,
    M5Max,
}

/// How much of its family's resources a chip has.
#[derive(Clone, Copy, Debug, PartialEq, Eq, Hash, Structural)]
pub enum DeviceSize {
    Small,
    Large,
}

/// A generation of graphics cores.
#[derive(Clone, Copy, Debug, PartialEq, Eq, Hash, Structural)]
pub enum GpuFamily {
    Legacy,
    Apple8,
    Apple9,
    Apple10,
}

/// The device that kernels are chosen for.
#[derive(Clone, Copy, Debug, PartialEq, Eq, Hash, Structural)]
pub struct DeviceProfile {
    pub identity: DeviceIdentity,
    pub size: DeviceSize,
    pub supports_mxu: bool,
}

impl DeviceProfile {
    /// The profile of a device.
    pub fn new(identity: DeviceIdentity, size: DeviceSize, supports_mxu: bool) -> (profile:
        DeviceProfile)
        ensures
            profile == (DeviceProfile { identity, size, supports_mxu }),
    {
        DeviceProfile { identity, size, supports_mxu }
    }

    pub open spec fn spec_gpu_family(self) -> GpuFamily {
        match self.identity {
            DeviceIdentity::M1 | DeviceIdentity::M1Max => GpuFamily::Legacy,
            DeviceIdentity::M2 | DeviceIdentity::M2Pro | DeviceIdentity::M2Max => GpuFamily::Apple8,
            DeviceIdentity::M3 | DeviceIdentity::M3Max | DeviceIdentity::M4
            | DeviceIdentity::M4Pro => GpuFamily::Apple9,
            DeviceIdentity::M5 | DeviceIdentity::M5Pro | DeviceIdentity::M5Max => GpuFamily::Apple10,
        }
    }

    /// The generation of the device's graphics cores.
    #[verifier::when_used_as_spec(spec_gpu_family)]
    pub fn gpu_family(self) -> (family: GpuFamily)
        ensures
            family == self.gpu_family(),
    {
        match self.identity {
            DeviceIdentity::M1 | DeviceIdentity::M1Max => GpuFamily::Legacy,
            DeviceIdentity::M2 | DeviceIdentity::M2Pro | DeviceIdentity::M2Max => GpuFamily::Apple8,
            DeviceIdentity::M3 | DeviceIdentity::M3Max | DeviceIdentity::M4
            | DeviceIdentity::M4Pro => GpuFamily::Apple9,
            DeviceIdentity::M5 | DeviceIdentity::M5Pro | DeviceIdentity::M5Max => {
                GpuFamily::Apple10
            },
        }
    }
}

/// The third generation of chips shares its graphics cores with the fourth, and no other two do; chips of
/// one generation are alike.
pub proof fn law_generations_share_cores(
    left: DeviceProfile,
    right: DeviceProfile,
    left_family: GpuFamily,
    right_family: GpuFamily,
)
    requires
        call_ensures(DeviceProfile::gpu_family, (left,), left_family),
        call_ensures(DeviceProfile::gpu_family, (right,), right_family),
    ensures
        left_family == right_family <==> {
            let cores = |identity: DeviceIdentity| match identity {
                DeviceIdentity::M1 | DeviceIdentity::M1Max => 7int,
                DeviceIdentity::M2 | DeviceIdentity::M2Pro | DeviceIdentity::M2Max => 8,
                DeviceIdentity::M3 | DeviceIdentity::M3Max => 9,
                DeviceIdentity::M4 | DeviceIdentity::M4Pro => 9,
                DeviceIdentity::M5 | DeviceIdentity::M5Pro | DeviceIdentity::M5Max => 10,
            };
            cores(left.identity) == cores(right.identity)
        },
        left_family is Legacy <==> left.identity is M1 || left.identity is M1Max,
        left_family is Apple10 ==> left.identity is M5 || left.identity is M5Pro
            || left.identity is M5Max,
        left_family is Apple9 ==> !(left.identity is M2 || left.identity is M2Pro
            || left.identity is M2Max),
{
}

/// A profile holds what it is made of.
pub proof fn law_profile_holds_the_device(
    identity: DeviceIdentity,
    size: DeviceSize,
    supports_mxu: bool,
    profile: DeviceProfile,
)
    requires
        call_ensures(DeviceProfile::new, (identity, size, supports_mxu), profile),
    ensures
        profile.identity == identity,
        profile.size == size,
        profile.supports_mxu == supports_mxu,
{
}

} // verus!
