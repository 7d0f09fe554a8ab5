//! Data describing one detected compute device.

use vstd::prelude::*;
use crate::capability::CPUCapability;

verus! {

/// Total and free memory of a device or of the host, in bytes.
#[derive(Debug, Clone, Copy)]
pub struct MemInfo {
    pub total: u64,
    pub free: u64,
}

impl Default for MemInfo {
    /// Zero memory: what a failed memory probe reports.
    fn default() -> (r: Self)
        ensures
            r.total == 0 && r.free == 0,
    {
        MemInfo { total: 0, free: 0 }
    }
}

/// Driver version of a GPU device.
#[derive(Debug, Clone, Copy)]
pub struct DriverVersion {
    pub major: i32,
    pub minor: i32,
}

impl Default for DriverVersion {
    fn default() -> (r: Self)
        ensures
            r.major == 0 && r.minor == 0,
    {
        DriverVersion { major: 0, minor: 0 }
    }
}

/// One detected compute device.
///
/// `library` is the kind of backend the device runs (`cpu`, `cuda`,
/// `rocm`, `metal`); `variant` is the detected instruction-set tier and
/// is meaningful only when the kind is `cpu`.
#[allow(non_snake_case)]
#[derive(Debug)]
pub struct DeviceInfo {
    pub memInfo: MemInfo,
    pub library: String,
    pub variant: CPUCapability,
    pub minimum_memory: u64,
    pub dependency_paths: Vec<String>,
    pub env_workarounds: Vec<(String, String)>,
    pub id: String,
    pub name: String,
    pub compute: String,
    pub driver_version: DriverVersion,
}

/// True when every field of `d` other than the four given ones holds its
/// default value.
pub open spec fn device_rest_is_default(d: DeviceInfo) -> bool {
    &&& d.minimum_memory == 0
    &&& d.dependency_paths@ == Seq::<String>::empty()
    &&& d.env_workarounds@ == Seq::<(String, String)>::empty()
    &&& d.name@ == Seq::<char>::empty()
    &&& d.compute@ == Seq::<char>::empty()
    &&& d.driver_version.major == 0 && d.driver_version.minor == 0
}

impl Default for DeviceInfo {
    /// A blank device: empty strings, zero memory, base CPU tier.
    fn default() -> (r: Self)
        ensures
            r.memInfo.total == 0 && r.memInfo.free == 0,
            r.library@ == Seq::<char>::empty(),
            r.variant == CPUCapability::Base,
            r.id@ == Seq::<char>::empty(),
            device_rest_is_default(r),
    {
        DeviceInfo {
            memInfo: MemInfo { total: 0, free: 0 },
            library: String::new(),
            variant: CPUCapability::Base,
            minimum_memory: 0,
            dependency_paths: Vec::new(),
            env_workarounds: Vec::new(),
            id: String::new(),
            name: String::new(),
            compute: String::new(),
            driver_version: DriverVersion { major: 0, minor: 0 },
        }
    }
}

} // verus!
