//! Choice of the backend strategy from probe results.
//!
//! Probing the host (reading the accelerator name, calling the driver
//! and runtime device counts, reading system memory, detecting CPU
//! features) happens outside the library; its results arrive here as
//! plain values in a `HostProbe`, and every decision taken on them is
//! verified. GPU probe failures cascade silently to the next strategy;
//! the CPU strategy always succeeds.

use vstd::prelude::*;
use crate::capability::CPUCapability;
use crate::device::{DeviceInfo, MemInfo};
use crate::error::Error;
use vstd::string::StringExecFns;
use crate::strutil::str_eq;

verus! {

/// Operating system family of the host, as its dependency-tree tag.
#[derive(Debug, Clone, Copy, PartialEq, Eq, Structural)]
pub enum Os {
    Windows,
    Linux,
    Darwin,
}

/// Processor architecture of the host, as its dependency-tree tag.
#[derive(Debug, Clone, Copy, PartialEq, Eq, Structural)]
pub enum Arch {
    X86_64,
    Arm64,
}

/// Everything the platform probes report about the host. A `None`
/// stands for a probe that failed; a failed probe never fails the whole
/// detection.
pub struct HostProbe {
    pub os: Os,
    pub arch: Arch,
    /// Name of the default accelerator device, on an Apple host.
    pub metal_device_name: Option<String>,
    /// Recommended working-set size of that accelerator, in bytes.
    pub metal_working_set: u64,
    /// Whether the monitoring library loaded.
    pub nvml_ok: bool,
    /// Device count reported by the driver-level API.
    pub nvcuda_device_count: Option<usize>,
    /// Device count reported by the runtime-level API.
    pub cudart_device_count: Option<usize>,
    /// Highest instruction-set tier the CPU supports.
    pub cpu_capability: CPUCapability,
    /// Total and free system memory.
    pub mem: Option<MemInfo>,
}

/// Which API bootstraps per-device information.
#[derive(Debug, Clone, Copy, PartialEq, Eq, Structural)]
pub enum BootstrapApi {
    Runtime,
    Driver,
}

/// The device count the CUDA strategy works with: the maximum of what
/// the driver-level and runtime-level probes reported.
pub open spec fn combined_device_count(
    nvcuda_device_count: Option<usize>,
    cudart_device_count: Option<usize>,
) -> int {
    let a: int = match nvcuda_device_count {
        Some(c) => c as int,
        None => 0,
    };
    let b: int = match cudart_device_count {
        Some(c) => c as int,
        None => 0,
    };
    if a >= b {
        a
    } else {
        b
    }
}

/// The NVIDIA-class strategy: present when at least one sub-probe saw a
/// device.
pub struct CudaHandles {
    pub device_count: usize,
    pub has_cudart: bool,
    pub has_nvcuda: bool,
}

/// The devices present among per-index bootstrap results, in index
/// order; a failed bootstrap is skipped.
pub open spec fn present_devices(bs: Seq<Option<DeviceInfo>>) -> Seq<DeviceInfo>
    decreases bs.len(),
{
    if bs.len() == 0 {
        Seq::empty()
    } else if bs.first() is Some {
        seq![bs.first()->0] + present_devices(bs.drop_first())
    } else {
        present_devices(bs.drop_first())
    }
}

impl CudaHandles {
    /// Combines the three independent sub-probes. Each may have failed
    /// without blocking the others; the strategy itself fails only when
    /// the combined device count is zero.
    pub fn new(
        _nvml_ok: bool,
        nvcuda_device_count: Option<usize>,
        cudart_device_count: Option<usize>,
    ) -> (r: Result<Self, Error>)
        ensures
            ({
                let n = combined_device_count(nvcuda_device_count, cudart_device_count);
                match r {
                    Ok(h) => n > 0 && h.device_count == n && h.has_cudart
                        == cudart_device_count is Some && h.has_nvcuda
                        == nvcuda_device_count is Some,
                    Err(e) => n == 0 && e is CudaNotFound,
                }
            }),
    {
        let a: usize = match nvcuda_device_count {
            Some(c) => c,
            None => 0,
        };
        let b: usize = match cudart_device_count {
            Some(c) => c,
            None => 0,
        };
        let device_count: usize = if a >= b {
            a
        } else {
            b
        };
        if device_count > 0 {
            Ok(
                CudaHandles {
                    device_count,
                    has_cudart: cudart_device_count.is_some(),
                    has_nvcuda: nvcuda_device_count.is_some(),
                },
            )
        } else {
            Err(Error::CudaNotFound)
        }
    }

    /// The API that bootstraps per-device information: the runtime-level
    /// handle when present, else the driver-level one.
    pub fn bootstrap_source(&self) -> (r: Option<BootstrapApi>)
        ensures
            self.has_cudart ==> r == Some(BootstrapApi::Runtime),
            !self.has_cudart && self.has_nvcuda ==> r == Some(BootstrapApi::Driver),
            !self.has_cudart && !self.has_nvcuda ==> r is None,
    {
        if self.has_cudart {
            Some(BootstrapApi::Runtime)
        } else if self.has_nvcuda {
            Some(BootstrapApi::Driver)
        } else {
            None
        }
    }

    /// Keeps the devices whose bootstrap succeeded, in index order; a
    /// per-device failure skips that index only.
    pub fn get_devices_info(&self, bootstraps: Vec<Option<DeviceInfo>>) -> (r: Vec<DeviceInfo>)
        requires
            bootstraps@.len() == self.device_count,
        ensures
            r@ == present_devices(bootstraps@),
    {
        collect_present(bootstraps)
    }
}

/// Keeps the `Some` entries of `bootstraps`, in order.
fn collect_present(bootstraps: Vec<Option<DeviceInfo>>) -> (r: Vec<DeviceInfo>)
    ensures
        r@ == present_devices(bootstraps@),
{
    let ghost orig = bootstraps@;
    let mut rest = bootstraps;
    let mut r: Vec<DeviceInfo> = Vec::new();
    while rest.len() > 0
        invariant
            present_devices(orig) == r@ + present_devices(rest@),
        decreases rest@.len(),
    {
        let ghost before = rest@;
        let o = rest.remove(0);
        proof {
            assert(rest@ == before.drop_first());
            assert(o == before.first());
        }
        match o {
            Some(d) => {
                let ghost rprev = r@;
                r.push(d);
                proof {
                    assert(present_devices(before) == seq![d] + present_devices(rest@));
                    assert(rprev + (seq![d] + present_devices(rest@)) =~= (rprev.push(d))
                        + present_devices(rest@));
                }
            },
            None => {},
        }
    }
    proof {
        assert(present_devices(rest@) =~= Seq::<DeviceInfo>::empty());
        assert(r@ + Seq::<DeviceInfo>::empty() =~= r@);
    }
    r
}

/// The CPU strategy: always available, with the detected tier and the
/// system memory (zero when the memory probe failed).
pub struct CpuHandlers {
    pub capability: CPUCapability,
    pub mem: MemInfo,
}

impl CpuHandlers {
    /// The CPU strategy never fails.
    pub fn new(capability: CPUCapability, mem: MemInfo) -> (r: Result<Self, Error>)
        ensures
            match r {
                Ok(h) => h.capability == capability && h.mem == mem,
                Err(_) => false,
            },
    {
        Ok(CpuHandlers { capability, mem })
    }

    /// The memory a failed probe falls back to: zero total, zero free.
    pub fn get_mem(probe: Option<MemInfo>) -> (r: MemInfo)
        ensures
            match probe {
                Some(m) => r == m,
                None => r.total == 0 && r.free == 0,
            },
    {
        match probe {
            Some(m) => m,
            None => MemInfo { total: 0, free: 0 },
        }
    }

    /// Exactly one CPU device, at the detected tier.
    pub fn get_devices_info(&self) -> (r: Vec<DeviceInfo>)
        ensures
            r@.len() == 1,
            r@[0].library@ == "cpu"@,
            r@[0].variant == self.capability,
            r@[0].memInfo == self.mem,
            r@[0].id@ == Seq::<char>::empty(),
            crate::device::device_rest_is_default(r@[0]),
    {
        let mut cpu = DeviceInfo::default();
        cpu.library = String::from_str("cpu");
        cpu.variant = self.capability;
        cpu.memInfo = self.mem;
        vec![cpu]
    }
}

/// The Metal strategy: present when the default accelerator is a real
/// device.
pub struct MetalHandlers {
    pub working_set: u64,
}

/// Name of the accelerator an Apple virtual machine reports; such a
/// device cannot run the accelerated backend.
pub open spec fn paravirtual_name() -> Seq<char> {
    "Apple Paravirtual device"@
}

impl MetalHandlers {
    /// Accepts the default accelerator unless it is the paravirtual
    /// device of a virtual machine.
    pub fn new(device_name: &str, working_set: u64) -> (r: Result<Self, Error>)
        ensures
            match r {
                Ok(h) => device_name@ != paravirtual_name() && h.working_set == working_set,
                Err(e) => device_name@ == paravirtual_name() && e is MacParaVirtualDevice,
            },
    {
        if str_eq(device_name, "Apple Paravirtual device") {
            Err(Error::MacParaVirtualDevice)
        } else {
            Ok(MetalHandlers { working_set })
        }
    }

    /// Exactly one GPU device with a fixed minimum-memory threshold and
    /// the reported working-set size as both total and free memory.
    pub fn get_devices_info(&self) -> (r: Vec<DeviceInfo>)
        ensures
            r@.len() == 1,
            r@[0].library@ == "metal"@,
            r@[0].id@ == "0"@,
            r@[0].minimum_memory == 536870912,
            r@[0].memInfo.total == self.working_set,
            r@[0].memInfo.free == self.working_set,
            r@[0].variant == CPUCapability::Base,
    {
        let mut gpu = DeviceInfo::default();
        gpu.library = String::from_str("metal");
        gpu.id = String::from_str("0");
        gpu.minimum_memory = 512 * 1024 * 1024;
        gpu.memInfo = MemInfo { total: self.working_set, free: self.working_set };
        vec![gpu]
    }
}

/// The backend strategy chosen for this host: exactly one of CPU, CUDA
/// or Metal, decided once at probe time.
pub enum Handlers {
    Cpu(CpuHandlers),
    Cuda(CudaHandles),
    Metal(MetalHandlers),
}

/// True when the Apple GPU strategy applies: an Apple ARM host whose
/// accelerator name was read and is not the paravirtual device.
pub open spec fn metal_usable(p: HostProbe) -> bool {
    &&& p.os is Darwin
    &&& p.arch is Arm64
    &&& p.metal_device_name is Some
    &&& p.metal_device_name->0@ != paravirtual_name()
}

/// True when the NVIDIA-class strategy applies: a Windows or Linux host
/// where some sub-probe saw a device.
pub open spec fn cuda_usable(p: HostProbe) -> bool {
    &&& (p.os is Windows || p.os is Linux)
    &&& combined_device_count(p.nvcuda_device_count, p.cudart_device_count) > 0
}

/// The strategy `Handlers::new` chooses: Metal on a usable Apple GPU,
/// CUDA on a usable NVIDIA-class GPU, else the CPU.
pub open spec fn chosen_handlers(p: HostProbe) -> Handlers {
    if metal_usable(p) {
        Handlers::Metal(MetalHandlers { working_set: p.metal_working_set })
    } else if cuda_usable(p) {
        Handlers::Cuda(
            CudaHandles {
                device_count: combined_device_count(
                    p.nvcuda_device_count,
                    p.cudart_device_count,
                ) as usize,
                has_cudart: p.cudart_device_count is Some,
                has_nvcuda: p.nvcuda_device_count is Some,
            },
        )
    } else {
        Handlers::Cpu(
            CpuHandlers {
                capability: p.cpu_capability,
                mem: match p.mem {
                    Some(m) => m,
                    None => MemInfo { total: 0, free: 0 },
                },
            },
        )
    }
}

impl Handlers {
    /// Chooses the backend strategy for the probed host. GPU strategies
    /// that do not apply cascade silently to the CPU strategy, which
    /// never fails.
    pub fn new(probe: &HostProbe) -> (r: Result<Self, Error>)
        ensures
            match r {
                Ok(h) => h == chosen_handlers(*probe),
                Err(_) => false,
            },
    {
        match probe.os {
            Os::Darwin => {
                if matches!(probe.arch, Arch::Arm64) {
                    match &probe.metal_device_name {
                        Some(name) => {
                            match MetalHandlers::new(name.as_str(), probe.metal_working_set) {
                                Ok(h) => {
                                    return Ok(Handlers::Metal(h));
                                },
                                Err(_) => {},
                            }
                        },
                        None => {},
                    }
                }
                let mem = CpuHandlers::get_mem(probe.mem);
                match CpuHandlers::new(probe.cpu_capability, mem) {
                    Ok(h) => Ok(Handlers::Cpu(h)),
                    Err(e) => Err(e),
                }
            },
            _ => {
                match CudaHandles::new(
                    probe.nvml_ok,
                    probe.nvcuda_device_count,
                    probe.cudart_device_count,
                ) {
                    Ok(cuda) => {
                        return Ok(Handlers::Cuda(cuda));
                    },
                    Err(_) => {},
                }
                let mem = CpuHandlers::get_mem(probe.mem);
                match CpuHandlers::new(probe.cpu_capability, mem) {
                    Ok(h) => Ok(Handlers::Cpu(h)),
                    Err(e) => Err(e),
                }
            },
        }
    }

    /// The devices of the chosen strategy, in probe order. The CUDA
    /// strategy consumes one bootstrap result per device index; the
    /// other strategies ignore them.
    pub fn get_devices_info(&self, cuda_bootstraps: Vec<Option<DeviceInfo>>) -> (r: Vec<
        DeviceInfo,
    >)
        requires
            self is Cuda ==> cuda_bootstraps@.len() == self->Cuda_0.device_count,
        ensures
            match self {
                Handlers::Cpu(h) => r@.len() == 1 && r@[0].library@ == "cpu"@ && r@[0].variant
                    == h.capability && r@[0].memInfo == h.mem
                    && crate::device::device_rest_is_default(r@[0]),
                Handlers::Cuda(_) => r@ == present_devices(cuda_bootstraps@),
                Handlers::Metal(h) => r@.len() == 1 && r@[0].library@ == "metal"@
                    && r@[0].id@ == "0"@ && r@[0].memInfo.total == h.working_set
                    && r@[0].memInfo.free == h.working_set && r@[0].minimum_memory
                    == 536870912,
            },
    {
        match self {
            Handlers::Cpu(h) => h.get_devices_info(),
            Handlers::Cuda(h) => h.get_devices_info(cuda_bootstraps),
            Handlers::Metal(h) => h.get_devices_info(),
        }
    }
}

} // verus!
