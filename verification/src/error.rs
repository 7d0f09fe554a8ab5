//! Errors of the backend-selection pipeline.

use vstd::prelude::*;

verus! {

/// What can go wrong while choosing and loading a backend.
///
/// Probe-level failures (`CudaNotFound`, `MacParaVirtualDevice`) are
/// recovered internally by falling back to the CPU strategy; only the
/// aggregate `DependenciesLoading` exhaustion is terminal.
#[derive(Debug)]
pub enum Error {
    /// The default accelerator of an Apple host is a paravirtual device,
    /// which cannot run the accelerated backend.
    MacParaVirtualDevice,
    /// Neither the driver-level nor the runtime-level probe reported a
    /// CUDA device.
    CudaNotFound,
    /// A candidate set handed to the ranking holds two GPU variants of
    /// different library kinds, which the matcher never produces.
    MixedGpuLibraries,
    /// A prompt template was rejected by the formatter.
    PromptFormat,
    /// Every attempted device/variant combination failed; the list holds
    /// one diagnostic line per attempted shared-library file.
    DependenciesLoading(Vec<String>),
}

} // verus!
