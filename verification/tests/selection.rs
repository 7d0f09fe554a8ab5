//! Device probing and variant selection scenarios.

use nebula::capability::CPUCapability;
use nebula::device::{DeviceInfo, MemInfo};
use nebula::error::Error;
use nebula::matcher::{catalog_is_wf, ranked_variants, sort_candidates};
use nebula::probe::{Arch, BootstrapApi, CpuHandlers, CudaHandles, Handlers, HostProbe,
    MetalHandlers, Os};
use nebula::variant::Variant;

fn cpu_probe() -> HostProbe {
    HostProbe {
        os: Os::Linux,
        arch: Arch::X86_64,
        metal_device_name: None,
        metal_working_set: 0,
        nvml_ok: false,
        nvcuda_device_count: None,
        cudart_device_count: None,
        cpu_capability: CPUCapability::Avx2,
        mem: Some(MemInfo { total: 16_000_000_000, free: 8_000_000_000 }),
    }
}

fn variant(library: &str, tag: &str) -> Variant {
    Variant { library: library.to_string(), variant: tag.to_string() }
}

fn cpu_device(tier: CPUCapability) -> DeviceInfo {
    let mut d = DeviceInfo::default();
    d.library = "cpu".to_string();
    d.variant = tier;
    d
}

fn gpu_device(kind: &str) -> DeviceInfo {
    let mut d = DeviceInfo::default();
    d.library = kind.to_string();
    d
}

#[test]
fn basic_get_gpu_config() {
    let s = Handlers::new(&cpu_probe());
    assert!(s.is_ok());
    let s = s.unwrap();
    let devices = s.get_devices_info(Vec::new());
    assert!(devices.len() > 0);
    assert!(["cpu", "cuda", "rocm", "metal"].contains(&devices[0].library.as_str()));
    if devices[0].library != "cpu" {
        assert!(devices[0].memInfo.total > 0);
        assert!(devices[0].memInfo.free > 0);
    }
}

#[test]
fn cpu_fallback_reports_detected_tier_and_memory() {
    let s = Handlers::new(&cpu_probe()).unwrap();
    let devices = s.get_devices_info(Vec::new());
    assert_eq!(devices.len(), 1);
    assert_eq!(devices[0].library.as_str(), "cpu");
    assert_eq!(devices[0].variant, CPUCapability::Avx2);
    assert_eq!(devices[0].memInfo.total, 16_000_000_000);
}

#[test]
fn cuda_strategy_takes_maximum_of_sub_probe_counts() {
    let h = CudaHandles::new(true, Some(1), Some(2)).unwrap();
    assert_eq!(h.device_count, 2);
    assert_eq!(h.bootstrap_source(), Some(BootstrapApi::Runtime));
    let driver_only = CudaHandles::new(false, Some(3), None).unwrap();
    assert_eq!(driver_only.bootstrap_source(), Some(BootstrapApi::Driver));
}

#[test]
fn cuda_strategy_fails_without_devices() {
    let r = CudaHandles::new(true, Some(0), None);
    assert!(matches!(r, Err(Error::CudaNotFound)));
}

#[test]
fn cuda_bootstrap_failures_skip_only_their_index() {
    let h = CudaHandles::new(false, None, Some(3)).unwrap();
    let mut good = DeviceInfo::default();
    good.library = "cuda".to_string();
    good.id = "1".to_string();
    let devices = h.get_devices_info(vec![None, Some(good), None]);
    assert_eq!(devices.len(), 1);
    assert_eq!(devices[0].id.as_str(), "1");
}

#[test]
fn paravirtual_metal_device_is_rejected() {
    let r = MetalHandlers::new("Apple Paravirtual device", 1 << 30);
    assert!(matches!(r, Err(Error::MacParaVirtualDevice)));
    let mut probe = cpu_probe();
    probe.os = Os::Darwin;
    probe.arch = Arch::Arm64;
    probe.metal_device_name = Some("Apple Paravirtual device".to_string());
    let h = Handlers::new(&probe).unwrap();
    assert!(matches!(h, Handlers::Cpu(_)));
}

#[test]
fn real_metal_device_is_used() {
    let mut probe = cpu_probe();
    probe.os = Os::Darwin;
    probe.arch = Arch::Arm64;
    probe.metal_device_name = Some("Apple M2 Max".to_string());
    probe.metal_working_set = 1 << 34;
    let h = Handlers::new(&probe).unwrap();
    assert!(matches!(h, Handlers::Metal(_)));
    let devices = h.get_devices_info(Vec::new());
    assert_eq!(devices.len(), 1);
    assert_eq!(devices[0].library.as_str(), "metal");
    assert_eq!(devices[0].minimum_memory, 512 * 1024 * 1024);
    assert_eq!(devices[0].memInfo.total, 1 << 34);
    assert_eq!(devices[0].memInfo.free, 1 << 34);
}

#[test]
fn failed_memory_probe_reports_zero() {
    let m = CpuHandlers::get_mem(None);
    assert_eq!(m.total, 0);
    assert_eq!(m.free, 0);
    let m2 = CpuHandlers::get_mem(Some(MemInfo { total: 7, free: 3 }));
    assert_eq!(m2.total, 7);
    assert_eq!(m2.free, 3);
}

#[test]
fn cpu_host_never_selects_higher_tier() {
    // Host at Avx only: cpu_avx2 must not appear; cpu_avx is first.
    let catalog = vec![variant("cpu", ""), variant("cpu", "avx"), variant("cpu", "avx2")];
    assert!(catalog_is_wf(&catalog));
    let dev = cpu_device(CPUCapability::Avx);
    let order = ranked_variants(&dev, &catalog);
    assert_eq!(order.len(), 2);
    assert_eq!(order[0].variant.as_str(), "avx");
    assert_eq!(order[1].variant.as_str(), "");
}

#[test]
fn matcher_selects_lower_tier_when_exact_is_absent() {
    // Only a cpu_avx build on an Avx2 host: still selected.
    let catalog = vec![variant("cpu", "avx")];
    let dev = cpu_device(CPUCapability::Avx2);
    let order = ranked_variants(&dev, &catalog);
    assert_eq!(order.len(), 1);
    assert_eq!(order[0].library.as_str(), "cpu");
    assert_eq!(order[0].variant.as_str(), "avx");
}

#[test]
fn gpu_device_keeps_cpu_variants_after_native_ones() {
    let catalog = vec![variant("cpu", ""), variant("cuda", "v1.0"), variant("cpu", "avx2")];
    let dev = gpu_device("cuda");
    let order = ranked_variants(&dev, &catalog);
    assert_eq!(order.len(), 3);
    assert_eq!(order[0].library.as_str(), "cuda");
    assert_eq!(order[1].variant.as_str(), "avx2");
    assert_eq!(order[2].variant.as_str(), "");
}

#[test]
fn gpu_versions_rank_highest_first() {
    let catalog = vec![
        variant("cuda", "v11.0"),
        variant("cuda", "v2.1"),
        variant("cuda", "v12.4"),
    ];
    let dev = gpu_device("cuda");
    let order = ranked_variants(&dev, &catalog);
    assert_eq!(order[0].variant.as_str(), "v12.4");
    assert_eq!(order[1].variant.as_str(), "v11.0");
    assert_eq!(order[2].variant.as_str(), "v2.1");
}

#[test]
fn foreign_gpu_variants_are_not_matched() {
    let catalog = vec![variant("rocm", "v5.7"), variant("cuda", "v12.4")];
    let dev = gpu_device("cuda");
    let order = ranked_variants(&dev, &catalog);
    assert_eq!(order.len(), 1);
    assert_eq!(order[0].library.as_str(), "cuda");
}

#[test]
fn mixed_gpu_kinds_are_an_invariant_violation() {
    let mixed = vec![variant("cuda", "v12.4"), variant("rocm", "v5.7")];
    let r = sort_candidates(&mixed);
    assert!(matches!(r, Err(Error::MixedGpuLibraries)));
    let single = vec![variant("cuda", "v12.4"), variant("cpu", "")];
    assert!(sort_candidates(&single).is_ok());
}

#[test]
fn filtering_keeps_catalog_order() {
    let catalog = vec![
        variant("cuda", "v11.0"),
        variant("cpu", ""),
        variant("rocm", "v5.7"),
        variant("cpu", "avx2"),
    ];
    let dev = gpu_device("cuda");
    let kept = dev.variants(&catalog);
    assert_eq!(kept.len(), 3);
    assert_eq!(kept[0].library.as_str(), "cuda");
    assert_eq!(kept[1].variant.as_str(), "");
    assert_eq!(kept[2].variant.as_str(), "avx2");
}

#[test]
fn defensive_sort_orders_most_capable_first() {
    let set = vec![variant("cpu", ""), variant("cuda", "v11.0"), variant("cuda", "v12.4")];
    let sorted = sort_candidates(&set).unwrap();
    assert_eq!(sorted[0].variant.as_str(), "v12.4");
    assert_eq!(sorted[1].variant.as_str(), "v11.0");
    assert_eq!(sorted[2].library.as_str(), "cpu");
}

#[test]
fn malformed_tags_are_reported_by_the_catalog_check() {
    let bad_cpu = vec![variant("cpu", "sse3")];
    assert!(!catalog_is_wf(&bad_cpu));
    let bad_gpu = vec![variant("cuda", "")];
    assert!(!catalog_is_wf(&bad_gpu));
    let good = vec![variant("cpu", "avx2"), variant("cuda", "v12"), variant("cuda", "v12.4.1")];
    assert!(catalog_is_wf(&good));
}
