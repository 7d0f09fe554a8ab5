//! Load plans, fallback, and exhaustion.

use nebula::capability::CPUCapability;
use nebula::device::DeviceInfo;
use nebula::error::Error;
use nebula::loader::{dependencies_base_path, extended_search_path, is_variant_marker,
    load_failure_message, load_plan, missing_symbol_message, needs_search_path_extension,
    LoadState};
use nebula::probe::{Arch, Os};
use nebula::variant::Variant;

fn variant(library: &str, tag: &str) -> Variant {
    Variant { library: library.to_string(), variant: tag.to_string() }
}

fn cpu_device(tier: CPUCapability) -> DeviceInfo {
    let mut d = DeviceInfo::default();
    d.library = "cpu".to_string();
    d.variant = tier;
    d
}

fn gpu_device(kind: &str) -> DeviceInfo {
    let mut d = DeviceInfo::default();
    d.library = kind.to_string();
    d
}

#[test]
fn base_path_follows_the_layout() {
    let base = dependencies_base_path("/opt/app/deps", Os::Linux, Arch::X86_64);
    assert_eq!(base.as_str(), "/opt/app/deps/linux/x86_64");
    let win = dependencies_base_path("C:/deps", Os::Windows, Arch::Arm64);
    assert_eq!(win.as_str(), "C:/deps/windows/arm64");
    let mac = dependencies_base_path("/deps", Os::Darwin, Arch::Arm64);
    assert_eq!(mac.as_str(), "/deps/darwin/arm64");
}

#[test]
fn search_path_is_extended_only_on_windows() {
    assert!(needs_search_path_extension(Os::Windows));
    assert!(!needs_search_path_extension(Os::Linux));
    assert!(!needs_search_path_extension(Os::Darwin));
    let p = extended_search_path("C:/a;C:/b", "C:/deps");
    assert_eq!(p.as_str(), "C:/a;C:/b;C:/deps");
}

#[test]
fn marker_files_identify_variant_directories() {
    assert!(is_variant_marker("libllama.so"));
    assert!(is_variant_marker("llama.dll"));
    assert!(is_variant_marker("libllama.dylib"));
    assert!(!is_variant_marker("libggml.so"));
    assert!(!is_variant_marker("readme.txt"));
}

#[test]
fn avx2_host_tries_the_avx2_build_first() {
    // Candidates {cpu, cpu_avx2} on an AVX2-only host without a GPU.
    let catalog = vec![variant("cpu", ""), variant("cpu", "avx2")];
    let devices = vec![cpu_device(CPUCapability::Avx2)];
    let plan = load_plan(&devices, &catalog, "/deps/linux/x86_64", Os::Linux);
    assert_eq!(plan.len(), 2);
    assert_eq!(plan[0].dir.as_str(), "/deps/linux/x86_64/cpu_avx2");
    assert_eq!(plan[0].ggml_path.as_str(), "/deps/linux/x86_64/cpu_avx2/libggml.so");
    assert_eq!(plan[0].llama_path.as_str(), "/deps/linux/x86_64/cpu_avx2/libllama.so");
    assert_eq!(plan[0].llava_path.as_str(), "/deps/linux/x86_64/cpu_avx2/libllava_shared.so");
    assert_eq!(plan[1].dir.as_str(), "/deps/linux/x86_64/cpu");
    // The loader succeeds on cpu_avx2 when its three files load: the
    // state still points at it and nothing was recorded.
    let state = LoadState::new(plan);
    let first = state.current().unwrap();
    assert_eq!(first.variant.dir_name().as_str(), "cpu_avx2");
    assert_eq!(state.errs.len(), 0);
}

#[test]
fn failed_candidate_is_abandoned_for_the_next() {
    // Candidates {cuda_v12.4, cpu} for a host with one working CUDA
    // device: the CUDA build is tried first; when its multimodal file
    // is missing, the candidate is abandoned and cpu is attempted.
    let catalog = vec![variant("cuda", "v12.4"), variant("cpu", "")];
    let devices = vec![gpu_device("cuda")];
    let plan = load_plan(&devices, &catalog, "/deps/windows/x86_64", Os::Windows);
    assert_eq!(plan.len(), 2);
    assert_eq!(plan[0].variant.dir_name().as_str(), "cuda_v12.4");
    assert_eq!(plan[1].variant.dir_name().as_str(), "cpu");
    let mut state = LoadState::new(plan);
    let first = state.current().unwrap();
    assert_eq!(first.llava_path.as_str(), "/deps/windows/x86_64/cuda_v12.4/llava_shared.dll");
    state.record_failure(first.llava_path.as_str(), "file not found");
    let second = state.current().unwrap();
    assert_eq!(second.variant.dir_name().as_str(), "cpu");
    assert_eq!(state.errs.len(), 1);
    assert_eq!(
        state.errs[0].as_str(),
        "can`t load /deps/windows/x86_64/cuda_v12.4/llava_shared.dll: file not found`"
    );
}

#[test]
fn separate_cpu_device_entry_is_tried_after_the_gpu_device() {
    let catalog = vec![variant("cuda", "v12.4"), variant("cpu", "")];
    let devices = vec![gpu_device("cuda"), cpu_device(CPUCapability::Base)];
    let plan = load_plan(&devices, &catalog, "/deps/linux/x86_64", Os::Linux);
    // The CUDA device contributes [cuda_v12.4, cpu]; the CPU device
    // contributes [cpu] again.
    assert_eq!(plan.len(), 3);
    assert_eq!(plan[0].variant.dir_name().as_str(), "cuda_v12.4");
    assert_eq!(plan[1].variant.dir_name().as_str(), "cpu");
    assert_eq!(plan[2].variant.dir_name().as_str(), "cpu");
}

#[test]
fn empty_catalog_exhausts_with_no_attempts() {
    let catalog: Vec<Variant> = Vec::new();
    let devices = vec![cpu_device(CPUCapability::Avx2)];
    let plan = load_plan(&devices, &catalog, "/deps/linux/x86_64", Os::Linux);
    assert_eq!(plan.len(), 0);
    let state = LoadState::new(plan);
    assert!(state.exhausted());
    assert!(state.current().is_none());
    match state.into_exhaustion_error() {
        Error::DependenciesLoading(errs) => assert_eq!(errs.len(), 0),
        _ => panic!("expected the aggregate exhaustion error"),
    }
}

#[test]
fn exhaustion_lists_every_attempted_file() {
    let catalog = vec![variant("cpu", "")];
    let devices = vec![cpu_device(CPUCapability::Base)];
    let plan = load_plan(&devices, &catalog, "/deps/darwin/arm64", Os::Darwin);
    assert_eq!(plan.len(), 1);
    let mut state = LoadState::new(plan);
    let c = state.current().unwrap();
    assert_eq!(c.ggml_path.as_str(), "/deps/darwin/arm64/cpu/libggml.dylib");
    state.record_failure(c.ggml_path.as_str(), "image not found");
    assert!(state.exhausted());
    match state.into_exhaustion_error() {
        Error::DependenciesLoading(errs) => {
            assert_eq!(errs.len(), 1);
            assert_eq!(
                errs[0].as_str(),
                "can`t load /deps/darwin/arm64/cpu/libggml.dylib: image not found`"
            );
        },
        _ => panic!("expected the aggregate exhaustion error"),
    }
}

#[test]
fn failure_message_quotes_path_and_cause() {
    let m = load_failure_message("/x/libllama.so", "no such file");
    assert_eq!(m.as_str(), "can`t load /x/libllama.so: no such file`");
}

#[test]
fn missing_symbol_diagnostic_is_distinct() {
    let m = missing_symbol_message("llama_decode");
    assert_eq!(m.as_str(), "function \"llama_decode\" not found in llama_cpp lib");
}
