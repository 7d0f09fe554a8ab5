//! Directory-name parsing, formatting, and version ordering.

use nebula::variant::{catalog_from_names, Variant};
use nebula::version::{version_tag_is_wf, version_value_of};

#[test]
fn directory_name_parses_to_kind_and_tag() {
    let v = Variant::parse_dir_name("cuda_v12.4");
    assert_eq!(v.library.as_str(), "cuda");
    assert_eq!(v.variant.as_str(), "v12.4");
    let c = Variant::parse_dir_name("cpu");
    assert_eq!(c.library.as_str(), "cpu");
    assert_eq!(c.variant.as_str(), "");
}

#[test]
fn directory_name_round_trips() {
    for name in ["cpu", "cpu_avx2", "cuda_v12.4", "metal", "rocm_v5.7.1"] {
        let v = Variant::parse_dir_name(name);
        assert_eq!(v.dir_name().as_str(), name);
    }
    let v = Variant { library: "cuda".to_string(), variant: "v12.4".to_string() };
    assert_eq!(v.dir_name().as_str(), "cuda_v12.4");
}

#[test]
fn tag_after_first_underscore_is_kept_whole() {
    let v = Variant::parse_dir_name("rocm_v5_7");
    assert_eq!(v.library.as_str(), "rocm");
    assert_eq!(v.variant.as_str(), "v5_7");
}

#[test]
fn version_values_order_as_major_then_minor() {
    let a = version_value_of("v12.4");
    let b = version_value_of("v11.0");
    let c = version_value_of("v2.1");
    assert_eq!(a, 12004);
    assert_eq!(b, 11000);
    assert_eq!(c, 2001);
    assert!(a > b && b > c);
}

#[test]
fn equal_version_strings_compare_equal() {
    assert_eq!(version_value_of("v12.4"), version_value_of("v12.4"));
}

#[test]
fn missing_minor_component_counts_as_zero() {
    assert_eq!(version_value_of("v12"), 12000);
    assert!(version_value_of("v12") < version_value_of("v12.1"));
}

#[test]
fn version_tag_well_formedness() {
    assert!(version_tag_is_wf("v12.4"));
    assert!(version_tag_is_wf("v12"));
    assert!(version_tag_is_wf("v12.4.9"));
    assert!(!version_tag_is_wf(""));
    assert!(!version_tag_is_wf("v"));
    assert!(!version_tag_is_wf("v.4"));
    assert!(!version_tag_is_wf("v12."));
    assert!(!version_tag_is_wf("vab"));
}

#[test]
fn scan_results_parse_in_order() {
    let names = vec!["cpu".to_string(), "cpu_avx2".to_string(), "cuda_v12.4".to_string()];
    let catalog = catalog_from_names(&names);
    assert_eq!(catalog.len(), 3);
    assert_eq!(catalog[1].library.as_str(), "cpu");
    assert_eq!(catalog[1].variant.as_str(), "avx2");
    assert_eq!(catalog[2].library.as_str(), "cuda");
    assert_eq!(catalog[2].variant.as_str(), "v12.4");
}
