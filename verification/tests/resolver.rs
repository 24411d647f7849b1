use rustc_codegen_qir::driver::QirCodegenBackend;
use rustc_codegen_qir::target::{
    generate_qir_target_options, parse_profile, resolve, split_bytes, QirProfile,
};

#[test]
fn resolve_base_triple() {
    let target = resolve(b"qir-unknown-base").expect("the base profile triple is owned");
    assert_eq!(target.arch, b"qir".to_vec());
    assert_eq!(target.data_layout, b"e".to_vec());
    assert_eq!(target.pointer_width, 64);
    assert_eq!(target.llvm_target, b"qir-unknown-base".to_vec());
    assert_eq!(target.options.max_atomic_width, Some(0));
    assert!(target.options.dynamic_linking);
}

#[test]
fn resolve_four_segments_is_absent() {
    assert!(resolve(b"x86_64-unknown-linux-gnu").is_none());
}

#[test]
fn resolve_unknown_profile_is_absent() {
    assert!(resolve(b"qir-unknown-nope").is_none());
}

#[test]
fn resolve_two_segments_is_absent() {
    assert!(resolve(b"qir-base").is_none());
}

#[test]
fn resolve_empty_triple_is_absent() {
    assert!(resolve(b"").is_none());
}

#[test]
fn resolve_normalizes_arch_and_vendor() {
    let target = resolve(b"foo-bar-base").expect("any arch and vendor with the base profile");
    assert_eq!(target.llvm_target, b"qir-unknown-base".to_vec());
    assert_eq!(target.arch, b"qir".to_vec());
}

#[test]
fn resolve_trailing_dash_is_absent() {
    // "qir-unknown-base-" has four segments, the last empty.
    assert!(resolve(b"qir-unknown-base-").is_none());
}

#[test]
fn parse_profile_recognizes_base_only() {
    assert!(matches!(parse_profile(b"base"), Some(QirProfile::Base)));
    assert!(parse_profile(b"BASE").is_none());
    assert!(parse_profile(b"bas").is_none());
    assert!(parse_profile(b"").is_none());
}

#[test]
fn qir_target_options_cap_atomics_and_allow_dylibs() {
    let options = generate_qir_target_options();
    assert_eq!(options.max_atomic_width, Some(0));
    assert!(options.dynamic_linking);
}

#[test]
fn split_keeps_empty_segments() {
    let segs = split_bytes(b"a-b-", b'-');
    let segs: Vec<Vec<u8>> = segs;
    assert_eq!(segs, vec![b"a".to_vec(), b"b".to_vec(), b"".to_vec()]);
}

#[test]
fn split_empty_input_is_one_empty_segment() {
    let segs = split_bytes(b"", b'-');
    assert_eq!(segs, vec![b"".to_vec()]);
}

#[test]
fn target_override_before_init() {
    // Resolution must work before process-wide initialization.
    let backend = QirCodegenBackend::default();
    assert!(!backend.initialized);
    let target = backend.target_override(b"qir-unknown-base").expect("owned triple");
    assert_eq!(target.pointer_width, 64);
    assert!(backend.target_override(b"qir-unknown-nope").is_none());
}

#[test]
fn init_is_idempotent() {
    let mut backend = QirCodegenBackend::default();
    backend.init();
    assert!(backend.initialized);
    backend.init();
    assert!(backend.initialized);
}
