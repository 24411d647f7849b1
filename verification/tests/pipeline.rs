use rustc_codegen_qir::driver::{build, emit_modules, QirCodegenBackend};
use rustc_codegen_qir::errors::BuildError;
use rustc_codegen_qir::link::{link, CodegenResults, CrateInfo, CrateType, NativeLib, NativeLibKind};
use rustc_codegen_qir::unit::{
    CompilationUnit, Linkage, Module, ModuleKind, UnitItem, Visibility, CONSTRUCT_LIMIT,
};

fn unit(name: &[u8], constructs: &[u32]) -> CompilationUnit {
    let items = constructs
        .iter()
        .enumerate()
        .map(|(i, &construct)| UnitItem {
            symbol: vec![b's', b'0' + i as u8],
            linkage: Linkage::External,
            visibility: Visibility::Default,
            construct,
        })
        .collect();
    CompilationUnit { name: name.to_vec(), items }
}

fn module(name: &[u8], payload: Vec<u8>) -> Module {
    Module { name: name.to_vec(), payload, kind: ModuleKind::Regular }
}

#[test]
fn join_restores_declared_order() {
    let backend = QirCodegenBackend::default();
    // Completion order 2, 0, 1; declared order must come back.
    let results = vec![
        (2usize, Ok(module(b"C", vec![3]))),
        (0usize, Ok(module(b"A", vec![1]))),
        (1usize, Ok(module(b"B", vec![2]))),
    ];
    let mods = backend.join_codegen(results, 3).expect("all units compiled");
    let names: Vec<Vec<u8>> = mods.iter().map(|m| m.name.clone()).collect();
    assert_eq!(names, vec![b"A".to_vec(), b"B".to_vec(), b"C".to_vec()]);
}

#[test]
fn join_propagates_the_first_failure_in_completion_order() {
    let backend = QirCodegenBackend::default();
    let results = vec![
        (1usize, Ok(module(b"B", vec![2]))),
        (
            2usize,
            Err(BuildError::UnitTranslationFailure {
                unit: b"C".to_vec(),
                item: 0,
                construct: 999,
            }),
        ),
        (
            0usize,
            Err(BuildError::UnitTranslationFailure {
                unit: b"A".to_vec(),
                item: 1,
                construct: 777,
            }),
        ),
    ];
    match backend.join_codegen(results, 3) {
        Err(BuildError::UnitTranslationFailure { unit, construct, .. }) => {
            assert_eq!(unit, b"C".to_vec());
            assert_eq!(construct, 999);
        },
        _ => panic!("the first failure in completion order must propagate"),
    }
}

#[test]
fn join_then_link_reflects_declared_order_and_sizes() {
    let backend = QirCodegenBackend::default();
    let cgu0: Vec<u8> = vec![0xaa; 12];
    let cgu1: Vec<u8> = vec![0xbb; 16];
    // Completion order is reversed; declared order is cgu0 then cgu1.
    let results = vec![
        (1usize, Ok(module(b"cgu1", cgu1.clone()))),
        (0usize, Ok(module(b"cgu0", cgu0.clone()))),
    ];
    let mods = backend.join_codegen(results, 2).expect("both units compiled");
    assert_eq!(mods.len(), 2);
    assert_eq!(mods[0].name, b"cgu0".to_vec());
    assert_eq!(mods[1].name, b"cgu1".to_vec());

    let compiled = emit_modules(&backend, mods);
    let results = CodegenResults {
        modules: compiled,
        crate_info: CrateInfo { local_crate_name: b"demo".to_vec(), used_libraries: vec![] },
    };
    let artifact = link(CrateType::Rlib, &results).expect("links");
    assert_eq!(artifact.len(), 28);
    let mut expected = cgu0;
    expected.extend_from_slice(&cgu1);
    assert_eq!(artifact, expected);
}

#[test]
fn codegen_derives_the_object_name() {
    let backend = QirCodegenBackend::default();
    let (compiled, object_file) = backend.codegen(module(b"m1", vec![5, 6]));
    assert_eq!(object_file, b"m1.o".to_vec());
    assert_eq!(compiled.name, b"m1".to_vec());
    assert_eq!(compiled.object, Some(vec![5, 6]));
    assert_eq!(compiled.kind, ModuleKind::Regular);
}

#[test]
fn build_produces_the_concatenated_artifact() {
    let backend = QirCodegenBackend::default();
    let units = vec![unit(b"cgu0", &[1]), unit(b"cgu1", &[2, 3])];
    let out = build(&backend, b"qir-unknown-base", units, b"demo", CrateType::Rlib, vec![])
        .expect("the build succeeds")
        .expect("the triple is owned");
    assert_eq!(out.file_name, b"libdemo.rlib".to_vec());

    // cgu0: one declaration (symbol "s0", external, default), one body word.
    let cgu0_payload = vec![2, 0, 0, 0, b's', b'0', 0, 0, 1, 0, 0, 0];
    // cgu1: two declarations and two body words.
    let cgu1_payload = vec![
        2, 0, 0, 0, b's', b'0', 0, 0, 2, 0, 0, 0, b's', b'1', 0, 0, 2, 0, 0, 0, 3, 0, 0, 0,
    ];
    let mut expected = cgu0_payload;
    expected.extend_from_slice(&cgu1_payload);
    assert_eq!(out.artifact, expected);
}

#[test]
fn build_is_idempotent() {
    let backend = QirCodegenBackend::default();
    let make_units = || vec![unit(b"a", &[4, 5]), unit(b"b", &[6])];
    let out1 = build(&backend, b"qir-unknown-base", make_units(), b"d", CrateType::Rlib, vec![])
        .unwrap()
        .unwrap();
    let out2 = build(&backend, b"qir-unknown-base", make_units(), b"d", CrateType::Rlib, vec![])
        .unwrap()
        .unwrap();
    assert_eq!(out1.artifact, out2.artifact);
    assert_eq!(out1.file_name, out2.file_name);
}

#[test]
fn build_declines_a_foreign_triple() {
    let backend = QirCodegenBackend::default();
    let outcome = build(
        &backend,
        b"x86_64-unknown-linux-gnu",
        vec![unit(b"a", &[1])],
        b"demo",
        CrateType::Rlib,
        vec![],
    )
    .expect("not an error, just absence");
    assert!(outcome.is_none());
}

#[test]
fn build_fails_fatally_on_an_untranslatable_unit() {
    let backend = QirCodegenBackend::default();
    let units = vec![unit(b"good", &[1]), unit(b"bad", &[CONSTRUCT_LIMIT])];
    match build(&backend, b"qir-unknown-base", units, b"demo", CrateType::Rlib, vec![]) {
        Err(BuildError::UnitTranslationFailure { unit, .. }) => {
            assert_eq!(unit, b"bad".to_vec());
        },
        _ => panic!("an untranslatable unit must abort the build"),
    }
}

#[test]
fn build_surfaces_link_metadata() {
    let backend = QirCodegenBackend::default();
    let libs = vec![NativeLib { kind: NativeLibKind::Dylib, name: Some(b"z".to_vec()) }];
    match build(
        &backend,
        b"qir-unknown-base",
        vec![unit(b"a", &[1])],
        b"demo",
        CrateType::Rlib,
        libs,
    ) {
        Err(BuildError::UnsupportedLinkMetadata { libs }) => {
            assert_eq!(libs.len(), 1);
            assert_eq!(libs[0].name, Some(b"z".to_vec()));
        },
        _ => panic!("link metadata must be surfaced through the whole pipeline"),
    }
}

#[test]
fn build_rejects_an_unsupported_output_kind() {
    let backend = QirCodegenBackend::default();
    match build(
        &backend,
        b"qir-unknown-base",
        vec![unit(b"a", &[1])],
        b"demo",
        CrateType::Executable,
        vec![],
    ) {
        Err(BuildError::UnsupportedOutputKind { kind }) => {
            assert_eq!(kind, CrateType::Executable);
        },
        _ => panic!("an unsupported output kind must be rejected"),
    }
}
