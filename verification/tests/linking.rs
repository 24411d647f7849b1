use rustc_codegen_qir::errors::BuildError;
use rustc_codegen_qir::link::{
    collect_link_metadata, link, out_file_name, CodegenResults, CompiledModule, CrateInfo,
    CrateType, NativeLib, NativeLibKind,
};
use rustc_codegen_qir::unit::ModuleKind;

fn object_module(name: &[u8], object: Vec<u8>) -> CompiledModule {
    CompiledModule { name: name.to_vec(), kind: ModuleKind::Regular, object: Some(object) }
}

fn results(modules: Vec<CompiledModule>, libs: Vec<NativeLib>) -> CodegenResults {
    CodegenResults {
        modules,
        crate_info: CrateInfo { local_crate_name: b"demo".to_vec(), used_libraries: libs },
    }
}

#[test]
fn rlib_concatenates_objects_in_order() {
    let cgu0: Vec<u8> = (0..12).collect();
    let cgu1: Vec<u8> = (100..116).collect();
    let r = results(
        vec![object_module(b"cgu0", cgu0.clone()), object_module(b"cgu1", cgu1.clone())],
        vec![],
    );
    let artifact = link(CrateType::Rlib, &r).expect("an rlib with no libraries links");
    assert_eq!(artifact.len(), 28);
    let mut expected = cgu0;
    expected.extend_from_slice(&cgu1);
    assert_eq!(artifact, expected);
}

#[test]
fn modules_without_objects_contribute_nothing() {
    let r = results(
        vec![
            object_module(b"a", vec![1, 2]),
            CompiledModule { name: b"b".to_vec(), kind: ModuleKind::Metadata, object: None },
            object_module(b"c", vec![3]),
        ],
        vec![],
    );
    let artifact = link(CrateType::Rlib, &r).expect("links");
    assert_eq!(artifact, vec![1, 2, 3]);
}

#[test]
fn non_rlib_kinds_are_rejected_explicitly() {
    for kind in [
        CrateType::Executable,
        CrateType::Dylib,
        CrateType::Staticlib,
        CrateType::Cdylib,
        CrateType::ProcMacro,
    ] {
        let r = results(vec![object_module(b"m", vec![1])], vec![]);
        match link(kind, &r) {
            Err(BuildError::UnsupportedOutputKind { kind: reported }) => {
                assert_eq!(reported, kind);
            },
            _ => panic!("an unsupported output kind must be rejected, never ignored"),
        }
    }
}

#[test]
fn named_library_metadata_is_surfaced_per_occurrence() {
    let libs = vec![
        NativeLib { kind: NativeLibKind::Dylib, name: Some(b"m".to_vec()) },
        NativeLib { kind: NativeLibKind::StaticBundled, name: None },
        NativeLib { kind: NativeLibKind::Framework, name: Some(b"f".to_vec()) },
    ];
    let r = results(vec![object_module(b"m", vec![1])], libs);
    match link(CrateType::Rlib, &r) {
        Err(BuildError::UnsupportedLinkMetadata { libs }) => {
            assert_eq!(libs.len(), 2);
            assert_eq!(libs[0].name, Some(b"m".to_vec()));
            assert_eq!(libs[1].name, Some(b"f".to_vec()));
        },
        _ => panic!("link-affecting metadata must be surfaced, never dropped"),
    }
}

#[test]
fn unnamed_bundled_static_is_honored_silently() {
    let libs = vec![NativeLib { kind: NativeLibKind::StaticBundled, name: None }];
    let r = results(vec![object_module(b"m", vec![9])], libs);
    let artifact = link(CrateType::Rlib, &r).expect("nothing link-affecting");
    assert_eq!(artifact, vec![9]);
}

#[test]
fn collect_link_metadata_keeps_order() {
    let libs = vec![
        NativeLib { kind: NativeLibKind::RawDylib, name: None },
        NativeLib { kind: NativeLibKind::StaticBundled, name: None },
        NativeLib { kind: NativeLibKind::LinkArg, name: Some(b"x".to_vec()) },
    ];
    let offending = collect_link_metadata(&libs);
    assert_eq!(offending.len(), 2);
    assert_eq!(offending[0].kind, NativeLibKind::RawDylib);
    assert_eq!(offending[1].kind, NativeLibKind::LinkArg);
}

#[test]
fn artifact_name_follows_the_rlib_convention() {
    let name = out_file_name(b"demo", CrateType::Rlib).expect("rlib is supported");
    assert_eq!(name, b"libdemo.rlib".to_vec());
    assert!(matches!(
        out_file_name(b"demo", CrateType::Executable),
        Err(BuildError::UnsupportedOutputKind { kind: CrateType::Executable })
    ));
}
