use rustc_codegen_qir::errors::BuildError;
use rustc_codegen_qir::unit::{
    compile_unit, CompilationUnit, CompilerPhase, Linkage, Module, ModuleKind, QirCodegenCompiler,
    UnitItem, Visibility, CONSTRUCT_LIMIT,
};

fn item(symbol: &[u8], linkage: Linkage, visibility: Visibility, construct: u32) -> UnitItem {
    UnitItem { symbol: symbol.to_vec(), linkage, visibility, construct }
}

fn two_item_unit() -> CompilationUnit {
    CompilationUnit {
        name: b"u1".to_vec(),
        items: vec![
            item(b"f", Linkage::External, Visibility::Default, 7),
            item(b"g", Linkage::Internal, Visibility::Hidden, 2),
        ],
    }
}

/// The expected payload of `two_item_unit`: the declaration section
/// (symbol length word, symbol, linkage tag, visibility tag, per item)
/// followed by the body section (one construct word per item).
fn two_item_payload() -> Vec<u8> {
    vec![
        1, 0, 0, 0, b'f', 0, 0, // declaration of f: external, default
        1, 0, 0, 0, b'g', 1, 1, // declaration of g: internal, hidden
        7, 0, 0, 0, // body of f
        2, 0, 0, 0, // body of g
    ]
}

#[test]
fn lifecycle_produces_the_expected_payload() {
    let mut compiler = QirCodegenCompiler::new(two_item_unit());
    assert_eq!(compiler.phase, CompilerPhase::Created);
    compiler.predefine();
    assert_eq!(compiler.phase, CompilerPhase::Predefining);
    compiler.predefine();
    compiler.compile().expect("both constructs are declared");
    assert_eq!(compiler.phase, CompilerPhase::Compiling);
    let (module, cost) = compiler.finalize();
    assert_eq!(module.name, b"u1".to_vec());
    assert_eq!(module.kind, ModuleKind::Regular);
    assert_eq!(module.payload, two_item_payload());
    assert_eq!(cost, 0);
}

#[test]
fn compile_unit_matches_the_stepped_lifecycle() {
    let (module, cost) = compile_unit(two_item_unit()).expect("unit translates");
    assert_eq!(module.name, b"u1".to_vec());
    assert_eq!(module.payload, two_item_payload());
    assert_eq!(cost, 0);
}

#[test]
fn empty_unit_has_an_empty_payload() {
    let unit = CompilationUnit { name: b"empty".to_vec(), items: vec![] };
    let (module, _) = compile_unit(unit).expect("nothing to translate");
    assert_eq!(module.payload, Vec::<u8>::new());
    assert_eq!(module.kind, ModuleKind::Regular);
}

#[test]
fn compiling_twice_is_byte_identical() {
    let (m1, _) = compile_unit(two_item_unit()).expect("translates");
    let (m2, _) = compile_unit(two_item_unit()).expect("translates");
    assert_eq!(m1.payload, m2.payload);
    assert_eq!(m1.name, m2.name);
}

#[test]
fn unknown_construct_fails_the_unit() {
    let unit = CompilationUnit {
        name: b"bad".to_vec(),
        items: vec![item(b"f", Linkage::External, Visibility::Default, CONSTRUCT_LIMIT)],
    };
    match compile_unit(unit) {
        Err(BuildError::UnitTranslationFailure { unit, item, construct }) => {
            assert_eq!(unit, b"bad".to_vec());
            assert_eq!(item, 0);
            assert_eq!(construct, CONSTRUCT_LIMIT);
        },
        _ => panic!("an undeclared construct must fail fatally"),
    }
}

#[test]
fn first_untranslatable_item_is_reported() {
    let unit = CompilationUnit {
        name: b"bad2".to_vec(),
        items: vec![
            item(b"ok", Linkage::External, Visibility::Default, 0),
            item(b"no", Linkage::External, Visibility::Default, u32::MAX),
        ],
    };
    match compile_unit(unit) {
        Err(BuildError::UnitTranslationFailure { item, construct, .. }) => {
            assert_eq!(item, 1);
            assert_eq!(construct, u32::MAX);
        },
        _ => panic!("the undeclared construct must fail fatally"),
    }
}

#[test]
fn prepare_thin_and_serialize_share_the_wire_format() {
    let module = Module { name: b"m".to_vec(), payload: vec![1, 2, 3], kind: ModuleKind::Regular };
    let (name, thin) = rustc_codegen_qir::driver::QirCodegenBackend::prepare_thin(module);
    assert_eq!(name, b"m".to_vec());
    assert_eq!(thin.data(), &[1, 2, 3]);

    let module = Module { name: b"m".to_vec(), payload: vec![1, 2, 3], kind: ModuleKind::Regular };
    let (name, serialized) = rustc_codegen_qir::driver::QirCodegenBackend::serialize_module(module);
    assert_eq!(name, b"m".to_vec());
    assert_eq!(serialized.data(), &[1, 2, 3]);
}
