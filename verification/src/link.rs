//! The linking step.
//!
//! Exactly one output kind is supported: an archive-style aggregate.
//! For it, the linker concatenates every module's object bytes in
//! compilation order into one artifact.  Link-affecting metadata the
//! archive cannot honor is surfaced per occurrence, never dropped; any
//! other requested output kind is rejected outright.

use vstd::prelude::*;

use crate::errors::BuildError;
use crate::unit::ModuleKind;

verus! {

/// The requested kind of crate output.
#[derive(Clone, Copy, PartialEq, Eq, Structural, Debug)]
pub enum CrateType {
    Executable,
    Dylib,
    Rlib,
    Staticlib,
    Cdylib,
    ProcMacro,
}

/// The kind of a native library recorded for linking.
#[derive(Clone, Copy, PartialEq, Eq, Structural, Debug)]
pub enum NativeLibKind {
    /// A static library to bundle into the archive.
    StaticBundled,
    /// A static library left to the downstream link.
    StaticUnbundled,
    Dylib,
    Framework,
    RawDylib,
    LinkArg,
    Unspecified,
}

/// A native library recorded by the frontend for linking.
#[derive(Debug)]
pub struct NativeLib {
    pub kind: NativeLibKind,
    /// The library name, where one was given.
    pub name: Option<Vec<u8>>,
}

/// The object output of one compiled module, as handed to the linker.
#[derive(Debug)]
pub struct CompiledModule {
    /// Module name, unique within the build.
    pub name: Vec<u8>,
    pub kind: ModuleKind,
    /// The emitted object bytes, where the module produced any.
    pub object: Option<Vec<u8>>,
}

/// Everything the linker consumes: the compiled modules in compilation
/// order and the crate-level information recorded by the frontend.
#[derive(Debug)]
pub struct CodegenResults {
    pub modules: Vec<CompiledModule>,
    pub crate_info: CrateInfo,
}

/// Crate-level information the linker reads.
#[derive(Debug)]
pub struct CrateInfo {
    pub local_crate_name: Vec<u8>,
    pub used_libraries: Vec<NativeLib>,
}

/// The mathematical value of a [`NativeLib`].
pub struct NativeLibView {
    pub kind: NativeLibKind,
    pub name: Option<Seq<u8>>,
}

impl View for NativeLib {
    type V = NativeLibView;

    open spec fn view(&self) -> NativeLibView {
        NativeLibView {
            kind: self.kind,
            name: match self.name {
                Some(n) => Some(n@),
                None => None,
            },
        }
    }
}

/// The views of a sequence of library entries.
pub open spec fn lib_views(libs: Seq<NativeLib>) -> Seq<NativeLibView> {
    libs.map_values(|lib: NativeLib| lib@)
}

/// Whether the archive step cannot honor this library entry.  A static
/// library marked for bundling but carrying no name is the one shape
/// with nothing to do; everything else affects the link in a way the
/// archive cannot express.
pub open spec fn link_affecting(lib: NativeLibView) -> bool {
    !(lib.kind == NativeLibKind::StaticBundled && lib.name is None)
}

/// The library entries the archive cannot honor, in order.
pub open spec fn offending_libs(libs: Seq<NativeLibView>) -> Seq<NativeLibView> {
    libs.filter(|lib: NativeLibView| link_affecting(lib))
}

/// The object bytes of one module, empty where it produced none.
pub open spec fn object_bytes(m: CompiledModule) -> Seq<u8> {
    match m.object {
        Some(o) => o@,
        None => Seq::empty(),
    }
}

/// The concatenation of the object bytes of `ms` in order, skipping
/// modules that produced no object.
pub open spec fn concat_objects(ms: Seq<CompiledModule>) -> Seq<u8>
    decreases ms.len(),
{
    if ms.len() == 0 {
        Seq::empty()
    } else {
        object_bytes(ms[0]) + concat_objects(ms.skip(1))
    }
}

/// Scans the recorded libraries and returns every entry the archive
/// cannot honor, in order, as its own diagnostic.
pub fn collect_link_metadata(libs: &Vec<NativeLib>) -> (r: Vec<NativeLib>)
    ensures
        lib_views(r@) == offending_libs(lib_views(libs@)),
{
    let n = libs.len();
    let mut out: Vec<NativeLib> = Vec::new();
    let mut i: usize = 0;
    proof {
        assert(lib_views(libs@).take(0) =~= Seq::<NativeLibView>::empty());
        assert(lib_views(out@) =~= Seq::<NativeLibView>::empty());
        assert(Seq::<NativeLibView>::empty().filter(|lib: NativeLibView| link_affecting(lib))
            =~= Seq::<NativeLibView>::empty());
    }
    while i < n
        invariant
            n == libs@.len(),
            0 <= i <= n,
            lib_views(out@) == lib_views(libs@).take(i as int).filter(
                |lib: NativeLibView| link_affecting(lib),
            ),
        decreases n - i,
    {
        let ghost prefix = lib_views(libs@).take(i as int);
        let lib = &libs[i];
        let keep = match (&lib.kind, &lib.name) {
            (NativeLibKind::StaticBundled, Option::None) => false,
            _ => true,
        };
        proof {
            assert(keep == link_affecting(libs@[i as int]@));
            assert(lib_views(libs@).take(i + 1) =~= prefix.push(libs@[i as int]@));
            reveal_with_fuel(Seq::filter, 2);
            assert(prefix.push(libs@[i as int]@).drop_last() =~= prefix);
        }
        if keep {
            let copied = NativeLib {
                kind: lib.kind,
                name: match &lib.name {
                    Some(v) => Some(crate::bytes::copy_bytes(v)),
                    None => None,
                },
            };
            proof {
                assert(copied@ == libs@[i as int]@);
            }
            out.push(copied);
            proof {
                assert(lib_views(out@) =~= lib_views(out@.drop_last()).push(copied@));
            }
        }
        i += 1;
    }
    proof {
        assert(lib_views(libs@).take(n as int) =~= lib_views(libs@));
    }
    out
}

/// Archives the modules of an rlib request: every object, in
/// compilation order, concatenated byte for byte.  Fails fatally on the
/// first occurrence of link metadata the archive cannot honor, carrying
/// one diagnostic per occurrence.
pub fn link_rlib(results: &CodegenResults) -> (r: Result<Vec<u8>, BuildError>)
    ensures
        offending_libs(lib_views(results.crate_info.used_libraries@)).len() > 0 ==> (r matches Err(
            e,
        ) && e matches BuildError::UnsupportedLinkMetadata { libs } && lib_views(libs@)
            == offending_libs(lib_views(results.crate_info.used_libraries@))),
        offending_libs(lib_views(results.crate_info.used_libraries@)).len() == 0 ==> (r matches Ok(
            a,
        ) && a@ == concat_objects(results.modules@)),
{
    let offending = collect_link_metadata(&results.crate_info.used_libraries);
    if offending.len() > 0 {
        proof {
            assert(lib_views(offending@).len() == offending@.len());
        }
        return Err(BuildError::UnsupportedLinkMetadata { libs: offending });
    }
    proof {
        assert(lib_views(offending@).len() == offending@.len());
    }
    let n = results.modules.len();
    let mut out: Vec<u8> = Vec::new();
    let mut i: usize = 0;
    proof {
        assert(results.modules@.skip(0) =~= results.modules@);
    }
    while i < n
        invariant
            n == results.modules@.len(),
            0 <= i <= n,
            concat_objects(results.modules@) == out@ + concat_objects(
                results.modules@.skip(i as int),
            ),
        decreases n - i,
    {
        let ghost prev = out@;
        let ghost tail = results.modules@.skip(i as int);
        proof {
            assert(tail[0] == results.modules@[i as int]);
            assert(tail.skip(1) =~= results.modules@.skip(i as int + 1));
        }
        match &results.modules[i].object {
            Some(o) => {
                crate::bytes::extend_bytes(&mut out, o.as_slice());
            },
            None => {
                proof {
                    assert(object_bytes(tail[0]) =~= Seq::<u8>::empty());
                }
            },
        }
        proof {
            assert(out@ =~= prev + object_bytes(tail[0]));
            assert(prev + (object_bytes(tail[0]) + concat_objects(
                results.modules@.skip(i as int + 1),
            )) =~= out@ + concat_objects(results.modules@.skip(i as int + 1)));
        }
        i += 1;
    }
    proof {
        assert(results.modules@.skip(i as int) =~= Seq::<CompiledModule>::empty());
        assert(out@ =~= concat_objects(results.modules@));
    }
    Ok(out)
}

/// Links the compiled modules into the final artifact for one requested
/// crate type.  The archive-style aggregate is the one supported output
/// kind; any other request is rejected, explicitly, with the kind that
/// was asked for.
pub fn link(crate_type: CrateType, results: &CodegenResults) -> (r: Result<Vec<u8>, BuildError>)
    ensures
        crate_type != CrateType::Rlib ==> (r matches Err(e) && e
            matches BuildError::UnsupportedOutputKind { kind } && kind == crate_type),
        crate_type == CrateType::Rlib && offending_libs(
            lib_views(results.crate_info.used_libraries@),
        ).len() > 0 ==> (r matches Err(e) && e matches BuildError::UnsupportedLinkMetadata { libs }
            && lib_views(libs@) == offending_libs(lib_views(results.crate_info.used_libraries@))),
        crate_type == CrateType::Rlib && offending_libs(
            lib_views(results.crate_info.used_libraries@),
        ).len() == 0 ==> (r matches Ok(a) && a@ == concat_objects(results.modules@)),
{
    match crate_type {
        CrateType::Rlib => link_rlib(results),
        other => Err(BuildError::UnsupportedOutputKind { kind: other }),
    }
}

/// The file name of the final artifact for the one supported output
/// kind: `lib`, the crate name, and the `.rlib` suffix.
pub open spec fn rlib_file_name(crate_name: Seq<u8>) -> Seq<u8> {
    seq![108u8, 105u8, 98u8] + crate_name + seq![46u8, 114u8, 108u8, 105u8, 98u8]
}

/// Derives the artifact file name from the crate name and the requested
/// crate type, by the naming convention of the one supported kind.
pub fn out_file_name(crate_name: &[u8], crate_type: CrateType) -> (r: Result<Vec<u8>, BuildError>)
    ensures
        crate_type == CrateType::Rlib ==> (r matches Ok(name) && name@ == rlib_file_name(
            crate_name@,
        )),
        crate_type != CrateType::Rlib ==> (r matches Err(e) && e
            matches BuildError::UnsupportedOutputKind { kind } && kind == crate_type),
{
    match crate_type {
        CrateType::Rlib => {
            let mut name: Vec<u8> = Vec::new();
            name.push(108);
            name.push(105);
            name.push(98);
            crate::bytes::extend_bytes(&mut name, crate_name);
            name.push(46);
            name.push(114);
            name.push(108);
            name.push(105);
            name.push(98);
            proof {
                assert(name@ =~= rlib_file_name(crate_name@));
            }
            Ok(name)
        },
        other => Err(BuildError::UnsupportedOutputKind { kind: other }),
    }
}

} // verus!
