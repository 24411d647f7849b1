//! The driver: orchestration of resolution, per-unit compilation, the
//! join barrier, and linking.
//!
//! Units are compiled independently (they share no mutable state), each
//! result tagged with its declared index.  The join step is the sole
//! barrier: it accepts the results in whatever order they completed,
//! propagates the first fatal failure in that order, and otherwise
//! restores the declared unit order — the artifact never reflects
//! completion order, and no partial artifact set survives a failure.

use vstd::prelude::*;

use crate::buffer::{QirModuleBuffer, QirThinBuffer};
use crate::errors::BuildError;
use crate::link::{
    concat_objects, lib_views, link, offending_libs, out_file_name, rlib_file_name, CodegenResults,
    CompiledModule, CrateInfo, CrateType, NativeLib,
};
use crate::target::{resolve, resolve_spec, Target};
use crate::unit::{
    compile_unit, module_spec, unit_translates, unit_wf, CompilationUnit, Module, ModuleView,
    UnitView,
};

verus! {

/// The code generation backend for the QIR dialect.
///
/// The one field guards process-wide one-time initialization; target
/// resolution must stay callable before it is set.
#[derive(Clone, Copy, PartialEq, Eq, Structural, Debug)]
pub struct QirCodegenBackend {
    /// Whether process-wide initialization has run.
    pub initialized: bool,
}

impl Default for QirCodegenBackend {
    /// A backend that has not initialized anything process-wide yet.
    fn default() -> (r: Self)
        ensures
            !r.initialized,
    {
        QirCodegenBackend { initialized: false }
    }
}

/// The views of a sequence of compilation units.
pub open spec fn unit_views(us: Seq<CompilationUnit>) -> Seq<UnitView> {
    us.map_values(|u: CompilationUnit| u@)
}

/// Whether every unit of the set translates completely.
pub open spec fn all_units_translate(uvs: Seq<UnitView>) -> bool {
    forall|i: int| 0 <= i < uvs.len() ==> unit_translates(uvs[i])
}

/// The modules a unit set compiles to, in declared order.
pub open spec fn build_modules_spec(uvs: Seq<UnitView>) -> Seq<ModuleView> {
    uvs.map_values(|u: UnitView| module_spec(u))
}

/// The concatenation of the payloads of `ms`, in order.
pub open spec fn concat_payloads(ms: Seq<ModuleView>) -> Seq<u8>
    decreases ms.len(),
{
    if ms.len() == 0 {
        Seq::empty()
    } else {
        ms[0].payload + concat_payloads(ms.skip(1))
    }
}

/// The object file name of a module: its name and the object suffix.
pub open spec fn object_file_name_spec(name: Seq<u8>) -> Seq<u8> {
    name + seq![46u8, 111u8]
}

/// Whether some completed result carries the declared index `s`.
pub open spec fn has_result_for(results: Seq<(usize, Result<Module, BuildError>)>, s: int) -> bool {
    exists|j: int| 0 <= j < results.len() && (#[trigger] results[j].0) == s
}

impl QirCodegenBackend {
    /// Process-wide one-time initialization (diagnostics and the like),
    /// guarded so that repeated calls change nothing further.
    pub fn init(&mut self)
        ensures
            final(self).initialized,
    {
        if !self.initialized {
            self.initialized = true;
        }
    }

    /// Decides whether this backend owns the given target triple, and
    /// if so yields the target descriptor.  Callable before [`init`]:
    /// it depends on nothing process-wide.
    ///
    /// [`init`]: QirCodegenBackend::init
    pub fn target_override(&self, triple: &[u8]) -> (r: Option<Target>)
        ensures
            r is Some <==> resolve_spec(triple@) is Some,
            r matches Some(t) ==> resolve_spec(triple@) == Some(t@),
    {
        resolve(triple)
    }

    /// Compiles one unit through the full lifecycle, yielding the
    /// module and a scheduling-cost hint.
    pub fn compile_codegen_unit(&self, unit: CompilationUnit) -> (r: Result<
        (Module, u64),
        BuildError,
    >)
        requires
            unit_wf(unit@),
        ensures
            unit_translates(unit@) ==> (r matches Ok(m) && m.0@ == module_spec(unit@) && m.1 == 0),
            !unit_translates(unit@) ==> (r matches Err(e) && e
                matches BuildError::UnitTranslationFailure { unit: u, item, construct } && u@
                == unit@.name),
    {
        compile_unit(unit)
    }

    /// Compiles every unit of the crate, in declared order, tagging
    /// each result with its declared index.  Units share no mutable
    /// state, so the results are a function of each unit alone.
    #[verifier::loop_isolation(false)]
    pub fn codegen_crate(&self, units: Vec<CompilationUnit>) -> (r: Vec<
        (usize, Result<Module, BuildError>),
    >)
        requires
            forall|i: int| 0 <= i < units@.len() ==> unit_wf(#[trigger] unit_views(units@)[i]),
        ensures
            r@.len() == units@.len(),
            forall|i: int| 0 <= i < r@.len() ==> (#[trigger] r@[i].0) == i,
            forall|i: int|
                0 <= i < r@.len() ==> match (#[trigger] r@[i].1) {
                    Ok(m) => unit_translates(unit_views(units@)[i]) && m@ == module_spec(
                        unit_views(units@)[i],
                    ),
                    Err(e) => !unit_translates(unit_views(units@)[i]) && (e
                        matches BuildError::UnitTranslationFailure { unit: u, item, construct } && u@
                        == unit_views(units@)[i].name),
                },
    {
        let ghost orig = units@;
        let n = units.len();
        let mut rest = units;
        let mut results: Vec<(usize, Result<Module, BuildError>)> = Vec::new();
        let mut i: usize = 0;
        proof {
            assert(orig.skip(0) =~= orig);
        }
        while i < n
            invariant
                rest@ == orig.skip(i as int),
                0 <= i <= n,
                results@.len() == i,
                forall|j: int| 0 <= j < i ==> (#[trigger] results@[j].0) == j,
                forall|j: int|
                    0 <= j < i ==> match (#[trigger] results@[j].1) {
                        Ok(m) => unit_translates(unit_views(orig)[j]) && m@ == module_spec(
                            unit_views(orig)[j],
                        ),
                        Err(e) => !unit_translates(unit_views(orig)[j]) && (e
                            matches BuildError::UnitTranslationFailure { unit: u, item, construct }
                            && u@ == unit_views(orig)[j].name),
                    },
            decreases n - i,
        {
            let unit = rest.remove(0);
            proof {
                assert(orig.skip(i as int)[0] == orig[i as int]);
                assert(rest@ =~= orig.skip(i as int + 1));
                assert(unit@ == unit_views(orig)[i as int]);
            }
            let outcome = match compile_unit(unit) {
                Ok(m) => Ok(m.0),
                Err(e) => Err(e),
            };
            results.push((i, outcome));
            i += 1;
        }
        results
    }

    /// The join barrier.
    ///
    /// Takes the per-unit results in the order they completed, each
    /// tagged with its declared index, together with the unit count.
    /// Waits on everything: the input must carry exactly one result per
    /// declared unit.  On the first fatal failure in completion order,
    /// that failure propagates and no artifact set is returned.
    /// Otherwise the modules come back in declared order — completion
    /// order leaves no trace.
    #[verifier::loop_isolation(false)]
    pub fn join_codegen(&self, results: Vec<(usize, Result<Module, BuildError>)>, n: usize) -> (r:
        Result<Vec<Module>, BuildError>)
        requires
            results@.len() == n,
            forall|j: int| 0 <= j < n ==> (#[trigger] results@[j].0) < n,
            forall|j1: int, j2: int|
                0 <= j1 < j2 < n ==> results@[j1].0 != results@[j2].0,
            forall|s: int| 0 <= s < n ==> #[trigger] has_result_for(results@, s),
        ensures
            (r is Ok <==> (forall|j: int| 0 <= j < n ==> (#[trigger] results@[j].1) is Ok)),
            r matches Err(e) ==> (exists|j: int|
                0 <= j < n && ((#[trigger] results@[j].1) matches Err(e2) && e2 == e) && (forall|
                    j2: int,
                |
                    0 <= j2 < j ==> results@[j2].1 is Ok)),
            r matches Ok(mods) ==> {
                &&& mods@.len() == n
                &&& forall|j: int|
                    0 <= j < n ==> ((#[trigger] results@[j].1) matches Ok(m) ==> mods@[results@[j].0
                        as int]@ == m@)
            },
    {
        let ghost orig = results@;
        let mut slots: Vec<Option<Module>> = Vec::new();
        let mut t: usize = 0;
        while t < n
            invariant
                0 <= t <= n,
                slots@.len() == t,
                forall|s: int| 0 <= s < t ==> (#[trigger] slots@[s]) is None,
            decreases n - t,
        {
            slots.push(None);
            t += 1;
        }
        let mut rest = results;
        let mut j: usize = 0;
        proof {
            assert(orig.skip(0) =~= orig);
        }
        while j < n
            invariant
                rest@ == orig.skip(j as int),
                0 <= j <= n,
                slots@.len() == n,
                forall|j2: int| 0 <= j2 < j ==> (#[trigger] orig[j2].1) is Ok,
                forall|j2: int|
                    0 <= j2 < j ==> ((#[trigger] orig[j2].1) matches Ok(m) ==> slots@[orig[j2].0
                        as int] matches Some(sm) && sm@ == m@),
            decreases n - j,
        {
            let pair = rest.remove(0);
            proof {
                assert(orig.skip(j as int)[0] == orig[j as int]);
                assert(rest@ =~= orig.skip(j as int + 1));
            }
            let (idx, outcome) = pair;
            match outcome {
                Err(e) => {
                    return Err(e);
                },
                Ok(m) => {
                    slots.set(idx, Some(m));
                    proof {
                        assert(forall|j2: int|
                            0 <= j2 < j ==> orig[j2].0 != orig[j as int].0);
                    }
                },
            }
            j += 1;
        }
        let ghost filled = slots@;
        let mut mods: Vec<Module> = Vec::new();
        let mut s: usize = 0;
        proof {
            assert(filled.skip(0) =~= filled);
        }
        while s < n
            invariant
                slots@ == filled.skip(s as int),
                0 <= s <= n,
                filled.len() == n,
                mods@.len() == s,
                forall|t2: int|
                    0 <= t2 < s ==> (#[trigger] filled[t2] matches Some(m) && mods@[t2]@ == m@),
                forall|j2: int|
                    0 <= j2 < n ==> ((#[trigger] orig[j2].1) matches Ok(m) ==> filled[orig[j2].0
                        as int] matches Some(sm) && sm@ == m@),
            decreases n - s,
        {
            let slot = slots.remove(0);
            proof {
                assert(filled.skip(s as int)[0] == filled[s as int]);
                assert(slots@ =~= filled.skip(s as int + 1));
                assert(has_result_for(orig, s as int));
                let jw = choose|jw: int| 0 <= jw < orig.len() && (#[trigger] orig[jw].0) == s;
                assert(orig[jw].1 is Ok);
                assert(filled[s as int] is Some);
            }
            match slot {
                Some(m) => {
                    mods.push(m);
                },
                None => {
                    proof {
                        assert(false);
                    }
                },
            }
            s += 1;
        }
        proof {
            assert(forall|j2: int|
                0 <= j2 < n ==> ((#[trigger] orig[j2].1) matches Ok(m) ==> mods@[orig[j2].0 as int]@
                    == m@));
        }
        Ok(mods)
    }

    /// Emits one module: derives the object file name from the module
    /// name and the object output tag, and hands back the object record
    /// whose bytes are the module payload.  Writing the bytes to disk
    /// belongs to the host.
    pub fn codegen(&self, module: Module) -> (r: (CompiledModule, Vec<u8>))
        ensures
            r.0.name@ == module@.name,
            r.0.kind == module@.kind,
            r.0.object matches Some(o) && o@ == module@.payload,
            r.1@ == object_file_name_spec(module@.name),
    {
        let mut file_name = crate::bytes::copy_bytes(&module.name);
        file_name.push(46);
        file_name.push(111);
        proof {
            assert(file_name@ =~= object_file_name_spec(module@.name));
        }
        let compiled = CompiledModule {
            name: module.name,
            kind: module.kind,
            object: Some(module.payload),
        };
        (compiled, file_name)
    }

    /// Splits a module into its name and its thin buffer for the merge
    /// step.
    pub fn prepare_thin(module: Module) -> (r: (Vec<u8>, QirThinBuffer))
        ensures
            r.0@ == module@.name,
            r.1.0@ == module@.payload,
    {
        (module.name, QirThinBuffer(module.payload))
    }

    /// Serializes a module into its name and its cacheable buffer, in
    /// the same wire format fresh builds and emission use.
    pub fn serialize_module(module: Module) -> (r: (Vec<u8>, QirModuleBuffer))
        ensures
            r.0@ == module@.name,
            r.1.0@ == module@.payload,
    {
        (module.name, QirModuleBuffer(module.payload))
    }
}

/// Pointwise equal objects concatenate to the payload concatenation.
proof fn lemma_concat_objects_payloads(cs: Seq<CompiledModule>, ms: Seq<ModuleView>)
    requires
        cs.len() == ms.len(),
        forall|i: int|
            0 <= i < cs.len() ==> ((#[trigger] cs[i].object) matches Some(o) && o@ == ms[i].payload),
    ensures
        concat_objects(cs) == concat_payloads(ms),
    decreases cs.len(),
{
    if cs.len() != 0 {
        assert(cs[0].object matches Some(o) && o@ == ms[0].payload);
        lemma_concat_objects_payloads(cs.skip(1), ms.skip(1));
        assert(crate::link::object_bytes(cs[0]) == ms[0].payload);
    }
}

/// Compiles every unit and runs the join barrier: the modules come
/// back in declared order, or the first fatal failure in declared
/// order propagates and nothing survives.
#[verifier::loop_isolation(false)]
pub fn compile_and_join(backend: &QirCodegenBackend, units: Vec<CompilationUnit>) -> (r: Result<
    Vec<Module>,
    BuildError,
>)
    requires
        forall|i: int| 0 <= i < units@.len() ==> unit_wf(#[trigger] unit_views(units@)[i]),
    ensures
        ({
            let uvs = unit_views(units@);
            &&& (r is Ok <==> all_units_translate(uvs))
            &&& (r matches Ok(mods) ==> mods@.len() == uvs.len() && (forall|i: int|
                0 <= i < uvs.len() ==> (#[trigger] mods@[i]@) == module_spec(uvs[i])))
            &&& (r matches Err(e) ==> (exists|i: int|
                0 <= i < uvs.len() && !unit_translates(#[trigger] uvs[i]) && (forall|j: int|
                    0 <= j < i ==> unit_translates(uvs[j])) && (e
                    matches BuildError::UnitTranslationFailure { unit: u, item, construct } && u@
                    == uvs[i].name)))
        }),
{
    let ghost uvs = unit_views(units@);
    let n = units.len();
    let results = backend.codegen_crate(units);
    proof {
        assert forall|s: int| 0 <= s < n implies #[trigger] has_result_for(results@, s) by {
            assert(results@[s].0 == s);
        }
    }
    match backend.join_codegen(results, n) {
        Ok(mods) => {
            proof {
                assert forall|i: int| 0 <= i < n implies unit_translates(#[trigger] uvs[i]) by {
                    assert(results@[i].1 is Ok);
                }
                assert forall|i: int|
                    0 <= i < n implies (#[trigger] mods@[i]@) == module_spec(uvs[i]) by {
                    assert(results@[i].1 matches Ok(m) ==> mods@[results@[i].0 as int]@ == m@);
                }
            }
            Ok(mods)
        },
        Err(e) => {
            proof {
                let j = choose|j: int|
                    0 <= j < n && ((#[trigger] results@[j].1) matches Err(e2) && e2 == e) && (
                    forall|j2: int| 0 <= j2 < j ==> results@[j2].1 is Ok);
                assert(results@[j].1 is Err);
                assert(!unit_translates(uvs[j]));
                assert forall|j2: int| 0 <= j2 < j implies unit_translates(uvs[j2]) by {
                    assert(results@[j2].1 is Ok);
                }
            }
            Err(e)
        },
    }
}

/// Emits every module in order, turning each into its object record.
#[verifier::loop_isolation(false)]
pub fn emit_modules(backend: &QirCodegenBackend, mods: Vec<Module>) -> (r: Vec<CompiledModule>)
    ensures
        r@.len() == mods@.len(),
        forall|i: int|
            0 <= i < mods@.len() ==> ((#[trigger] r@[i].object) matches Some(o) && o@
                == mods@[i]@.payload && r@[i].name@ == mods@[i]@.name && r@[i].kind
                == mods@[i]@.kind),
{
    let ghost orig = mods@;
    let n = mods.len();
    let mut rest = mods;
    let mut compiled: Vec<CompiledModule> = Vec::new();
    let mut i: usize = 0;
    proof {
        assert(orig.skip(0) =~= orig);
    }
    while i < n
        invariant
            rest@ == orig.skip(i as int),
            0 <= i <= n,
            compiled@.len() == i,
            forall|t: int|
                0 <= t < i ==> ((#[trigger] compiled@[t].object) matches Some(o) && o@
                    == orig[t]@.payload && compiled@[t].name@ == orig[t]@.name && compiled@[t].kind
                    == orig[t]@.kind),
        decreases n - i,
    {
        let m = rest.remove(0);
        proof {
            assert(orig.skip(i as int)[0] == orig[i as int]);
            assert(rest@ =~= orig.skip(i as int + 1));
        }
        let (cm, _object_file) = backend.codegen(m);
        compiled.push(cm);
        i += 1;
    }
    compiled
}

/// The one artifact of a successful build.
#[derive(Debug)]
pub struct BuildOutput {
    /// The artifact file name, by the output naming convention.
    pub file_name: Vec<u8>,
    /// The artifact bytes: every module's object, concatenated in
    /// declared unit order.
    pub artifact: Vec<u8>,
}

/// Runs the whole pipeline for one requested output kind: resolution
/// strictly first, then per-unit compilation in declared order, the
/// join barrier, and the link.
///
/// A triple this backend does not own yields `Ok(None)` — another
/// backend may try.  Past that boundary every failure is fatal and
/// yields no artifact: the first untranslatable unit in declared order,
/// an unsupported output kind, or link metadata the archive cannot
/// honor.
#[verifier::loop_isolation(false)]
#[verifier::rlimit(60)]
pub fn build(
    backend: &QirCodegenBackend,
    triple: &[u8],
    units: Vec<CompilationUnit>,
    crate_name: &[u8],
    crate_type: CrateType,
    used_libraries: Vec<NativeLib>,
) -> (r: Result<Option<BuildOutput>, BuildError>)
    requires
        forall|i: int| 0 <= i < units@.len() ==> unit_wf(#[trigger] unit_views(units@)[i]),
    ensures
        ({
            let uvs = unit_views(units@);
            &&& (resolve_spec(triple@) is None ==> (r matches Ok(o) && o is None))
            &&& (resolve_spec(triple@) is Some && !all_units_translate(uvs) ==> (r matches Err(e)
                && (exists|i: int|
                0 <= i < uvs.len() && !unit_translates(#[trigger] uvs[i]) && (forall|j: int|
                    0 <= j < i ==> unit_translates(uvs[j])) && (e
                    matches BuildError::UnitTranslationFailure { unit: u, item, construct } && u@
                    == uvs[i].name))))
            &&& (resolve_spec(triple@) is Some && all_units_translate(uvs) && crate_type
                != CrateType::Rlib ==> (r matches Err(e) && e
                matches BuildError::UnsupportedOutputKind { kind } && kind == crate_type))
            &&& (resolve_spec(triple@) is Some && all_units_translate(uvs) && crate_type
                == CrateType::Rlib && offending_libs(lib_views(used_libraries@)).len() > 0 ==> (r
                matches Err(e) && e matches BuildError::UnsupportedLinkMetadata { libs }
                && lib_views(libs@) == offending_libs(lib_views(used_libraries@))))
            &&& (resolve_spec(triple@) is Some && all_units_translate(uvs) && crate_type
                == CrateType::Rlib && offending_libs(lib_views(used_libraries@)).len() == 0 ==> (r
                matches Ok(o) && o matches Some(out) && out.artifact@ == concat_payloads(
                build_modules_spec(uvs),
            ) && out.file_name@ == rlib_file_name(crate_name@)))
        }),
{
    let ghost uvs = unit_views(units@);

    // Target resolution comes strictly before anything else.
    if backend.target_override(triple).is_none() {
        return Ok(None);
    }

    let mods = match compile_and_join(backend, units) {
        Ok(mods) => mods,
        Err(e) => {
            return Err(e);
        },
    };

    let compiled = emit_modules(backend, mods);
    proof {
        let mvs = build_modules_spec(uvs);
        assert(forall|t: int|
            0 <= t < mvs.len() ==> (#[trigger] mvs[t]) == module_spec(uvs[t]));
        lemma_concat_objects_payloads(compiled@, mvs);
    }

    let mut local_crate_name: Vec<u8> = Vec::new();
    crate::bytes::extend_bytes(&mut local_crate_name, crate_name);
    let crate_info = CrateInfo { local_crate_name, used_libraries };
    let results = CodegenResults { modules: compiled, crate_info };

    let artifact = match link(crate_type, &results) {
        Ok(a) => a,
        Err(e) => {
            return Err(e);
        },
    };
    let file_name = match out_file_name(crate_name, crate_type) {
        Ok(f) => f,
        Err(e) => {
            proof {
                assert(false);
            }
            return Err(e);
        },
    };
    Ok(Some(BuildOutput { file_name, artifact }))
}

/// Law: the joined artifact set is determined by the declared indices
/// alone.  Any two module sequences that satisfy the join contract for
/// results carrying the same indexed modules agree element for element
/// — however the results were ordered by completion, the artifact set
/// reflects declared order.
pub proof fn lemma_join_unique(
    results: Seq<(usize, Result<Module, BuildError>)>,
    n: int,
    mods1: Seq<ModuleView>,
    mods2: Seq<ModuleView>,
)
    requires
        results.len() == n,
        forall|j: int| 0 <= j < n ==> (#[trigger] results[j].1) is Ok,
        forall|s: int| 0 <= s < n ==> #[trigger] has_result_for(results, s),
        mods1.len() == n,
        mods2.len() == n,
        forall|j: int|
            0 <= j < n ==> ((#[trigger] results[j].1) matches Ok(m) ==> mods1[results[j].0 as int]
                == m@),
        forall|j: int|
            0 <= j < n ==> ((#[trigger] results[j].1) matches Ok(m) ==> mods2[results[j].0 as int]
                == m@),
    ensures
        mods1 =~= mods2,
{
    assert forall|s: int| 0 <= s < n implies mods1[s] == mods2[s] by {
        assert(has_result_for(results, s));
        let j = choose|j: int| 0 <= j < results.len() && (#[trigger] results[j].0) == s;
        assert(results[j].1 is Ok);
    }
}

/// Law: compiling the same ordered unit set twice yields byte-identical
/// module payloads and an identical linked artifact.
pub proof fn lemma_build_deterministic(us1: Seq<UnitView>, us2: Seq<UnitView>)
    requires
        us1 =~~= us2,
    ensures
        build_modules_spec(us1) == build_modules_spec(us2),
        concat_payloads(build_modules_spec(us1)) == concat_payloads(build_modules_spec(us2)),
{
    assert(us1 == us2);
}

} // verus!
