//! The thin-merge coordination structure.
//!
//! Fresh per-unit buffers and cached modules from prior builds are
//! moved into one immutable, reference-counted pool; each merge job
//! holds only the pool reference and its index, so parallel jobs never
//! duplicate payloads.  Job order is fresh entries first, then cached
//! entries, each in caller-supplied order — nothing is reordered here.
//! Merging itself is a structural no-op: every job stays independently
//! thin, and this structure only holds the seam where true cross-unit
//! merging would sit.

use std::sync::Arc;
use vstd::prelude::*;

use crate::buffer::{QirModuleBuffer, QirThinBuffer};
use crate::bytes::{contains_nul, nul_free};
use crate::errors::BuildError;

verus! {

/// A cache entry carried across builds, keyed by compilation-unit
/// name.  The serialized module it names rides beside it in the cached
/// input pair.
#[derive(Debug)]
pub struct WorkProduct {
    pub cgu_name: Vec<u8>,
}

impl View for WorkProduct {
    type V = Seq<u8>;

    open spec fn view(&self) -> Seq<u8> {
        self.cgu_name@
    }
}

/// The shared pool behind all merge jobs of one build: constructed
/// once, never mutated, and freed only when the last referencing job is
/// dropped.
#[derive(Debug)]
pub struct ThinShared {
    /// Fresh per-unit buffers, in given order.
    pub thin_buffers: Vec<QirThinBuffer>,
    /// Cached serialized modules, in given order.
    pub serialized_modules: Vec<QirModuleBuffer>,
    /// Every module name, fresh first then cached, each free of the
    /// embedded terminator.
    pub module_names: Vec<Vec<u8>>,
}

/// The mathematical value of a [`ThinShared`] pool.
pub struct ThinSharedView {
    pub thin_buffers: Seq<Seq<u8>>,
    pub serialized_modules: Seq<Seq<u8>>,
    pub module_names: Seq<Seq<u8>>,
}

impl View for ThinShared {
    type V = ThinSharedView;

    open spec fn view(&self) -> ThinSharedView {
        ThinSharedView {
            thin_buffers: self.thin_buffers@.map_values(|b: QirThinBuffer| b.0@),
            serialized_modules: self.serialized_modules@.map_values(|b: QirModuleBuffer| b.0@),
            module_names: self.module_names@.map_values(|n: Vec<u8>| n@),
        }
    }
}

/// One mergeable job: a reference to the shared pool and the index of
/// the module it covers.
#[derive(Debug)]
pub struct ThinModule {
    pub shared: Arc<ThinShared>,
    pub idx: usize,
}

/// The names of the fresh modules, in given order.
pub open spec fn fresh_names(ms: Seq<(Vec<u8>, QirThinBuffer)>) -> Seq<Seq<u8>> {
    ms.map_values(|p: (Vec<u8>, QirThinBuffer)| p.0@)
}

/// The payloads of the fresh modules, in given order.
pub open spec fn fresh_payloads(ms: Seq<(Vec<u8>, QirThinBuffer)>) -> Seq<Seq<u8>> {
    ms.map_values(|p: (Vec<u8>, QirThinBuffer)| p.1.0@)
}

/// The work-product names of the cached modules, in given order.
pub open spec fn cached_names(cs: Seq<(QirModuleBuffer, WorkProduct)>) -> Seq<Seq<u8>> {
    cs.map_values(|p: (QirModuleBuffer, WorkProduct)| p.1.cgu_name@)
}

/// The payloads of the cached modules, in given order.
pub open spec fn cached_payloads(cs: Seq<(QirModuleBuffer, WorkProduct)>) -> Seq<Seq<u8>> {
    cs.map_values(|p: (QirModuleBuffer, WorkProduct)| p.0.0@)
}

/// Whether every name in the combined fresh-then-cached order is free
/// of the embedded terminator.
pub open spec fn names_encodable(names: Seq<Seq<u8>>) -> bool {
    forall|i: int| 0 <= i < names.len() ==> nul_free(names[i])
}

/// The pool every job of this coordinator call must reference.
pub open spec fn pool_spec(ms: Seq<(Vec<u8>, QirThinBuffer)>, cs: Seq<
    (QirModuleBuffer, WorkProduct),
>) -> ThinSharedView {
    ThinSharedView {
        thin_buffers: fresh_payloads(ms),
        serialized_modules: cached_payloads(cs),
        module_names: fresh_names(ms) + cached_names(cs),
    }
}

/// Wraps fresh and cached modules into one ordered job list over one
/// shared pool.
///
/// The job list holds one job per module, fresh entries first in given
/// order, then cached entries in given order, each job carrying the
/// pool and its own index.  A name with an embedded terminator is a
/// fatal encoding error for the whole call: no partial job list is
/// returned, and the error reports the position of the first offending
/// name in the combined order.  No work products are promoted by the
/// structural no-op merge, so the second result is always empty.
#[verifier::loop_isolation(false)]
pub fn run_thin(modules: Vec<(Vec<u8>, QirThinBuffer)>, cached_modules: Vec<
    (QirModuleBuffer, WorkProduct),
>) -> (r: Result<(Vec<ThinModule>, Vec<WorkProduct>), BuildError>)
    requires
        modules@.len() + cached_modules@.len() <= usize::MAX,
    ensures
        ({
            let names = fresh_names(modules@) + cached_names(cached_modules@);
            &&& (names_encodable(names) <==> r is Ok)
            &&& (r matches Ok(ok) ==> {
                &&& ok.0@.len() == names.len()
                &&& forall|i: int| 0 <= i < ok.0@.len() ==> #[trigger] ok.0@[i].idx == i
                &&& forall|i: int|
                    0 <= i < ok.0@.len() ==> (#[trigger] ok.0@[i].shared)@ == pool_spec(
                        modules@,
                        cached_modules@,
                    )
                &&& ok.1@.len() == 0
            })
            &&& (r matches Err(e) ==> {
                &&& e matches BuildError::NameEncodingError { name_index }
                &&& 0 <= name_index < names.len()
                &&& !nul_free(names[name_index as int])
                &&& forall|j: int| 0 <= j < name_index ==> nul_free(names[j])
            })
        }),
{
    let ghost orig_modules = modules@;
    let ghost orig_cached = cached_modules@;
    let ghost names = fresh_names(orig_modules) + cached_names(orig_cached);
    let n_fresh = modules.len();
    let n_cached = cached_modules.len();

    let mut fresh_in = modules;
    let mut thin_buffers: Vec<QirThinBuffer> = Vec::new();
    let mut module_names: Vec<Vec<u8>> = Vec::new();
    let mut i: usize = 0;
    proof {
        assert(orig_modules.skip(0) =~= orig_modules);
    }
    while i < n_fresh
        invariant
            n_fresh == orig_modules.len(),
            n_cached == orig_cached.len(),
            n_fresh + n_cached <= usize::MAX,
            0 <= i <= n_fresh,
            fresh_in@ == orig_modules.skip(i as int),
            thin_buffers@.map_values(|b: QirThinBuffer| b.0@) == fresh_payloads(
                orig_modules.take(i as int),
            ),
            module_names@.map_values(|n: Vec<u8>| n@) == fresh_names(orig_modules.take(i as int)),
            forall|j: int| 0 <= j < i ==> nul_free(names[j]),
            names == fresh_names(orig_modules) + cached_names(orig_cached),
        decreases n_fresh - i,
    {
        let pair = fresh_in.remove(0);
        proof {
            assert(orig_modules.skip(i as int)[0] == orig_modules[i as int]);
            assert(fresh_in@ =~= orig_modules.skip(i as int + 1));
            assert(names[i as int] == orig_modules[i as int].0@);
        }
        let (name, buffer) = pair;
        if contains_nul(name.as_slice()) {
            proof {
                assert(!nul_free(names[i as int]));
                assert(names.len() == n_fresh + n_cached);
                assert(!names_encodable(names));
            }
            return Err(BuildError::NameEncodingError { name_index: i });
        }
        thin_buffers.push(buffer);
        module_names.push(name);
        proof {
            assert(thin_buffers@.map_values(|b: QirThinBuffer| b.0@) =~= fresh_payloads(
                orig_modules.take(i as int),
            ).push(orig_modules[i as int].1.0@));
            assert(fresh_payloads(orig_modules.take(i as int + 1)) =~= fresh_payloads(
                orig_modules.take(i as int),
            ).push(orig_modules[i as int].1.0@));
            assert(module_names@.map_values(|n: Vec<u8>| n@) =~= fresh_names(
                orig_modules.take(i as int),
            ).push(orig_modules[i as int].0@));
            assert(fresh_names(orig_modules.take(i as int + 1)) =~= fresh_names(
                orig_modules.take(i as int),
            ).push(orig_modules[i as int].0@));
        }
        i += 1;
    }
    proof {
        assert(orig_modules.take(n_fresh as int) =~= orig_modules);
    }

    let mut cached_in = cached_modules;
    let mut serialized_modules: Vec<QirModuleBuffer> = Vec::new();
    let mut k: usize = 0;
    proof {
        assert(orig_cached.skip(0) =~= orig_cached);
    }
    while k < n_cached
        invariant
            n_fresh == orig_modules.len(),
            n_cached == orig_cached.len(),
            n_fresh + n_cached <= usize::MAX,
            0 <= k <= n_cached,
            cached_in@ == orig_cached.skip(k as int),
            serialized_modules@.map_values(|b: QirModuleBuffer| b.0@) == cached_payloads(
                orig_cached.take(k as int),
            ),
            module_names@.map_values(|n: Vec<u8>| n@) == fresh_names(orig_modules) + cached_names(
                orig_cached.take(k as int),
            ),
            thin_buffers@.map_values(|b: QirThinBuffer| b.0@) == fresh_payloads(orig_modules),
            forall|j: int| 0 <= j < n_fresh + k ==> nul_free(names[j]),
            names == fresh_names(orig_modules) + cached_names(orig_cached),
        decreases n_cached - k,
    {
        let pair = cached_in.remove(0);
        proof {
            assert(orig_cached.skip(k as int)[0] == orig_cached[k as int]);
            assert(cached_in@ =~= orig_cached.skip(k as int + 1));
            assert(names[n_fresh + k] == orig_cached[k as int].1.cgu_name@);
        }
        let (sm, wp) = pair;
        if contains_nul(wp.cgu_name.as_slice()) {
            proof {
                assert(!nul_free(names[n_fresh + k]));
                assert(names.len() == n_fresh + n_cached);
                assert(!names_encodable(names));
            }
            return Err(BuildError::NameEncodingError { name_index: n_fresh + k });
        }
        serialized_modules.push(sm);
        module_names.push(wp.cgu_name);
        proof {
            assert(serialized_modules@.map_values(|b: QirModuleBuffer| b.0@) =~= cached_payloads(
                orig_cached.take(k as int),
            ).push(orig_cached[k as int].0.0@));
            assert(cached_payloads(orig_cached.take(k as int + 1)) =~= cached_payloads(
                orig_cached.take(k as int),
            ).push(orig_cached[k as int].0.0@));
            assert(module_names@.map_values(|n: Vec<u8>| n@) =~= (fresh_names(orig_modules)
                + cached_names(orig_cached.take(k as int))).push(orig_cached[k as int].1.cgu_name@));
            assert(fresh_names(orig_modules) + cached_names(orig_cached.take(k as int + 1)) =~= (
            fresh_names(orig_modules) + cached_names(orig_cached.take(k as int))).push(
                orig_cached[k as int].1.cgu_name@,
            ));
        }
        k += 1;
    }
    proof {
        assert(orig_cached.take(n_cached as int) =~= orig_cached);
        assert(forall|j: int| 0 <= j < names.len() ==> nul_free(names[j]));
    }

    let total = module_names.len();
    proof {
        assert(module_names@.map_values(|n: Vec<u8>| n@).len() == names.len());
    }
    let shared = Arc::new(
        ThinShared { thin_buffers, serialized_modules, module_names },
    );
    proof {
        assert(shared@ == pool_spec(orig_modules, orig_cached));
    }
    let mut opt_jobs: Vec<ThinModule> = Vec::new();
    let mut idx: usize = 0;
    while idx < total
        invariant
            0 <= idx <= total,
            opt_jobs@.len() == idx,
            forall|i: int| 0 <= i < idx ==> #[trigger] opt_jobs@[i].idx == i,
            forall|i: int|
                0 <= i < idx ==> (#[trigger] opt_jobs@[i].shared)@ == pool_spec(
                    orig_modules,
                    orig_cached,
                ),
            shared@ == pool_spec(orig_modules, orig_cached),
        decreases total - idx,
    {
        opt_jobs.push(ThinModule { shared: shared.clone(), idx });
        idx += 1;
    }
    Ok((opt_jobs, Vec::new()))
}

} // verus!
