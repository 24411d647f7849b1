use std::sync::Arc;

use rustc_codegen_qir::buffer::{QirModuleBuffer, QirThinBuffer};
use rustc_codegen_qir::errors::BuildError;
use rustc_codegen_qir::merge::{run_thin, WorkProduct};

fn fresh(name: &[u8], payload: &[u8]) -> (Vec<u8>, QirThinBuffer) {
    (name.to_vec(), QirThinBuffer(payload.to_vec()))
}

fn cached(name: &[u8], payload: &[u8]) -> (QirModuleBuffer, WorkProduct) {
    (QirModuleBuffer(payload.to_vec()), WorkProduct { cgu_name: name.to_vec() })
}

#[test]
fn jobs_cover_fresh_then_cached_in_order() {
    let (jobs, promoted) = run_thin(
        vec![fresh(b"a", &[1]), fresh(b"b", &[2, 2])],
        vec![cached(b"c", &[3, 3, 3])],
    )
    .expect("all names are encodable");
    assert_eq!(promoted.len(), 0);
    assert_eq!(jobs.len(), 3);
    for (i, job) in jobs.iter().enumerate() {
        assert_eq!(job.idx, i);
        assert_eq!(
            job.shared.module_names,
            vec![b"a".to_vec(), b"b".to_vec(), b"c".to_vec()]
        );
    }
    let pool = &jobs[0].shared;
    assert_eq!(pool.thin_buffers.len(), 2);
    assert_eq!(pool.thin_buffers[0].data(), &[1]);
    assert_eq!(pool.thin_buffers[1].data(), &[2, 2]);
    assert_eq!(pool.serialized_modules.len(), 1);
    assert_eq!(pool.serialized_modules[0].data(), &[3, 3, 3]);
}

#[test]
fn jobs_share_one_pool() {
    let (jobs, _) = run_thin(
        vec![fresh(b"a", &[1]), fresh(b"b", &[2])],
        vec![],
    )
    .expect("encodable");
    assert!(Arc::ptr_eq(&jobs[0].shared, &jobs[1].shared));
}

#[test]
fn empty_inputs_yield_no_jobs() {
    let (jobs, promoted) = run_thin(vec![], vec![]).expect("nothing to do");
    assert_eq!(jobs.len(), 0);
    assert_eq!(promoted.len(), 0);
}

#[test]
fn cached_name_with_terminator_aborts_the_whole_call() {
    let result = run_thin(
        vec![fresh(b"good", &[1])],
        vec![cached(b"bad\0name", &[2])],
    );
    match result {
        Err(BuildError::NameEncodingError { name_index }) => {
            // The offending name sits after the one fresh entry.
            assert_eq!(name_index, 1);
        },
        _ => panic!("an embedded terminator must abort the merge, with no partial job list"),
    }
}

#[test]
fn fresh_name_with_terminator_aborts_too() {
    let result = run_thin(
        vec![fresh(b"ok", &[1]), fresh(b"no\0", &[2])],
        vec![cached(b"c", &[3])],
    );
    match result {
        Err(BuildError::NameEncodingError { name_index }) => {
            assert_eq!(name_index, 1);
        },
        _ => panic!("an embedded terminator must abort the merge"),
    }
}

#[test]
fn first_offending_name_wins() {
    let result = run_thin(
        vec![fresh(b"\0first", &[1])],
        vec![cached(b"\0second", &[2])],
    );
    match result {
        Err(BuildError::NameEncodingError { name_index }) => {
            assert_eq!(name_index, 0);
        },
        _ => panic!("the first offending name must be reported"),
    }
}
