use expense_server::dispatch::{extract_one, Extracted};
use expense_server::routes::{Binding, PatSeg};
use expense_server::store::{ServerState, Store};
use expense_server::types::ApiError;

fn ctx() -> (Vec<PatSeg>, Vec<Vec<u8>>, Vec<u8>, ServerState) {
    let pattern = vec![PatSeg::Lit(b"hello".to_vec()), PatSeg::Var(b"name".to_vec())];
    let segs = vec![b"hello".to_vec(), b"Alice".to_vec()];
    let body = b"raw bytes".to_vec();
    let state = ServerState { config_foo: b"bar".to_vec(), db: Some(Store::new()) };
    (pattern, segs, body, state)
}

#[test]
fn segment_extractor_reads_the_bound_value() {
    let (pattern, segs, body, state) = ctx();
    let r = extract_one(&Binding::Segment(b"name".to_vec()), &pattern, &segs, &body, &state);
    assert!(matches!(r, Ok(Extracted::Seg(v)) if v == b"Alice".to_vec()));
}

#[test]
fn absent_segment_is_a_missing_segment_failure() {
    let (pattern, segs, body, state) = ctx();
    let r = extract_one(&Binding::Segment(b"other".to_vec()), &pattern, &segs, &body, &state);
    assert!(matches!(r, Err(ApiError::MissingSegment)));
}

#[test]
fn raw_body_extractor_passes_bytes_through() {
    let (pattern, segs, body, state) = ctx();
    let r = extract_one(&Binding::RawBody, &pattern, &segs, &body, &state);
    assert!(matches!(r, Ok(Extracted::Body(v)) if v == b"raw bytes".to_vec()));
    let empty: Vec<u8> = Vec::new();
    let r2 = extract_one(&Binding::RawBody, &pattern, &segs, &empty, &state);
    assert!(matches!(r2, Ok(Extracted::Body(v)) if v.is_empty()));
}

#[test]
fn resource_extractor_fails_only_when_the_store_is_unreachable() {
    let (pattern, segs, body, mut state) = ctx();
    let r = extract_one(&Binding::Resource, &pattern, &segs, &body, &state);
    assert!(matches!(r, Ok(Extracted::Res(v)) if v == b"bar".to_vec()));
    state.db = None;
    let r2 = extract_one(&Binding::Resource, &pattern, &segs, &body, &state);
    assert!(matches!(r2, Err(ApiError::ResourceUnavailable)));
}
