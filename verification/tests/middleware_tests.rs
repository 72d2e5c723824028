use std::io::Write;

use expense_server::dispatch::dispatch;
use expense_server::middleware::respond;
use expense_server::routes::routes;
use expense_server::store::{ServerState, Store};
use expense_server::types::{Method, Request};

fn fresh_state() -> ServerState {
    ServerState { config_foo: b"bar".to_vec(), db: Some(Store::new()) }
}

fn inflate(compressed: &[u8]) -> Vec<u8> {
    let mut dec = flate2::write::DeflateDecoder::new(Vec::new());
    dec.write_all(compressed).expect("the stream was produced by the encoder");
    dec.finish().expect("the stream was produced by the encoder")
}

#[test]
fn middleware_compresses_every_response() {
    let table = routes();
    let req = Request { method: Method::Get, path: b"/json".to_vec(), headers: Vec::new(), body: Vec::new() };
    let mut s1 = fresh_state();
    let plain = dispatch(&table, &mut s1, &req);
    let mut s2 = fresh_state();
    let compressed = respond(&table, &mut s2, &req);
    assert_eq!(compressed.status, plain.status);
    assert_ne!(compressed.body, plain.body);
    assert_eq!(inflate(&compressed.body), plain.body);
}

#[test]
fn middleware_applies_to_errors_too() {
    let table = routes();
    let req = Request { method: Method::Get, path: b"/nonexistent".to_vec(), headers: Vec::new(), body: Vec::new() };
    let mut s = fresh_state();
    let r = respond(&table, &mut s, &req);
    assert_eq!(r.status, 404);
    assert_eq!(inflate(&r.body), Vec::<u8>::new());
}

#[test]
fn middleware_keeps_the_expense_write_intact() {
    let table = routes();
    let req = Request {
        method: Method::Post,
        path: b"/expenses".to_vec(),
        headers: vec![(b"content-type".to_vec(), b"application/json".to_vec())],
        body: b"{\"name\":\"Coffee\",\"amount\":3.5}".to_vec(),
    };
    let mut s = fresh_state();
    let r = respond(&table, &mut s, &req);
    assert_eq!(r.status, 200);
    assert_eq!(
        inflate(&r.body),
        b"{\"id\":1,\"name\":\"Coffee\",\"amount\":3.5}".to_vec()
    );
}
