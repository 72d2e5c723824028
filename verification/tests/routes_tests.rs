use expense_server::dispatch::dispatch;
use expense_server::routes::routes;
use expense_server::store::{ServerState, Store};
use expense_server::types::{Method, ContentType, Request, Response};

fn fresh_state() -> ServerState {
    ServerState { config_foo: b"bar".to_vec(), db: Some(Store::new()) }
}

fn req(method: Method, path: &str, body: &[u8]) -> Request {
    Request {
        method,
        path: path.as_bytes().to_vec(),
        headers: vec![(b"accept".to_vec(), b"*/*".to_vec())],
        body: body.to_vec(),
    }
}

fn run(state: &mut ServerState, method: Method, path: &str, body: &[u8]) -> Response {
    let table = routes();
    dispatch(&table, state, &req(method, path, body))
}

#[test]
fn root_greets_plainly() {
    let mut state = fresh_state();
    let r = run(&mut state, Method::Get, "/", b"");
    assert_eq!(r.status, 200);
    assert!(matches!(r.ctype, ContentType::Plain));
    assert_eq!(r.body, b"Hello world".to_vec());
}

#[test]
fn greet_echoes_the_segment_verbatim() {
    let mut state = fresh_state();
    let r = run(&mut state, Method::Get, "/hello/Alice", b"");
    assert_eq!(r.status, 200);
    assert!(matches!(r.ctype, ContentType::Plain));
    assert_eq!(r.body, b"Hello, Alice".to_vec());
    let r2 = run(&mut state, Method::Get, "/hello/anything-goes_42", b"");
    assert_eq!(r2.body, b"Hello, anything-goes_42".to_vec());
}

#[test]
fn json_route_returns_declared_content_type() {
    let mut state = fresh_state();
    let r = run(&mut state, Method::Get, "/json", b"");
    assert_eq!(r.status, 200);
    assert!(matches!(r.ctype, ContentType::Json));
    assert_eq!(r.body, b"{\"message\":\"hello world\"}".to_vec());
}

#[test]
fn vec_route_returns_fixed_payload() {
    let mut state = fresh_state();
    let r = run(&mut state, Method::Get, "/vec", b"");
    assert_eq!(r.status, 200);
    assert!(matches!(r.ctype, ContentType::Json));
    assert_eq!(r.body, b"[1,5]".to_vec());
}

#[test]
fn get_requests_are_idempotent() {
    let mut state = fresh_state();
    let a = run(&mut state, Method::Get, "/vec", b"");
    let b = run(&mut state, Method::Get, "/vec", b"");
    let c = run(&mut state, Method::Get, "/vec", b"");
    assert_eq!(a.body, b.body);
    assert_eq!(b.body, c.body);
    assert_eq!(a.status, c.status);
}

#[test]
fn unknown_path_is_not_found() {
    let mut state = fresh_state();
    let r = run(&mut state, Method::Get, "/nonexistent", b"");
    assert_eq!(r.status, 404);
    assert!(r.body.is_empty());
}

#[test]
fn wrong_method_is_refused_as_method_not_allowed() {
    let mut state = fresh_state();
    let r = run(&mut state, Method::Delete, "/expenses", b"");
    assert_eq!(r.status, 405);
    let r2 = run(&mut state, Method::Get, "/data", b"");
    assert_eq!(r2.status, 405);
}

#[test]
fn path_without_leading_slash_is_not_found() {
    let mut state = fresh_state();
    let r = run(&mut state, Method::Get, "expenses", b"");
    assert_eq!(r.status, 404);
}

#[test]
fn data_route_echoes_debug_text() {
    let mut state = fresh_state();
    let r = run(&mut state, Method::Post, "/data", b"{\"foo\": 3, \"bar\": \"hi\"}");
    assert_eq!(r.status, 200);
    assert_eq!(r.body, b"Hello, MyData { foo: 3, bar: Some(\"hi\") }".to_vec());
    let r2 = run(&mut state, Method::Post, "/data", b"{\"foo\": 7}");
    assert_eq!(r2.body, b"Hello, MyData { foo: 7, bar: None }".to_vec());
}

#[test]
fn return_data_round_trips_the_body() {
    let mut state = fresh_state();
    let r = run(&mut state, Method::Post, "/return-data", b"{\"foo\": 3, \"bar\": \"hi\"}");
    assert_eq!(r.status, 200);
    assert!(matches!(r.ctype, ContentType::Json));
    assert_eq!(r.body, b"{\"foo\":3,\"bar\":\"hi\"}".to_vec());
}

#[test]
fn malformed_body_is_a_decode_failure_not_a_crash() {
    let mut state = fresh_state();
    let r = run(&mut state, Method::Post, "/return-data", b"{\"foo\": }");
    assert_eq!(r.status, 400);
    assert!(r.body.is_empty());
    let r2 = run(&mut state, Method::Post, "/return-data", b"not json at all");
    assert_eq!(r2.status, 400);
    let r3 = run(&mut state, Method::Post, "/return-data", b"{\"bar\": \"hi\"}");
    assert_eq!(r3.status, 400);
}

#[test]
fn invalid_utf8_in_a_string_value_is_a_decode_failure() {
    let mut state = fresh_state();
    let mut body = b"{\"foo\":1,\"bar\":\"".to_vec();
    body.push(0xff);
    body.extend_from_slice(b"\"}");
    let r = run(&mut state, Method::Post, "/return-data", &body);
    assert_eq!(r.status, 400);
    assert!(r.body.is_empty());
}

#[test]
fn request_body_echoes_config_and_bytes() {
    let mut state = fresh_state();
    let r = run(&mut state, Method::Post, "/request-body", b"hello there");
    assert_eq!(r.status, 200);
    assert_eq!(r.body, b"bar We received: \nhello there".to_vec());
}

#[test]
fn request_body_length_reports_the_count() {
    let mut state = fresh_state();
    let r = run(&mut state, Method::Post, "/request-body-length", b"12345");
    assert_eq!(r.status, 200);
    assert_eq!(r.body, b"We received 5 bytes".to_vec());
    let r2 = run(&mut state, Method::Post, "/request-body-length", b"");
    assert_eq!(r2.body, b"We received 0 bytes".to_vec());
}

#[test]
fn unreachable_store_is_a_server_error() {
    let mut state = ServerState { config_foo: b"bar".to_vec(), db: None };
    let r = run(&mut state, Method::Get, "/expenses", b"");
    assert_eq!(r.status, 500);
    let r2 = run(&mut state, Method::Post, "/request-body", b"x");
    assert_eq!(r2.status, 500);
}
