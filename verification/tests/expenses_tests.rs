use expense_server::dispatch::dispatch;
use expense_server::routes::routes;
use expense_server::store::{ServerState, Store};
use expense_server::types::{Method, ContentType, Expense, NewExpense, Request, Response};

fn fresh_state() -> ServerState {
    ServerState { config_foo: b"bar".to_vec(), db: Some(Store::new()) }
}

fn run(state: &mut ServerState, method: Method, path: &str, body: &[u8]) -> Response {
    let table = routes();
    let req = Request { method, path: path.as_bytes().to_vec(), headers: Vec::new(), body: body.to_vec() };
    dispatch(&table, state, &req)
}

#[test]
fn create_assigns_one_plus_previous_maximum() {
    let mut state = fresh_state();
    let r = run(&mut state, Method::Post, "/expenses", b"{\"name\":\"Coffee\",\"amount\":3.5}");
    assert_eq!(r.status, 200);
    assert!(matches!(r.ctype, ContentType::Json));
    assert_eq!(r.body, b"{\"id\":1,\"name\":\"Coffee\",\"amount\":3.5}".to_vec());
    let r2 = run(&mut state, Method::Post, "/expenses", b"{\"name\":\"Tea\",\"amount\":2.25}");
    assert_eq!(r2.body, b"{\"id\":2,\"name\":\"Tea\",\"amount\":2.25}".to_vec());
}

#[test]
fn create_response_parses_as_json_with_exact_fields() {
    let mut state = fresh_state();
    let r = run(&mut state, Method::Post, "/expenses", b"{\"name\":\"Coffee\",\"amount\":3.5}");
    let v: serde_json::Value = serde_json::from_slice(&r.body).expect("the response is JSON");
    assert_eq!(v["id"], serde_json::Value::from(1));
    assert_eq!(v["name"], serde_json::Value::from("Coffee"));
    assert_eq!(v["amount"].as_f64(), Some(3.5));
}

#[test]
fn listing_after_two_creates_keeps_creation_order() {
    let mut state = fresh_state();
    run(&mut state, Method::Post, "/expenses", b"{\"name\":\"Coffee\",\"amount\":3.5}");
    run(&mut state, Method::Post, "/expenses", b"{\"name\":\"Tea\",\"amount\":2.25}");
    let r = run(&mut state, Method::Get, "/expenses", b"");
    assert_eq!(r.status, 200);
    assert_eq!(
        r.body,
        b"[{\"id\":1,\"name\":\"Coffee\",\"amount\":3.5},{\"id\":2,\"name\":\"Tea\",\"amount\":2.25}]"
            .to_vec()
    );
    let v: serde_json::Value = serde_json::from_slice(&r.body).expect("the listing is JSON");
    assert_eq!(v.as_array().map(|a| a.len()), Some(2));
}

#[test]
fn empty_table_lists_as_empty_array() {
    let mut state = fresh_state();
    let r = run(&mut state, Method::Get, "/expenses", b"");
    assert_eq!(r.status, 200);
    assert_eq!(r.body, b"[]".to_vec());
}

#[test]
fn exponent_amounts_round_trip_verbatim() {
    let mut state = fresh_state();
    let r = run(&mut state, Method::Post, "/expenses", b"{\"name\":\"Bulk\",\"amount\":1.5e3}");
    assert_eq!(r.status, 200);
    assert_eq!(r.body, b"{\"id\":1,\"name\":\"Bulk\",\"amount\":1.5e3}".to_vec());
    let v: serde_json::Value = serde_json::from_slice(&r.body).expect("the response is JSON");
    assert_eq!(v["amount"].as_f64(), Some(1500.0));
}

#[test]
fn malformed_expense_body_changes_nothing() {
    let mut state = fresh_state();
    let r = run(&mut state, Method::Post, "/expenses", b"{\"name\":\"Coffee\"}");
    assert_eq!(r.status, 400);
    let listing = run(&mut state, Method::Get, "/expenses", b"");
    assert_eq!(listing.body, b"[]".to_vec());
}

#[test]
fn exhausted_id_space_is_a_storage_error() {
    let last = Expense { id: i32::MAX, name: b"Sentinel".to_vec(), amount: b"1".to_vec() };
    let mut state = ServerState {
        config_foo: b"bar".to_vec(),
        db: Some(Store { rows: vec![last] }),
    };
    let r = run(&mut state, Method::Post, "/expenses", b"{\"name\":\"One more\",\"amount\":1}");
    assert_eq!(r.status, 500);
    let listing = run(&mut state, Method::Get, "/expenses", b"");
    let v: serde_json::Value = serde_json::from_slice(&listing.body).expect("the listing is JSON");
    assert_eq!(v.as_array().map(|a| a.len()), Some(1));
}

#[test]
fn repository_create_and_list_agree() {
    let mut store = Store::new();
    let created = store
        .create(&NewExpense { name: b"Coffee".to_vec(), amount: b"3.5".to_vec() })
        .expect("the empty store takes an insert");
    assert_eq!(created.id, 1);
    assert_eq!(created.name, b"Coffee".to_vec());
    assert_eq!(created.amount, b"3.5".to_vec());
    let rows = store.list().expect("a full scan never fails");
    assert_eq!(rows.len(), 1);
    assert_eq!(rows[0].id, 1);
    assert_eq!(rows[0].name, b"Coffee".to_vec());
}
