//! The handlers bound to the registered routes. Each one is a pure
//! function of its extracted parameters (and, for the expense routes, of
//! the store), with an exact contract.
use vstd::prelude::*;
use crate::bytes::{lit, lit_vec, push_all, push_lit, dec_of};
use crate::codec::{decode_new_expense, decode_new_expense_spec, expenses_v};
use crate::json::{enc_str, push_json_str, push_usize};
use crate::store::{create_model, store_wf, Store};
use crate::types::{ApiError, Expense, ExpenseV, HelloResponse, MyData, MyDataV};

verus! {

/// The static greeting of the root route.
pub fn hello_world() -> (r: Vec<u8>)
    ensures
        r@ == lit("Hello world"),
{
    lit_vec("Hello world")
}

/// Echoes the bound path segment after the greeting, verbatim.
pub fn greet(name: &Vec<u8>) -> (r: Vec<u8>)
    ensures
        r@ == lit("Hello, ") + name@,
{
    let mut out = lit_vec("Hello, ");
    push_all(&mut out, name);
    out
}

/// The debug-style rendering of a [`MyData`], as the data echo writes it.
pub open spec fn debug_mydata(d: MyDataV) -> Seq<u8> {
    lit("MyData { foo: ") + dec_of(d.foo as nat) + lit(", bar: ") + (match d.bar {
        None => lit("None"),
        Some(b) => lit("Some(") + enc_str(b) + lit(")"),
    }) + lit(" }")
}

/// Echoes the decoded body in debug style.
pub fn data(body: &MyData) -> (r: Vec<u8>)
    ensures
        r@ == lit("Hello, ") + debug_mydata(body@),
{
    let mut out = lit_vec("Hello, ");
    push_lit(&mut out, "MyData { foo: ");
    push_usize(&mut out, body.foo);
    push_lit(&mut out, ", bar: ");
    match &body.bar {
        None => push_lit(&mut out, "None"),
        Some(b) => {
            push_lit(&mut out, "Some(");
            push_json_str(&mut out, b);
            push_lit(&mut out, ")");
        },
    }
    push_lit(&mut out, " }");
    proof {
        assert(out@ =~= lit("Hello, ") + debug_mydata(body@));
    }
    out
}

/// Round-trips the decoded body unchanged.
pub fn return_data(body: MyData) -> (r: MyData)
    ensures
        r@ == body@,
{
    body
}

/// The fixed JSON greeting payload.
pub fn hello_world2() -> (r: HelloResponse)
    ensures
        r.message@ == lit("hello world"),
{
    HelloResponse { message: lit_vec("hello world") }
}

/// The fixed number array payload.
pub fn get_vec() -> (r: Vec<usize>)
    ensures
        r@ == seq![1usize, 5usize],
{
    let mut v: Vec<usize> = Vec::new();
    v.push(1);
    v.push(5);
    proof {
        assert(v@ =~= seq![1usize, 5usize]);
    }
    v
}

/// Echoes the injected configuration value and the raw body.
pub fn request_body(body: &Vec<u8>, bar: &Vec<u8>) -> (r: Vec<u8>)
    ensures
        r@ == bar@ + lit(" We received: \n") + body@,
{
    let mut out = crate::bytes::copy_bytes(bar);
    push_lit(&mut out, " We received: \n");
    push_all(&mut out, body);
    out
}

/// Reports the raw body's length.
pub fn request_body_length(body: &Vec<u8>) -> (r: Vec<u8>)
    ensures
        r@ == lit("We received ") + dec_of(body@.len()) + lit(" bytes"),
{
    let mut out = lit_vec("We received ");
    push_usize(&mut out, body.len());
    push_lit(&mut out, " bytes");
    out
}

/// The full expense listing, in insertion order.
pub fn get_expenses(store: &Store) -> (r: Result<Vec<Expense>, ApiError>)
    ensures
        match r {
            Ok(v) => expenses_v(v@) == store@,
            Err(_) => false,
        },
{
    store.list()
}

/// What the expense write does to the store: a malformed body changes
/// nothing and fails the decode; a well-formed one is inserted under the
/// store-assigned id.
pub open spec fn post_expenses_model(rows: Seq<ExpenseV>, body: Seq<u8>) -> (Seq<ExpenseV>, Result<
    ExpenseV,
    ApiError,
>) {
    match decode_new_expense_spec(body) {
        None => (rows, Err(ApiError::DecodeError)),
        Some(n) => create_model(rows, n),
    }
}

/// Decodes the body as a [`crate::types::NewExpense`], inserts it, and
/// returns the stored record with its fresh id.
pub fn post_expenses(store: &mut Store, body: &Vec<u8>) -> (r: Result<Expense, ApiError>)
    ensures
        final(store)@ == post_expenses_model(old(store)@, body@).0,
        (match (r, post_expenses_model(old(store)@, body@).1) {
            (Ok(e), Ok(ev)) => e@ == ev,
            (Err(a), Err(b)) => a == b,
            _ => false,
        }),
        store_wf(old(store)@) ==> store_wf(final(store)@),
{
    match decode_new_expense(body) {
        Err(e) => Err(e),
        Ok(n) => store.create(&n),
    }
}

} // verus!
