//! The codec layer: strict typed decoding of request bodies and structural
//! JSON encoding of handler return values. Decoding ignores unknown scalar
//! members and fails with `DecodeError` on anything malformed or missing;
//! it never yields a partial or defaulted value.
use vstd::prelude::*;
use crate::bytes::{lit, dec_of, push_lit, copy_bytes};
use crate::json::{
    ScalarV, Scalar, find_field, find_field_exec, parse_top, parse_top_exec, members_v,
    is_int_token, digits_val, digits_to_usize, is_digit, enc_str, enc_int, push_json_str,
    push_i32, push_usize,
};
use crate::types::{MyData, MyDataV, NewExpense, NewExpenseV, Expense, ExpenseV, ApiError};

verus! {

/// The typed reading of a decoded object as a [`MyData`]: `foo` must be a
/// plain integer that fits the machine word, `bar` may be a string, `null`
/// or absent; other shapes fail.
pub open spec fn mydata_of(ms: Seq<(Seq<u8>, ScalarV)>) -> Option<MyDataV> {
    match find_field(ms, lit("foo")) {
        Some(ScalarV::Num(t)) => if is_int_token(t) && digits_val(t) <= usize::MAX {
            match find_field(ms, lit("bar")) {
                None => Some(MyDataV { foo: digits_val(t) as int, bar: None }),
                Some(ScalarV::Str(b)) => Some(MyDataV { foo: digits_val(t) as int, bar: Some(b) }),
                Some(ScalarV::Null) => Some(MyDataV { foo: digits_val(t) as int, bar: None }),
                Some(_) => None,
            }
        } else {
            None
        },
        _ => None,
    }
}

/// What decoding a [`MyData`] body yields: `None` exactly on malformed input.
pub open spec fn decode_mydata_spec(s: Seq<u8>) -> Option<MyDataV> {
    match parse_top(s) {
        Some(ms) => mydata_of(ms),
        None => None,
    }
}

/// The typed reading of a decoded object as a [`NewExpense`]: `name` must
/// be a string and `amount` a number; other shapes fail.
pub open spec fn new_expense_of(ms: Seq<(Seq<u8>, ScalarV)>) -> Option<NewExpenseV> {
    match (find_field(ms, lit("name")), find_field(ms, lit("amount"))) {
        (Some(ScalarV::Str(n)), Some(ScalarV::Num(a))) => Some(NewExpenseV { name: n, amount: a }),
        _ => None,
    }
}

/// What decoding a [`NewExpense`] body yields: `None` exactly on malformed input.
pub open spec fn decode_new_expense_spec(s: Seq<u8>) -> Option<NewExpenseV> {
    match parse_top(s) {
        Some(ms) => new_expense_of(ms),
        None => None,
    }
}

/// Checks that every byte of `t` is a decimal digit and `t` is non-empty.
pub fn is_int_token_exec(t: &Vec<u8>) -> (r: bool)
    ensures
        r == is_int_token(t@),
{
    if t.len() == 0 {
        return false;
    }
    let mut i: usize = 0;
    while i < t.len()
        invariant
            i <= t.len(),
            t.len() > 0,
            forall|j: int| 0 <= j < i ==> is_digit(#[trigger] t@[j]),
        decreases t.len() - i,
    {
        if t[i] < 48 || t[i] > 57 {
            return false;
        }
        i += 1;
    }
    true
}

/// Decodes a [`MyData`] from a JSON body.
pub fn decode_mydata(body: &Vec<u8>) -> (r: Result<MyData, ApiError>)
    ensures
        match r {
            Ok(d) => decode_mydata_spec(body@) == Some(d@),
            Err(e) => decode_mydata_spec(body@) is None && e == ApiError::DecodeError,
        },
{
    let ms = match parse_top_exec(body) {
        Some(ms) => ms,
        None => {
            return Err(ApiError::DecodeError);
        },
    };
    let foo_key = crate::bytes::lit_vec("foo");
    let foo: usize = match find_field_exec(&ms, &foo_key) {
        Some(ix) => match &ms[ix].1 {
            Scalar::SNum(t) => {
                if !is_int_token_exec(t) {
                    return Err(ApiError::DecodeError);
                }
                match digits_to_usize(t) {
                    Some(v) => v,
                    None => {
                        return Err(ApiError::DecodeError);
                    },
                }
            },
            _ => {
                return Err(ApiError::DecodeError);
            },
        },
        None => {
            return Err(ApiError::DecodeError);
        },
    };
    let bar_key = crate::bytes::lit_vec("bar");
    let bar: Option<Vec<u8>> = match find_field_exec(&ms, &bar_key) {
        None => None,
        Some(ix) => match &ms[ix].1 {
            Scalar::SStr(b) => Some(copy_bytes(b)),
            Scalar::SNull => None,
            _ => {
                return Err(ApiError::DecodeError);
            },
        },
    };
    let d = MyData { foo, bar };
    proof {
        assert(decode_mydata_spec(body@) == Some(d@));
    }
    Ok(d)
}

/// Decodes a [`NewExpense`] from a JSON body.
pub fn decode_new_expense(body: &Vec<u8>) -> (r: Result<NewExpense, ApiError>)
    ensures
        match r {
            Ok(n) => decode_new_expense_spec(body@) == Some(n@),
            Err(e) => decode_new_expense_spec(body@) is None && e == ApiError::DecodeError,
        },
{
    let ms = match parse_top_exec(body) {
        Some(ms) => ms,
        None => {
            return Err(ApiError::DecodeError);
        },
    };
    let name_key = crate::bytes::lit_vec("name");
    let name: Vec<u8> = match find_field_exec(&ms, &name_key) {
        Some(ix) => match &ms[ix].1 {
            Scalar::SStr(n) => copy_bytes(n),
            _ => {
                return Err(ApiError::DecodeError);
            },
        },
        None => {
            return Err(ApiError::DecodeError);
        },
    };
    let amount_key = crate::bytes::lit_vec("amount");
    let amount: Vec<u8> = match find_field_exec(&ms, &amount_key) {
        Some(ix) => match &ms[ix].1 {
            Scalar::SNum(a) => copy_bytes(a),
            _ => {
                return Err(ApiError::DecodeError);
            },
        },
        None => {
            return Err(ApiError::DecodeError);
        },
    };
    let n = NewExpense { name, amount };
    proof {
        assert(decode_new_expense_spec(body@) == Some(n@));
    }
    Ok(n)
}

/// The JSON encoding of a [`MyData`].
pub open spec fn enc_mydata(d: MyDataV) -> Seq<u8> {
    lit("{\"foo\":") + dec_of(d.foo as nat) + lit(",\"bar\":") + (match d.bar {
        None => lit("null"),
        Some(b) => enc_str(b),
    }) + lit("}")
}

/// Encodes a [`MyData`] as JSON.
pub fn enc_mydata_vec(d: &MyData) -> (r: Vec<u8>)
    ensures
        r@ == enc_mydata(d@),
{
    let mut out: Vec<u8> = Vec::new();
    push_lit(&mut out, "{\"foo\":");
    push_usize(&mut out, d.foo);
    push_lit(&mut out, ",\"bar\":");
    match &d.bar {
        None => push_lit(&mut out, "null"),
        Some(b) => push_json_str(&mut out, b),
    }
    push_lit(&mut out, "}");
    proof {
        assert(out@ =~= enc_mydata(d@));
    }
    out
}

/// The JSON encoding of an [`Expense`]: the amount token is written back
/// exactly as it was decoded, so its precision is untouched.
pub open spec fn enc_expense(e: ExpenseV) -> Seq<u8> {
    lit("{\"id\":") + enc_int(e.id) + lit(",\"name\":") + enc_str(e.name) + lit(",\"amount\":")
        + e.amount + lit("}")
}

/// Encodes an [`Expense`] as JSON.
pub fn push_expense(out: &mut Vec<u8>, e: &Expense)
    ensures
        final(out)@ == old(out)@ + enc_expense(e@),
{
    let ghost base = out@;
    push_lit(out, "{\"id\":");
    push_i32(out, e.id);
    push_lit(out, ",\"name\":");
    push_json_str(out, &e.name);
    push_lit(out, ",\"amount\":");
    crate::bytes::push_all(out, &e.amount);
    push_lit(out, "}");
    proof {
        assert(out@ =~= base + enc_expense(e@));
    }
}

/// Spec-level image of a sequence of expenses.
pub open spec fn expenses_v(rows: Seq<Expense>) -> Seq<ExpenseV> {
    rows.map(|i: int, e: Expense| e@)
}

/// The comma-joined encodings of the expenses from index `i` on.
pub open spec fn enc_expense_items(es: Seq<ExpenseV>, i: int) -> Seq<u8>
    decreases es.len() - i,
{
    if !(0 <= i && i < es.len()) {
        Seq::empty()
    } else if i == es.len() - 1 {
        enc_expense(es[i])
    } else {
        enc_expense(es[i]) + lit(",") + enc_expense_items(es, i + 1)
    }
}

/// The JSON array encoding of a sequence of expenses.
pub open spec fn enc_expense_list(es: Seq<ExpenseV>) -> Seq<u8> {
    lit("[") + enc_expense_items(es, 0) + lit("]")
}

/// Appends the comma-joined encodings of the expenses from index `i` on.
pub fn push_expense_items(out: &mut Vec<u8>, rows: &Vec<Expense>, i: usize)
    requires
        i <= rows.len(),
    ensures
        final(out)@ == old(out)@ + enc_expense_items(expenses_v(rows@), i as int),
    decreases rows.len() - i,
{
    if i < rows.len() {
        let ghost base = out@;
        push_expense(out, &rows[i]);
        if i + 1 < rows.len() {
            push_lit(out, ",");
            push_expense_items(out, rows, i + 1);
            proof {
                assert(out@ =~= base + enc_expense_items(expenses_v(rows@), i as int));
            }
        } else {
            proof {
                assert(out@ =~= base + enc_expense_items(expenses_v(rows@), i as int));
            }
        }
    } else {
        proof {
            assert(old(out)@ + enc_expense_items(expenses_v(rows@), i as int) =~= old(out)@);
        }
    }
}

/// Encodes a sequence of expenses as a JSON array.
pub fn enc_expense_list_vec(rows: &Vec<Expense>) -> (r: Vec<u8>)
    ensures
        r@ == enc_expense_list(expenses_v(rows@)),
{
    let mut out: Vec<u8> = Vec::new();
    push_lit(&mut out, "[");
    push_expense_items(&mut out, rows, 0);
    push_lit(&mut out, "]");
    proof {
        assert(out@ =~= enc_expense_list(expenses_v(rows@)));
    }
    out
}

/// The comma-joined decimal forms of the numbers from index `i` on.
pub open spec fn enc_num_items(vs: Seq<usize>, i: int) -> Seq<u8>
    decreases vs.len() - i,
{
    if !(0 <= i && i < vs.len()) {
        Seq::empty()
    } else if i == vs.len() - 1 {
        dec_of(vs[i] as nat)
    } else {
        dec_of(vs[i] as nat) + lit(",") + enc_num_items(vs, i + 1)
    }
}

/// The JSON array encoding of a sequence of numbers.
pub open spec fn enc_num_list(vs: Seq<usize>) -> Seq<u8> {
    lit("[") + enc_num_items(vs, 0) + lit("]")
}

/// Encodes a sequence of numbers as a JSON array.
pub fn enc_num_list_vec(vs: &Vec<usize>) -> (r: Vec<u8>)
    ensures
        r@ == enc_num_list(vs@),
{
    let mut out: Vec<u8> = Vec::new();
    push_lit(&mut out, "[");
    push_num_items(&mut out, vs, 0);
    push_lit(&mut out, "]");
    proof {
        assert(out@ =~= enc_num_list(vs@));
    }
    out
}

/// Appends the comma-joined decimal forms of the numbers from index `i` on.
pub fn push_num_items(out: &mut Vec<u8>, vs: &Vec<usize>, i: usize)
    requires
        i <= vs.len(),
    ensures
        final(out)@ == old(out)@ + enc_num_items(vs@, i as int),
    decreases vs.len() - i,
{
    if i < vs.len() {
        let ghost base = out@;
        push_usize(out, vs[i]);
        if i + 1 < vs.len() {
            push_lit(out, ",");
            push_num_items(out, vs, i + 1);
            proof {
                assert(out@ =~= base + enc_num_items(vs@, i as int));
            }
        } else {
            proof {
                assert(out@ =~= base + enc_num_items(vs@, i as int));
            }
        }
    } else {
        proof {
            assert(old(out)@ + enc_num_items(vs@, i as int) =~= old(out)@);
        }
    }
}

/// The JSON encoding of the fixed greeting payload.
pub open spec fn enc_message(m: Seq<u8>) -> Seq<u8> {
    lit("{\"message\":") + enc_str(m) + lit("}")
}

/// Encodes the fixed greeting payload as JSON.
pub fn enc_message_vec(m: &Vec<u8>) -> (r: Vec<u8>)
    ensures
        r@ == enc_message(m@),
{
    let mut out: Vec<u8> = Vec::new();
    push_lit(&mut out, "{\"message\":");
    push_json_str(&mut out, m);
    push_lit(&mut out, "}");
    proof {
        assert(out@ =~= enc_message(m@));
    }
    out
}

} // verus!
