//! The dispatcher: matches the request against the route table, runs the
//! declared extractors in declaration order (the first failure
//! short-circuits without invoking the handler), invokes the handler
//! exactly once, and encodes its return value under the route's declared
//! content type. The whole pipeline is pinned to the spec function
//! [`dispatch_model`].
use vstd::prelude::*;
use crate::bytes::{lit, copy_bytes};
use crate::codec::{
    decode_mydata, decode_mydata_spec, enc_mydata, enc_mydata_vec, enc_message, enc_message_vec,
    enc_expense, enc_expense_list, enc_expense_list_vec, enc_num_list, enc_num_list_vec,
    push_expense, expenses_v,
};
use crate::handlers::{
    hello_world, greet, data, return_data, hello_world2, get_vec, request_body,
    request_body_length, get_expenses, post_expenses, debug_mydata, post_expenses_model,
};
use crate::json::enc_str;
use crate::routes::{
    Binding, BindingV, bindings_v, pat_v, PatSeg, PatSegV, Route, RouteV, routes_v, routes_spec,
    route_choice, any_path_match, seg_value, seg_value_exec, segs_of, segs_vv, split_segs_exec,
    match_route, MatchOutcome, HandlerId,
};
use crate::store::{ServerState, StateV, state_wf};
use crate::types::{
    ApiError, ContentType, Expense, ExpenseV, MyData, MyDataV, Request, RequestV, Response,
    ResponseV,
};

verus! {

/// One extracted handler parameter.
pub enum Extracted {
    Seg(Vec<u8>),
    Body(Vec<u8>),
    DataVal(MyData),
    Res(Vec<u8>),
}

/// Spec-level image of an [`Extracted`].
#[verifier::ext_equal]
pub enum ExtractedV {
    Seg(Seq<u8>),
    Body(Seq<u8>),
    DataVal(MyDataV),
    Res(Seq<u8>),
}

impl View for Extracted {
    type V = ExtractedV;

    open spec fn view(&self) -> ExtractedV {
        match self {
            Extracted::Seg(v) => ExtractedV::Seg(v@),
            Extracted::Body(v) => ExtractedV::Body(v@),
            Extracted::DataVal(d) => ExtractedV::DataVal(d@),
            Extracted::Res(v) => ExtractedV::Res(v@),
        }
    }
}

/// Spec-level image of an extracted parameter list.
pub open spec fn vals_v(vs: Seq<Extracted>) -> Seq<ExtractedV> {
    vs.map(|i: int, v: Extracted| v@)
}

/// What one extractor yields from the request context. No extractor
/// changes the context, so declaration order affects only which failure
/// is reported, never any outcome.
pub open spec fn extract_model(
    b: BindingV,
    pat: Seq<PatSegV>,
    segs: Seq<Seq<u8>>,
    body: Seq<u8>,
    st: StateV,
) -> Result<ExtractedV, ApiError> {
    match b {
        BindingV::Segment(name) => match seg_value(pat, segs, name, 0) {
            Some(v) => Ok(ExtractedV::Seg(v)),
            None => Err(ApiError::MissingSegment),
        },
        BindingV::RawBody => Ok(ExtractedV::Body(body)),
        BindingV::BodyMyData => match decode_mydata_spec(body) {
            Some(d) => Ok(ExtractedV::DataVal(d)),
            None => Err(ApiError::DecodeError),
        },
        BindingV::Resource => match st.db {
            Some(_) => Ok(ExtractedV::Res(st.config_foo)),
            None => Err(ApiError::ResourceUnavailable),
        },
    }
}

/// The extracted values of the bindings from index `i` on; the first
/// failure short-circuits.
pub open spec fn extract_from_model(
    bs: Seq<BindingV>,
    i: int,
    pat: Seq<PatSegV>,
    segs: Seq<Seq<u8>>,
    body: Seq<u8>,
    st: StateV,
) -> Result<Seq<ExtractedV>, ApiError>
    decreases bs.len() - i,
{
    if !(0 <= i && i < bs.len()) {
        Ok(Seq::empty())
    } else {
        match extract_model(bs[i], pat, segs, body, st) {
            Err(e) => Err(e),
            Ok(v) => match extract_from_model(bs, i + 1, pat, segs, body, st) {
                Err(e) => Err(e),
                Ok(rest) => Ok(seq![v] + rest),
            },
        }
    }
}

/// Runs one extractor.
pub fn extract_one(
    b: &Binding,
    pat: &Vec<PatSeg>,
    segs: &Vec<Vec<u8>>,
    body: &Vec<u8>,
    st: &ServerState,
) -> (r: Result<Extracted, ApiError>)
    ensures
        match (r, extract_model(b@, pat_v(pat@), segs_vv(segs@), body@, st@)) {
            (Ok(v), Ok(vv)) => v@ == vv,
            (Err(a), Err(e)) => a == e,
            _ => false,
        },
{
    match b {
        Binding::Segment(name) => match seg_value_exec(pat, segs, name) {
            Some(v) => Ok(Extracted::Seg(v)),
            None => Err(ApiError::MissingSegment),
        },
        Binding::RawBody => Ok(Extracted::Body(copy_bytes(body))),
        Binding::BodyMyData => match decode_mydata(body) {
            Ok(d) => Ok(Extracted::DataVal(d)),
            Err(e) => Err(e),
        },
        Binding::Resource => match &st.db {
            Some(_) => Ok(Extracted::Res(copy_bytes(&st.config_foo))),
            None => Err(ApiError::ResourceUnavailable),
        },
    }
}

/// Runs the extractors from index `i` on, in declaration order.
fn extract_from(
    bs: &Vec<Binding>,
    i: usize,
    pat: &Vec<PatSeg>,
    segs: &Vec<Vec<u8>>,
    body: &Vec<u8>,
    st: &ServerState,
) -> (r: Result<Vec<Extracted>, ApiError>)
    requires
        i <= bs.len(),
    ensures
        match (r, extract_from_model(
            bindings_v(bs@),
            i as int,
            pat_v(pat@),
            segs_vv(segs@),
            body@,
            st@,
        )) {
            (Ok(vs), Ok(vv)) => vals_v(vs@) == vv,
            (Err(a), Err(e)) => a == e,
            _ => false,
        },
    decreases bs.len() - i,
{
    if i >= bs.len() {
        let vs: Vec<Extracted> = Vec::new();
        proof {
            assert(vals_v(vs@) =~= Seq::<ExtractedV>::empty());
        }
        Ok(vs)
    } else {
        proof {
            assert(bindings_v(bs@)[i as int] == bs@[i as int]@);
        }
        match extract_one(&bs[i], pat, segs, body, st) {
            Err(e) => Err(e),
            Ok(v) => match extract_from(bs, i + 1, pat, segs, body, st) {
                Err(e) => Err(e),
                Ok(mut rest) => {
                    let ghost rest0 = rest@;
                    let ghost vv = v@;
                    rest.insert(0, v);
                    proof {
                        assert(vals_v(rest@) =~= seq![vv] + vals_v(rest0));
                    }
                    Ok(rest)
                },
            },
        }
    }
}

/// A handler's return value, before encoding.
pub enum Ret {
    Text(Vec<u8>),
    Data(MyData),
    Msg(Vec<u8>),
    Nums(Vec<usize>),
    Exps(Vec<Expense>),
    Exp(Expense),
}

/// Spec-level image of a [`Ret`].
#[verifier::ext_equal]
pub enum RetV {
    Text(Seq<u8>),
    Data(MyDataV),
    Msg(Seq<u8>),
    Nums(Seq<usize>),
    Exps(Seq<ExpenseV>),
    Exp(ExpenseV),
}

impl View for Ret {
    type V = RetV;

    open spec fn view(&self) -> RetV {
        match self {
            Ret::Text(t) => RetV::Text(t@),
            Ret::Data(d) => RetV::Data(d@),
            Ret::Msg(m) => RetV::Msg(m@),
            Ret::Nums(vs) => RetV::Nums(vs@),
            Ret::Exps(rows) => RetV::Exps(expenses_v(rows@)),
            Ret::Exp(e) => RetV::Exp(e@),
        }
    }
}

/// What a handler returns and what it leaves in the store, given its
/// extracted parameters. Only the expense write touches the store.
pub open spec fn run_handler(
    h: HandlerId,
    vals: Seq<ExtractedV>,
    db: Option<Seq<ExpenseV>>,
) -> (Option<Seq<ExpenseV>>, Result<RetV, ApiError>) {
    match h {
        HandlerId::HelloWorld => (db, Ok(RetV::Text(lit("Hello world")))),
        HandlerId::Greet => if vals.len() == 1 {
            match vals[0] {
                ExtractedV::Seg(n) => (db, Ok(RetV::Text(lit("Hello, ") + n))),
                _ => (db, Err(ApiError::MissingSegment)),
            }
        } else {
            (db, Err(ApiError::MissingSegment))
        },
        HandlerId::EchoData => if vals.len() == 1 {
            match vals[0] {
                ExtractedV::DataVal(d) => (db, Ok(RetV::Text(lit("Hello, ") + debug_mydata(d)))),
                _ => (db, Err(ApiError::DecodeError)),
            }
        } else {
            (db, Err(ApiError::DecodeError))
        },
        HandlerId::ReturnData => if vals.len() == 1 {
            match vals[0] {
                ExtractedV::DataVal(d) => (db, Ok(RetV::Data(d))),
                _ => (db, Err(ApiError::DecodeError)),
            }
        } else {
            (db, Err(ApiError::DecodeError))
        },
        HandlerId::JsonHello => (db, Ok(RetV::Msg(lit("hello world")))),
        HandlerId::GetVec => (db, Ok(RetV::Nums(seq![1usize, 5usize]))),
        HandlerId::RequestBody => if vals.len() == 2 {
            match (vals[0], vals[1]) {
                (ExtractedV::Body(b), ExtractedV::Res(bar)) => (
                    db,
                    Ok(RetV::Text(bar + lit(" We received: \n") + b)),
                ),
                _ => (db, Err(ApiError::DecodeError)),
            }
        } else {
            (db, Err(ApiError::DecodeError))
        },
        HandlerId::RequestBodyLength => if vals.len() == 1 {
            match vals[0] {
                ExtractedV::Body(b) => (
                    db,
                    Ok(
                        RetV::Text(
                            lit("We received ") + crate::bytes::dec_of(b.len()) + lit(" bytes"),
                        ),
                    ),
                ),
                _ => (db, Err(ApiError::DecodeError)),
            }
        } else {
            (db, Err(ApiError::DecodeError))
        },
        HandlerId::GetExpenses => if vals.len() == 1 && vals[0] is Res {
            match db {
                Some(rows) => (db, Ok(RetV::Exps(rows))),
                None => (db, Err(ApiError::ResourceUnavailable)),
            }
        } else {
            (db, Err(ApiError::DecodeError))
        },
        HandlerId::PostExpenses => if vals.len() == 2 {
            match (vals[0], vals[1]) {
                (ExtractedV::Res(_), ExtractedV::Body(b)) => match db {
                    Some(rows) => {
                        let pr = post_expenses_model(rows, b);
                        (
                            Some(pr.0),
                            match pr.1 {
                                Ok(e) => Ok(RetV::Exp(e)),
                                Err(er) => Err(er),
                            },
                        )
                    },
                    None => (db, Err(ApiError::ResourceUnavailable)),
                },
                _ => (db, Err(ApiError::DecodeError)),
            }
        } else {
            (db, Err(ApiError::DecodeError))
        },
    }
}

/// Invokes the matched route's handler exactly once.
fn run_handler_exec(h: HandlerId, vals: &Vec<Extracted>, state: &mut ServerState) -> (r: Result<
    Ret,
    ApiError,
>)
    ensures
        final(state)@.db == run_handler(h, vals_v(vals@), old(state)@.db).0,
        final(state)@.config_foo == old(state)@.config_foo,
        (match (r, run_handler(h, vals_v(vals@), old(state)@.db).1) {
            (Ok(a), Ok(bv)) => a@ == bv,
            (Err(a), Err(e)) => a == e,
            _ => false,
        }),
        state_wf(old(state)@) ==> state_wf(final(state)@),
{
    match h {
        HandlerId::HelloWorld => Ok(Ret::Text(hello_world())),
        HandlerId::Greet => {
            if vals.len() == 1 {
                proof {
                    assert(vals_v(vals@)[0] == vals@[0]@);
                }
                match &vals[0] {
                    Extracted::Seg(n) => Ok(Ret::Text(greet(n))),
                    _ => Err(ApiError::MissingSegment),
                }
            } else {
                Err(ApiError::MissingSegment)
            }
        },
        HandlerId::EchoData => {
            if vals.len() == 1 {
                proof {
                    assert(vals_v(vals@)[0] == vals@[0]@);
                }
                match &vals[0] {
                    Extracted::DataVal(d) => Ok(Ret::Text(data(d))),
                    _ => Err(ApiError::DecodeError),
                }
            } else {
                Err(ApiError::DecodeError)
            }
        },
        HandlerId::ReturnData => {
            if vals.len() == 1 {
                proof {
                    assert(vals_v(vals@)[0] == vals@[0]@);
                }
                match &vals[0] {
                    Extracted::DataVal(d) => {
                        let copied = MyData {
                            foo: d.foo,
                            bar: match &d.bar {
                                Some(b) => Some(copy_bytes(b)),
                                None => None,
                            },
                        };
                        proof {
                            assert(copied@ =~= d@);
                        }
                        Ok(Ret::Data(return_data(copied)))
                    },
                    _ => Err(ApiError::DecodeError),
                }
            } else {
                Err(ApiError::DecodeError)
            }
        },
        HandlerId::JsonHello => {
            let hr = hello_world2();
            Ok(Ret::Msg(hr.message))
        },
        HandlerId::GetVec => Ok(Ret::Nums(get_vec())),
        HandlerId::RequestBody => {
            if vals.len() == 2 {
                proof {
                    assert(vals_v(vals@)[0] == vals@[0]@);
                    assert(vals_v(vals@)[1] == vals@[1]@);
                }
                let first = &vals[0];
                let second = &vals[1];
                match (first, second) {
                    (Extracted::Body(b), Extracted::Res(bar)) => Ok(Ret::Text(request_body(b, bar))),
                    _ => Err(ApiError::DecodeError),
                }
            } else {
                Err(ApiError::DecodeError)
            }
        },
        HandlerId::RequestBodyLength => {
            if vals.len() == 1 {
                proof {
                    assert(vals_v(vals@)[0] == vals@[0]@);
                }
                match &vals[0] {
                    Extracted::Body(b) => Ok(Ret::Text(request_body_length(b))),
                    _ => Err(ApiError::DecodeError),
                }
            } else {
                Err(ApiError::DecodeError)
            }
        },
        HandlerId::GetExpenses => {
            if vals.len() == 1 {
                proof {
                    assert(vals_v(vals@)[0] == vals@[0]@);
                }
                let is_res = match &vals[0] {
                    Extracted::Res(_) => true,
                    _ => false,
                };
                if is_res {
                    match &state.db {
                        Some(store) => match get_expenses(store) {
                            Ok(rows) => Ok(Ret::Exps(rows)),
                            Err(e) => Err(e),
                        },
                        None => Err(ApiError::ResourceUnavailable),
                    }
                } else {
                    Err(ApiError::DecodeError)
                }
            } else {
                Err(ApiError::DecodeError)
            }
        },
        HandlerId::PostExpenses => {
            if vals.len() == 2 {
                proof {
                    assert(vals_v(vals@)[0] == vals@[0]@);
                    assert(vals_v(vals@)[1] == vals@[1]@);
                }
                let shape_ok = match &vals[0] {
                    Extracted::Res(_) => true,
                    _ => false,
                };
                match &vals[1] {
                    Extracted::Body(b) => {
                        if shape_ok {
                            match &mut state.db {
                                Some(store) => match post_expenses(store, b) {
                                    Ok(e) => Ok(Ret::Exp(e)),
                                    Err(e) => Err(e),
                                },
                                None => Err(ApiError::ResourceUnavailable),
                            }
                        } else {
                            Err(ApiError::DecodeError)
                        }
                    },
                    _ => Err(ApiError::DecodeError),
                }
            } else {
                Err(ApiError::DecodeError)
            }
        },
    }
}

/// The bytes a return value is sent as, under the route's declared
/// content type: plain text passes through, everything else is JSON.
pub open spec fn encode_ret(v: RetV, ct: ContentType) -> Seq<u8> {
    match v {
        RetV::Text(t) => if ct is Json {
            enc_str(t)
        } else {
            t
        },
        RetV::Data(d) => enc_mydata(d),
        RetV::Msg(m) => enc_message(m),
        RetV::Nums(vs) => enc_num_list(vs),
        RetV::Exps(es) => enc_expense_list(es),
        RetV::Exp(e) => enc_expense(e),
    }
}

/// Runs [`encode_ret`].
fn encode_ret_exec(v: &Ret, ct: ContentType) -> (r: Vec<u8>)
    ensures
        r@ == encode_ret(v@, ct),
{
    match v {
        Ret::Text(t) => {
            if ct == ContentType::Json {
                let mut out: Vec<u8> = Vec::new();
                crate::json::push_json_str(&mut out, t);
                proof {
                    assert(out@ =~= enc_str(t@));
                }
                out
            } else {
                copy_bytes(t)
            }
        },
        Ret::Data(d) => enc_mydata_vec(d),
        Ret::Msg(m) => enc_message_vec(m),
        Ret::Nums(vs) => enc_num_list_vec(vs),
        Ret::Exps(rows) => enc_expense_list_vec(rows),
        Ret::Exp(e) => {
            let mut out: Vec<u8> = Vec::new();
            push_expense(&mut out, e);
            proof {
                assert(out@ =~= enc_expense(e@));
            }
            out
        },
    }
}

/// The status a failure is reported under: extraction and decode
/// failures are client errors, storage and resource failures are server
/// errors.
pub open spec fn error_status(e: ApiError) -> int {
    match e {
        ApiError::RouteNotFound => 404,
        ApiError::MethodNotAllowed => 405,
        ApiError::MissingSegment => 400,
        ApiError::DecodeError => 400,
        ApiError::ResourceUnavailable => 500,
        ApiError::StorageError => 500,
    }
}

/// A failed request's response: the error status with an empty body.
pub open spec fn error_response(e: ApiError) -> ResponseV {
    ResponseV { status: error_status(e), ctype: ContentType::Plain, body: Seq::empty() }
}

/// Builds the response of a failed request.
fn error_response_exec(e: ApiError) -> (r: Response)
    ensures
        r@ == error_response(e),
{
    let status: u16 = match e {
        ApiError::RouteNotFound => 404,
        ApiError::MethodNotAllowed => 405,
        ApiError::MissingSegment => 400,
        ApiError::DecodeError => 400,
        ApiError::ResourceUnavailable => 500,
        ApiError::StorageError => 500,
    };
    let r = Response { status, ctype: ContentType::Plain, body: Vec::new() };
    proof {
        assert(r@ =~= error_response(e));
    }
    r
}

/// The whole pipeline as a function of the state and the request: the
/// matched route per the precedence rule, its extractors in declaration
/// order, the handler, the codec, and the exact error taxonomy (unknown
/// path 404, known path under a wrong method 405, bad input 400, missing
/// resource or failed store 500). Only a successful expense write changes
/// the state.
pub open spec fn dispatch_model(s: StateV, rq: RequestV) -> (StateV, ResponseV) {
    match segs_of(rq.path) {
        None => (s, error_response(ApiError::RouteNotFound)),
        Some(segs) => match route_choice(routes_spec(), rq.method, segs) {
            Some(i) => {
                let route = routes_spec()[i];
                match extract_from_model(route.bindings, 0, route.pattern, segs, rq.body, s) {
                    Err(e) => (s, error_response(e)),
                    Ok(vals) => {
                        let hr = run_handler(route.handler, vals, s.db);
                        let s2 = StateV { config_foo: s.config_foo, db: hr.0 };
                        match hr.1 {
                            Err(e) => (s2, error_response(e)),
                            Ok(v) => (
                                s2,
                                ResponseV {
                                    status: 200,
                                    ctype: route.ctype,
                                    body: encode_ret(v, route.ctype),
                                },
                            ),
                        }
                    },
                }
            },
            None => if any_path_match(routes_spec(), segs) {
                (s, error_response(ApiError::MethodNotAllowed))
            } else {
                (s, error_response(ApiError::RouteNotFound))
            },
        },
    }
}

/// Dispatches one request against the registered table, built once by
/// [`crate::routes::routes`]. The result and the state after the call are
/// exactly those of [`dispatch_model`].
pub fn dispatch(table: &Vec<Route>, state: &mut ServerState, req: &Request) -> (r: Response)
    requires
        routes_v(table@) == routes_spec(),
    ensures
        final(state)@ == dispatch_model(old(state)@, req@).0,
        r@ == dispatch_model(old(state)@, req@).1,
        state_wf(old(state)@) ==> state_wf(final(state)@),
{
    if req.path.len() == 0 {
        return error_response_exec(ApiError::RouteNotFound);
    }
    let first = req.path[0];
    if first != 47 {
        return error_response_exec(ApiError::RouteNotFound);
    }
    let segs: Vec<Vec<u8>> = if req.path.len() == 1 {
        let empty_segs: Vec<Vec<u8>> = Vec::new();
        proof {
            assert(segs_vv(empty_segs@) =~= Seq::<Seq<u8>>::empty());
        }
        empty_segs
    } else {
        split_segs_exec(&req.path, 1)
    };
    match match_route(table, req.method, &segs) {
        MatchOutcome::NoRoute => error_response_exec(ApiError::RouteNotFound),
        MatchOutcome::WrongMethod => error_response_exec(ApiError::MethodNotAllowed),
        MatchOutcome::Matched(ix) => {
            proof {
                assert(routes_v(table@)[ix as int] == table@[ix as int]@);
            }
            let route = &table[ix];
            match extract_from(&route.bindings, 0, &route.pattern, &segs, &req.body, state) {
                Err(e) => error_response_exec(e),
                Ok(vals) => match run_handler_exec(route.handler, &vals, state) {
                    Err(e) => {
                        let r = error_response_exec(e);
                        proof {
                            assert(final(state)@ =~= dispatch_model(old(state)@, req@).0);
                        }
                        r
                    },
                    Ok(v) => {
                        let body = encode_ret_exec(&v, route.ctype);
                        let r = Response { status: 200, ctype: route.ctype, body };
                        proof {
                            assert(final(state)@ =~= dispatch_model(old(state)@, req@).0);
                            assert(r@ =~= dispatch_model(old(state)@, req@).1);
                        }
                        r
                    },
                },
            }
        },
    }
}

} // verus!
