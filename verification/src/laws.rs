//! The laws the pipeline obeys, each proved from the public contracts:
//! a successful response carries the matched route's declared content
//! type; the greeting echoes its segment verbatim; two inserts list back
//! in creation order; reads never change the state, so repeating a read
//! repeats its response; and the router's error taxonomy is exact.
use vstd::prelude::*;
use vstd::string::{is_ascii, is_ascii_spec_bytes};
use crate::bytes::lit;
use crate::codec::decode_mydata_spec;
use crate::dispatch::{
    dispatch_model, error_response, extract_from_model, run_handler, ExtractedV, RetV,
};
use crate::routes::{
    all_literal, any_path_match, first_match, pat_matches, route_choice, routes_spec, BindingV,
    PatSegV, RouteV, seg_value, segs_of, split_segs,
};
use crate::store::{create_model, next_id, StateV};
use crate::types::{ApiError, ContentType, ExpenseV, Method, NewExpenseV, RequestV, ResponseV};
use crate::routes::HandlerId;

verus! {

/// A found match satisfies the matcher's predicate; a missed one rules
/// every candidate out.
pub proof fn lemma_first_match_facts(
    rs: Seq<RouteV>,
    m: Method,
    segs: Seq<Seq<u8>>,
    i: int,
    lit_only: bool,
)
    requires
        0 <= i,
    ensures
        match first_match(rs, m, segs, i, lit_only) {
            Some(ix) => i <= ix < rs.len() && rs[ix].method == m && pat_matches(
                rs[ix].pattern,
                segs,
            ),
            None => forall|j: int|
                i <= j < rs.len() ==> !((#[trigger] rs[j]).method == m && pat_matches(
                    rs[j].pattern,
                    segs,
                ) && (!lit_only || all_literal(rs[j].pattern))),
        },
    decreases rs.len() - i,
{
    if i < rs.len() {
        lemma_first_match_facts(rs, m, segs, i + 1, lit_only);
    }
}

/// Every failure surfaces as a non-success status with an empty body:
/// routing, extraction and decode failures as client errors, resource and
/// storage failures as server errors.
pub proof fn lemma_error_taxonomy(e: ApiError)
    ensures
        error_response(e).status != 200,
        error_response(e).body.len() == 0,
        (e == ApiError::RouteNotFound || e == ApiError::MethodNotAllowed || e
            == ApiError::MissingSegment || e == ApiError::DecodeError) ==> 400 <= error_response(
            e,
        ).status < 500,
        (e == ApiError::ResourceUnavailable || e == ApiError::StorageError) ==> 500
            <= error_response(e).status < 600,
{
}

/// Whenever the dispatcher answers success, the response's content type
/// is the matched route's declared one.
pub proof fn lemma_success_content_type(s: StateV, rq: RequestV)
    ensures
        ({
            let resp = dispatch_model(s, rq).1;
            resp.status == 200 ==> exists|i: int|
                0 <= i < routes_spec().len() && (#[trigger] routes_spec()[i]).method == rq.method
                    && (match segs_of(rq.path) {
                    Some(segs) => pat_matches(routes_spec()[i].pattern, segs),
                    None => false,
                }) && resp.ctype == routes_spec()[i].ctype
        }),
{
    let resp = dispatch_model(s, rq).1;
    if resp.status == 200 {
        match segs_of(rq.path) {
            None => {
                assert(resp == error_response(ApiError::RouteNotFound));
            },
            Some(segs) => {
                lemma_first_match_facts(routes_spec(), rq.method, segs, 0, true);
                lemma_first_match_facts(routes_spec(), rq.method, segs, 0, false);
                match route_choice(routes_spec(), rq.method, segs) {
                    Some(i) => {
                        assert(0 <= i < routes_spec().len() && routes_spec()[i].method == rq.method
                            && pat_matches(routes_spec()[i].pattern, segs) && resp.ctype
                            == routes_spec()[i].ctype);
                    },
                    None => {},
                }
            },
        }
    }
}

/// After two successful inserts the store holds both new records,
/// appended in creation order, and its length has grown by two; the ids
/// are consecutive.
pub proof fn lemma_list_after_two_creates(rows: Seq<ExpenseV>, n1: NewExpenseV, n2: NewExpenseV)
    requires
        next_id(rows) + 1 <= i32::MAX,
    ensures
        ({
            let (rows1, r1) = create_model(rows, n1);
            let (rows2, r2) = create_model(rows1, n2);
            &&& r1 is Ok
            &&& r2 is Ok
            &&& rows2.len() == rows.len() + 2
            &&& rows2 == rows.push(r1->Ok_0).push(r2->Ok_0)
            &&& r2->Ok_0.id == r1->Ok_0.id + 1
        }),
{
    let (rows1, r1) = create_model(rows, n1);
    let (rows2, r2) = create_model(rows1, n2);
    assert(rows1.last() == r1->Ok_0);
    assert(rows2 =~= rows.push(r1->Ok_0).push(r2->Ok_0));
}

/// A successful insert into a well-formed store assigns an id one greater
/// than the previous maximum, or 1 into an empty table, and keeps the
/// input's fields untouched.
pub proof fn lemma_create_assigns_fresh_id(rows: Seq<ExpenseV>, n: NewExpenseV)
    requires
        crate::store::store_wf(rows),
        next_id(rows) <= i32::MAX,
    ensures
        ({
            let (rows2, r) = create_model(rows, n);
            &&& r is Ok
            &&& r->Ok_0.name == n.name
            &&& r->Ok_0.amount == n.amount
            &&& rows.len() == 0 ==> r->Ok_0.id == 1
            &&& rows.len() > 0 ==> r->Ok_0.id == rows.last().id + 1
            &&& forall|i: int| 0 <= i < rows.len() ==> (#[trigger] rows[i].id) < r->Ok_0.id
            &&& rows2 == rows.push(r->Ok_0)
        }),
{
    crate::store::lemma_next_id_exceeds_all(rows);
}

/// No route a read is dispatched to writes the store.
proof fn lemma_get_routes_read_only(i: int)
    requires
        0 <= i < routes_spec().len(),
        routes_spec()[i].method == Method::Get,
    ensures
        routes_spec()[i].handler != HandlerId::PostExpenses,
{
    if i == 0 {
        assert(routes_spec()[0].handler == HandlerId::HelloWorld);
    } else if i == 1 {
        assert(routes_spec()[1].handler == HandlerId::Greet);
    } else if i == 2 {
        assert(routes_spec()[2].handler == HandlerId::EchoData);
    } else if i == 3 {
        assert(routes_spec()[3].handler == HandlerId::ReturnData);
    } else if i == 4 {
        assert(routes_spec()[4].handler == HandlerId::JsonHello);
    } else if i == 5 {
        assert(routes_spec()[5].handler == HandlerId::GetVec);
    } else if i == 6 {
        assert(routes_spec()[6].handler == HandlerId::RequestBody);
    } else if i == 7 {
        assert(routes_spec()[7].handler == HandlerId::RequestBodyLength);
    } else if i == 8 {
        assert(routes_spec()[8].handler == HandlerId::GetExpenses);
    } else {
        assert(routes_spec()[9].handler == HandlerId::PostExpenses);
    }
}

/// A read leaves the state exactly as it was, so repeating an identical
/// read any number of times yields the identical response.
pub proof fn lemma_get_idempotent(s: StateV, rq: RequestV)
    requires
        rq.method == Method::Get,
    ensures
        dispatch_model(s, rq).0 == s,
        dispatch_model(dispatch_model(s, rq).0, rq) == dispatch_model(s, rq),
{
    match segs_of(rq.path) {
        None => {},
        Some(segs) => {
            lemma_first_match_facts(routes_spec(), rq.method, segs, 0, true);
            lemma_first_match_facts(routes_spec(), rq.method, segs, 0, false);
            match route_choice(routes_spec(), rq.method, segs) {
                Some(i) => {
                    lemma_get_routes_read_only(i);
                    let route = routes_spec()[i];
                    assert(run_handler(route.handler,
                        crate::dispatch::extract_from_model(route.bindings, 0, route.pattern, segs, rq.body, s)->Ok_0, s.db).0 == s.db);
                    assert(StateV { config_foo: s.config_foo, db: s.db } =~= s);
                },
                None => {},
            }
        },
    }
}

/// A path no registered pattern accepts is refused as not found, whatever
/// the method, and the state is untouched.
pub proof fn lemma_unknown_path(s: StateV, rq: RequestV, segs: Seq<Seq<u8>>)
    requires
        segs_of(rq.path) == Some(segs),
        !any_path_match(routes_spec(), segs),
    ensures
        dispatch_model(s, rq).0 == s,
        dispatch_model(s, rq).1 == error_response(ApiError::RouteNotFound),
{
    lemma_first_match_facts(routes_spec(), rq.method, segs, 0, true);
    lemma_first_match_facts(routes_spec(), rq.method, segs, 0, false);
    match route_choice(routes_spec(), rq.method, segs) {
        Some(i) => {
            assert(any_path_match(routes_spec(), segs));
        },
        None => {},
    }
}

/// A path some pattern accepts, asked under a method no accepting route
/// carries, is refused as method-not-allowed, and the state is untouched.
pub proof fn lemma_wrong_method(s: StateV, rq: RequestV, segs: Seq<Seq<u8>>)
    requires
        segs_of(rq.path) == Some(segs),
        any_path_match(routes_spec(), segs),
        forall|j: int|
            0 <= j < routes_spec().len() ==> !((#[trigger] routes_spec()[j]).method == rq.method
                && pat_matches(routes_spec()[j].pattern, segs)),
    ensures
        dispatch_model(s, rq).0 == s,
        dispatch_model(s, rq).1 == error_response(ApiError::MethodNotAllowed),
{
    lemma_first_match_facts(routes_spec(), rq.method, segs, 0, true);
    lemma_first_match_facts(routes_spec(), rq.method, segs, 0, false);
    match route_choice(routes_spec(), rq.method, segs) {
        Some(i) => {
            assert(false);
        },
        None => {},
    }
}

/// A stretch without slashes splits into itself alone.
proof fn lemma_split_no_slash(s: Seq<u8>)
    requires
        forall|i: int| 0 <= i < s.len() ==> s[i] != 47,
    ensures
        split_segs(s) == seq![s],
    decreases s.len(),
{
    if s.len() == 0 {
        assert(split_segs(s) =~~= seq![s]);
    } else {
        lemma_split_no_slash(s.drop_first());
        assert(seq![s[0]] + s.drop_first() =~= s);
        assert(split_segs(s) =~~= seq![s]);
    }
}

/// Splitting a slash-free stretch, a slash, and a remainder yields the
/// stretch and then the remainder's split.
proof fn lemma_split_lit_prefix(pre: Seq<u8>, rest: Seq<u8>)
    requires
        forall|i: int| 0 <= i < pre.len() ==> pre[i] != 47,
    ensures
        split_segs(pre + seq![47u8] + rest) == seq![pre] + split_segs(rest),
    decreases pre.len(),
{
    if pre.len() == 0 {
        assert(pre + seq![47u8] + rest =~= seq![47u8] + rest);
        assert((seq![47u8] + rest).drop_first() =~= rest);
        assert(split_segs(pre + seq![47u8] + rest) =~~= seq![pre] + split_segs(rest));
    } else {
        lemma_split_lit_prefix(pre.drop_first(), rest);
        let s = pre + seq![47u8] + rest;
        assert(s[0] == pre[0]);
        assert(s.drop_first() =~= pre.drop_first() + seq![47u8] + rest);
        let r = split_segs(s.drop_first());
        assert(r == seq![pre.drop_first()] + split_segs(rest));
        assert(r[0] == pre.drop_first());
        assert(seq![s[0]] + r[0] =~= pre);
        assert(r.drop_first() =~= split_segs(rest));
        assert(split_segs(s) =~~= seq![pre] + split_segs(rest));
    }
}

/// The greeting route's literal segment: five bytes, none a slash.
proof fn lemma_lit_hello()
    ensures
        lit("hello").len() == 5,
        forall|i: int| 0 <= i < lit("hello").len() ==> lit("hello")[i] != 47,
{
    reveal_strlit("hello");
    assert(is_ascii("hello"));
    is_ascii_spec_bytes("hello");
    assert forall|i: int| 0 <= i < lit("hello").len() implies lit("hello")[i] != 47 by {
        assert(lit("hello")[i] == "hello"@[i] as u8);
    }
}

/// The data-echo route's literal segment: four bytes.
proof fn lemma_lit_data()
    ensures
        lit("data").len() == 4,
{
    reveal_strlit("data");
    assert(is_ascii("data"));
    is_ascii_spec_bytes("data");
}

/// The round-trip route's literal segment: eleven bytes, none a slash.
proof fn lemma_lit_return_data()
    ensures
        lit("return-data").len() == 11,
        forall|i: int| 0 <= i < lit("return-data").len() ==> lit("return-data")[i] != 47,
{
    reveal_strlit("return-data");
    assert(is_ascii("return-data"));
    is_ascii_spec_bytes("return-data");
    assert forall|i: int| 0 <= i < lit("return-data").len() implies lit("return-data")[i]
        != 47 by {
        assert(lit("return-data")[i] == "return-data"@[i] as u8);
    }
}

/// Greeting a name echoes exactly that name: for any segment value free
/// of slashes, a read of the greeting path answers success, plain, with
/// the value verbatim after the salutation, and the state untouched.
/// The greeting request is routed to the greeting route.
proof fn lemma_greet_routing(segs: Seq<Seq<u8>>, name: Seq<u8>)
    requires
        segs == seq![lit("hello"), name],
    ensures
        route_choice(routes_spec(), Method::Get, segs) == Some(1int),
{
    let rs = routes_spec();
    assert(segs.len() == 2);
    assert(pat_matches(rs[1].pattern, segs)) by {
        assert(rs[1].pattern[0] == PatSegV::Lit(lit("hello")));
        assert(rs[1].pattern[1] == PatSegV::Var(lit("name")));
        assert(segs[0] == lit("hello"));
    }
    assert(!all_literal(rs[1].pattern)) by {
        assert(!(rs[1].pattern[1] is Lit));
    }
    assert(first_match(rs, Method::Get, segs, 0, true) is None) by {
        reveal_with_fuel(first_match, 11);
        assert(rs[0].pattern.len() == 0);
        assert(rs[2].pattern.len() == 1);
        assert(rs[3].pattern.len() == 1);
        assert(rs[4].pattern.len() == 1);
        assert(rs[5].pattern.len() == 1);
        assert(rs[6].pattern.len() == 1);
        assert(rs[7].pattern.len() == 1);
        assert(rs[8].pattern.len() == 1);
        assert(rs[9].pattern.len() == 1);
    }
    assert(first_match(rs, Method::Get, segs, 0, false) == Some(1int)) by {
        reveal_with_fuel(first_match, 3);
        assert(rs[0].pattern.len() == 0);
        assert(rs[1].method == Method::Get);
    }
}

/// The greeting route's one declared parameter extracts to the bound
/// segment value.
proof fn lemma_greet_extraction(segs: Seq<Seq<u8>>, name: Seq<u8>, body: Seq<u8>, s: StateV)
    requires
        segs == seq![lit("hello"), name],
    ensures
        extract_from_model(
            routes_spec()[1].bindings,
            0,
            routes_spec()[1].pattern,
            segs,
            body,
            s,
        ) == Ok::<Seq<ExtractedV>, ApiError>(seq![ExtractedV::Seg(name)]),
{
    let rs = routes_spec();
    assert(seg_value(rs[1].pattern, segs, lit("name"), 0) == Some(name)) by {
        reveal_with_fuel(seg_value, 3);
        assert(rs[1].pattern[0] is Lit);
        assert(rs[1].pattern[1] == PatSegV::Var(lit("name")));
        assert(segs[1] == name);
    }
    assert(extract_from_model(rs[1].bindings, 0, rs[1].pattern, segs, body, s) == Ok::<
        Seq<ExtractedV>,
        ApiError,
    >(seq![ExtractedV::Seg(name)])) by {
        reveal_with_fuel(extract_from_model, 3);
        assert(rs[1].bindings[0] == BindingV::Segment(lit("name")));
        assert(rs[1].bindings.len() == 1);
        assert(seq![ExtractedV::Seg(name)] + Seq::<ExtractedV>::empty() =~= seq![
            ExtractedV::Seg(name),
        ]);
    }
}

pub proof fn lemma_greet_echoes(s: StateV, name: Seq<u8>, hs: Seq<(Seq<u8>, Seq<u8>)>)
    requires
        forall|i: int| 0 <= i < name.len() ==> name[i] != 47,
    ensures
        ({
            let rq = RequestV {
                method: Method::Get,
                path: seq![47u8] + lit("hello") + seq![47u8] + name,
                headers: hs,
                body: Seq::empty(),
            };
            &&& dispatch_model(s, rq).0 == s
            &&& dispatch_model(s, rq).1 == ResponseV {
                status: 200,
                ctype: ContentType::Plain,
                body: lit("Hello, ") + name,
            }
        }),
{
    let rq = RequestV {
        method: Method::Get,
        path: seq![47u8] + lit("hello") + seq![47u8] + name,
        headers: hs,
        body: Seq::empty(),
    };
    let path = rq.path;
    lemma_lit_hello();
    assert(path[0] == 47);
    assert(path.len() > 1);
    assert(path.skip(1) =~= lit("hello") + seq![47u8] + name);
    lemma_split_lit_prefix(lit("hello"), name);
    lemma_split_no_slash(name);
    let segs = split_segs(path.skip(1));
    assert(segs =~~= seq![lit("hello"), name]);
    assert(segs_of(path) == Some(segs));
    let rs = routes_spec();
    lemma_greet_routing(segs, name);
    lemma_greet_extraction(segs, name, rq.body, s);
    let vals = seq![ExtractedV::Seg(name)];
    assert(vals.len() == 1 && vals[0] == ExtractedV::Seg(name));
    assert(run_handler(HandlerId::Greet, vals, s.db).1 == Ok::<RetV, ApiError>(
        RetV::Text(lit("Hello, ") + name),
    ));
    assert(StateV { config_foo: s.config_foo, db: s.db } =~= s);
    assert(dispatch_model(s, rq).1 =~= ResponseV {
        status: 200,
        ctype: ContentType::Plain,
        body: lit("Hello, ") + name,
    });
}

/// A malformed body for the round-trip route is refused as a decode
/// failure: no crash, no partial value, no state change.
pub proof fn lemma_bad_body_rejected(s: StateV, body: Seq<u8>, hs: Seq<(Seq<u8>, Seq<u8>)>)
    requires
        decode_mydata_spec(body) is None,
    ensures
        ({
            let rq = RequestV {
                method: Method::Post,
                path: seq![47u8] + lit("return-data"),
                headers: hs,
                body,
            };
            &&& dispatch_model(s, rq).0 == s
            &&& dispatch_model(s, rq).1 == error_response(ApiError::DecodeError)
        }),
{
    let rq = RequestV {
        method: Method::Post,
        path: seq![47u8] + lit("return-data"),
        headers: hs,
        body,
    };
    let path = rq.path;
    lemma_lit_return_data();
    lemma_lit_data();
    assert(path[0] == 47);
    assert(path.len() == 12);
    assert(path.skip(1) =~= lit("return-data"));
    lemma_split_no_slash(lit("return-data"));
    let segs = split_segs(path.skip(1));
    assert(segs =~~= seq![lit("return-data")]);
    assert(segs_of(path) == Some(segs));
    let rs = routes_spec();
    assert(segs.len() == 1);
    assert(segs[0].len() == 11);
    assert(pat_matches(rs[3].pattern, segs)) by {
        assert(rs[3].pattern[0] == PatSegV::Lit(lit("return-data")));
    }
    assert(all_literal(rs[3].pattern)) by {
        assert(rs[3].pattern[0] is Lit);
    }
    assert(first_match(rs, Method::Post, segs, 0, true) == Some(3int)) by {
        reveal_with_fuel(first_match, 5);
        assert(rs[0].pattern.len() == 0);
        assert(rs[1].method == Method::Get);
        assert(!pat_matches(rs[2].pattern, segs)) by {
            assert(rs[2].pattern[0] == PatSegV::Lit(lit("data")));
            assert(segs[0] != lit("data"));
        }
        assert(rs[3].method == Method::Post);
    }
    assert(route_choice(rs, Method::Post, segs) == Some(3int));
    assert(extract_from_model(rs[3].bindings, 0, rs[3].pattern, segs, rq.body, s) == Err::<
        Seq<ExtractedV>,
        ApiError,
    >(ApiError::DecodeError)) by {
        reveal_with_fuel(extract_from_model, 2);
        assert(rs[3].bindings[0] == BindingV::BodyMyData);
    }
    assert(dispatch_model(s, rq).1 =~= error_response(ApiError::DecodeError));
}

} // verus!
