//! The middleware chain: every response body, whatever its route, passes
//! through a best-effort deflate filter after serialization. The filter is
//! opaque beyond that; its output is named, never restated.
use vstd::prelude::*;
use std::io::Write;
use crate::dispatch::{dispatch, dispatch_model};
use crate::routes::{Route, routes_v, routes_spec};
use crate::store::{ServerState, state_wf};
use crate::types::{Request, Response, ResponseV};

verus! {

/// What the deflate filter produces, at best compression, for a given
/// body: a function of the input bytes alone.
pub uninterp spec fn deflate_of(b: Seq<u8>) -> Seq<u8>;

/// Relies on flate2's `DeflateEncoder` over a `Vec<u8>` sink at
/// `Compression::best()`: the encoder is deterministic in the input
/// bytes, and writing to a `Vec` sink cannot fail.
#[verifier::external_body]
fn deflate_best(b: &Vec<u8>) -> (r: Vec<u8>)
    ensures
        r@ == deflate_of(b@),
{
    let mut enc = flate2::write::DeflateEncoder::new(Vec::new(), flate2::Compression::best());
    enc.write_all(b.as_slice()).expect("a Vec sink takes every byte");
    enc.finish().expect("a Vec sink takes every byte")
}

/// What the middleware chain does to a response: the body is compressed,
/// the status and the declared content type pass through untouched.
pub open spec fn middleware_model(r: ResponseV) -> ResponseV {
    ResponseV { status: r.status, ctype: r.ctype, body: deflate_of(r.body) }
}

/// Sends one response through the middleware chain.
pub fn apply_middleware(r: Response) -> (c: Response)
    ensures
        c@ == middleware_model(r@),
{
    let body = deflate_best(&r.body);
    let c = Response { status: r.status, ctype: r.ctype, body };
    proof {
        assert(c@ =~= middleware_model(r@));
    }
    c
}

/// The full entry point the accept loop calls: dispatches the request and
/// sends the response through the middleware chain.
pub fn respond(table: &Vec<Route>, state: &mut ServerState, req: &Request) -> (r: Response)
    requires
        routes_v(table@) == routes_spec(),
    ensures
        final(state)@ == dispatch_model(old(state)@, req@).0,
        r@ == middleware_model(dispatch_model(old(state)@, req@).1),
        state_wf(old(state)@) ==> state_wf(final(state)@),
{
    let resp = dispatch(table, state, req);
    apply_middleware(resp)
}

} // verus!
