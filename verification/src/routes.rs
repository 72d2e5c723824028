//! The route table and the matcher. A pattern is a sequence of literal and
//! named segments; an exact all-literal match takes precedence over a match
//! through a named segment, and among equals the first-registered route
//! wins. A path that matches no pattern is `RouteNotFound`; one that
//! matches only under another method is `MethodAllowed`-refused.
use vstd::prelude::*;
use crate::bytes::{lit, lit_vec, bytes_eq};
use crate::types::{ContentType, Method};

verus! {

/// One compiled segment of a route pattern.
pub enum PatSeg {
    Lit(Vec<u8>),
    Var(Vec<u8>),
}

/// Spec-level image of a [`PatSeg`].
#[verifier::ext_equal]
pub enum PatSegV {
    Lit(Seq<u8>),
    Var(Seq<u8>),
}

impl View for PatSeg {
    type V = PatSegV;

    open spec fn view(&self) -> PatSegV {
        match self {
            PatSeg::Lit(t) => PatSegV::Lit(t@),
            PatSeg::Var(t) => PatSegV::Var(t@),
        }
    }
}

/// One declared handler parameter, extracted per request in declaration order.
pub enum Binding {
    Segment(Vec<u8>),
    RawBody,
    BodyMyData,
    Resource,
}

/// Spec-level image of a [`Binding`].
#[verifier::ext_equal]
pub enum BindingV {
    Segment(Seq<u8>),
    RawBody,
    BodyMyData,
    Resource,
}

impl View for Binding {
    type V = BindingV;

    open spec fn view(&self) -> BindingV {
        match self {
            Binding::Segment(t) => BindingV::Segment(t@),
            Binding::RawBody => BindingV::RawBody,
            Binding::BodyMyData => BindingV::BodyMyData,
            Binding::Resource => BindingV::Resource,
        }
    }
}

/// Which handler a route is bound to.
#[derive(Clone, Copy, PartialEq, Eq, Structural, Debug)]
pub enum HandlerId {
    HelloWorld,
    Greet,
    EchoData,
    ReturnData,
    JsonHello,
    GetVec,
    RequestBody,
    RequestBodyLength,
    GetExpenses,
    PostExpenses,
}

/// One registered route.
pub struct Route {
    pub method: Method,
    pub pattern: Vec<PatSeg>,
    pub bindings: Vec<Binding>,
    pub handler: HandlerId,
    pub ctype: ContentType,
}

/// Spec-level image of a [`Route`].
#[verifier::ext_equal]
pub struct RouteV {
    pub method: Method,
    pub pattern: Seq<PatSegV>,
    pub bindings: Seq<BindingV>,
    pub handler: HandlerId,
    pub ctype: ContentType,
}

/// Spec-level image of a pattern.
pub open spec fn pat_v(ps: Seq<PatSeg>) -> Seq<PatSegV> {
    ps.map(|i: int, p: PatSeg| p@)
}

/// Spec-level image of a binding list.
pub open spec fn bindings_v(bs: Seq<Binding>) -> Seq<BindingV> {
    bs.map(|i: int, b: Binding| b@)
}

impl View for Route {
    type V = RouteV;

    open spec fn view(&self) -> RouteV {
        RouteV {
            method: self.method,
            pattern: pat_v(self.pattern@),
            bindings: bindings_v(self.bindings@),
            handler: self.handler,
            ctype: self.ctype,
        }
    }
}

/// Spec-level image of the route table.
pub open spec fn routes_v(rs: Seq<Route>) -> Seq<RouteV> {
    rs.map(|i: int, r: Route| r@)
}

/// One spec-level route.
pub open spec fn route_v(
    method: Method,
    pattern: Seq<PatSegV>,
    bindings: Seq<BindingV>,
    handler: HandlerId,
    ctype: ContentType,
) -> RouteV {
    RouteV { method, pattern, bindings, handler, ctype }
}

/// The fixed table this server registers at startup, in registration order.
pub open spec fn routes_spec() -> Seq<RouteV> {
    seq![
        route_v(Method::Get, seq![], seq![], HandlerId::HelloWorld, ContentType::Plain),
        route_v(
            Method::Get,
            seq![PatSegV::Lit(lit("hello")), PatSegV::Var(lit("name"))],
            seq![BindingV::Segment(lit("name"))],
            HandlerId::Greet,
            ContentType::Plain,
        ),
        route_v(
            Method::Post,
            seq![PatSegV::Lit(lit("data"))],
            seq![BindingV::BodyMyData],
            HandlerId::EchoData,
            ContentType::Plain,
        ),
        route_v(
            Method::Post,
            seq![PatSegV::Lit(lit("return-data"))],
            seq![BindingV::BodyMyData],
            HandlerId::ReturnData,
            ContentType::Json,
        ),
        route_v(
            Method::Get,
            seq![PatSegV::Lit(lit("json"))],
            seq![],
            HandlerId::JsonHello,
            ContentType::Json,
        ),
        route_v(
            Method::Get,
            seq![PatSegV::Lit(lit("vec"))],
            seq![],
            HandlerId::GetVec,
            ContentType::Json,
        ),
        route_v(
            Method::Post,
            seq![PatSegV::Lit(lit("request-body"))],
            seq![BindingV::RawBody, BindingV::Resource],
            HandlerId::RequestBody,
            ContentType::Plain,
        ),
        route_v(
            Method::Post,
            seq![PatSegV::Lit(lit("request-body-length"))],
            seq![BindingV::RawBody],
            HandlerId::RequestBodyLength,
            ContentType::Plain,
        ),
        route_v(
            Method::Get,
            seq![PatSegV::Lit(lit("expenses"))],
            seq![BindingV::Resource],
            HandlerId::GetExpenses,
            ContentType::Json,
        ),
        route_v(
            Method::Post,
            seq![PatSegV::Lit(lit("expenses"))],
            seq![BindingV::Resource, BindingV::RawBody],
            HandlerId::PostExpenses,
            ContentType::Json,
        ),
    ]
}

/// Builds one route.
fn mk_route(
    method: Method,
    pattern: Vec<PatSeg>,
    bindings: Vec<Binding>,
    handler: HandlerId,
    ctype: ContentType,
) -> (r: Route)
    ensures
        r@ == route_v(method, pat_v(pattern@), bindings_v(bindings@), handler, ctype),
{
    Route { method, pattern, bindings, handler, ctype }
}

/// Builds the route table; it is constructed once at startup and read-only
/// afterwards.
pub fn routes() -> (r: Vec<Route>)
    ensures
        routes_v(r@) == routes_spec(),
{
    let mut t: Vec<Route> = Vec::new();
    t.push(mk_route(Method::Get, Vec::new(), Vec::new(), HandlerId::HelloWorld, ContentType::Plain));
    let mut p: Vec<PatSeg> = Vec::new();
    p.push(PatSeg::Lit(lit_vec("hello")));
    p.push(PatSeg::Var(lit_vec("name")));
    let mut b: Vec<Binding> = Vec::new();
    b.push(Binding::Segment(lit_vec("name")));
    t.push(mk_route(Method::Get, p, b, HandlerId::Greet, ContentType::Plain));
    let mut p: Vec<PatSeg> = Vec::new();
    p.push(PatSeg::Lit(lit_vec("data")));
    let mut b: Vec<Binding> = Vec::new();
    b.push(Binding::BodyMyData);
    t.push(mk_route(Method::Post, p, b, HandlerId::EchoData, ContentType::Plain));
    let mut p: Vec<PatSeg> = Vec::new();
    p.push(PatSeg::Lit(lit_vec("return-data")));
    let mut b: Vec<Binding> = Vec::new();
    b.push(Binding::BodyMyData);
    t.push(mk_route(Method::Post, p, b, HandlerId::ReturnData, ContentType::Json));
    let mut p: Vec<PatSeg> = Vec::new();
    p.push(PatSeg::Lit(lit_vec("json")));
    t.push(mk_route(Method::Get, p, Vec::new(), HandlerId::JsonHello, ContentType::Json));
    let mut p: Vec<PatSeg> = Vec::new();
    p.push(PatSeg::Lit(lit_vec("vec")));
    t.push(mk_route(Method::Get, p, Vec::new(), HandlerId::GetVec, ContentType::Json));
    let mut p: Vec<PatSeg> = Vec::new();
    p.push(PatSeg::Lit(lit_vec("request-body")));
    let mut b: Vec<Binding> = Vec::new();
    b.push(Binding::RawBody);
    b.push(Binding::Resource);
    t.push(mk_route(Method::Post, p, b, HandlerId::RequestBody, ContentType::Plain));
    let mut p: Vec<PatSeg> = Vec::new();
    p.push(PatSeg::Lit(lit_vec("request-body-length")));
    let mut b: Vec<Binding> = Vec::new();
    b.push(Binding::RawBody);
    t.push(mk_route(Method::Post, p, b, HandlerId::RequestBodyLength, ContentType::Plain));
    let mut p: Vec<PatSeg> = Vec::new();
    p.push(PatSeg::Lit(lit_vec("expenses")));
    let mut b: Vec<Binding> = Vec::new();
    b.push(Binding::Resource);
    t.push(mk_route(Method::Get, p, b, HandlerId::GetExpenses, ContentType::Json));
    let mut p: Vec<PatSeg> = Vec::new();
    p.push(PatSeg::Lit(lit_vec("expenses")));
    let mut b: Vec<Binding> = Vec::new();
    b.push(Binding::Resource);
    b.push(Binding::RawBody);
    t.push(mk_route(Method::Post, p, b, HandlerId::PostExpenses, ContentType::Json));
    proof {
        assert(routes_v(t@) =~~= routes_spec());
    }
    t
}

/// The path split at every slash; adjacent slashes yield empty segments.
pub open spec fn split_segs(s: Seq<u8>) -> Seq<Seq<u8>>
    decreases s.len(),
{
    if s.len() == 0 {
        seq![Seq::<u8>::empty()]
    } else if s[0] == 47 {
        seq![Seq::<u8>::empty()] + split_segs(s.drop_first())
    } else {
        let r = split_segs(s.drop_first());
        seq![seq![s[0]] + r[0]] + r.drop_first()
    }
}

/// A split is never empty.
pub proof fn lemma_split_segs_nonempty(s: Seq<u8>)
    ensures
        split_segs(s).len() >= 1,
    decreases s.len(),
{
    if s.len() != 0 {
        lemma_split_segs_nonempty(s.drop_first());
    }
}

/// The segments of a request path: the part after the leading slash,
/// split at every further slash; the root path has no segments; a path
/// without a leading slash is not a resource path at all.
pub open spec fn segs_of(p: Seq<u8>) -> Option<Seq<Seq<u8>>> {
    if p.len() >= 1 && p[0] == 47 {
        if p.len() == 1 {
            Some(Seq::empty())
        } else {
            Some(split_segs(p.skip(1)))
        }
    } else {
        None
    }
}

/// Spec-level image of a segment list.
pub open spec fn segs_vv(v: Seq<Vec<u8>>) -> Seq<Seq<u8>> {
    v.map(|i: int, x: Vec<u8>| x@)
}

/// Runs [`split_segs`] on the bytes of `s` from position `i` on.
pub fn split_segs_exec(s: &Vec<u8>, i: usize) -> (r: Vec<Vec<u8>>)
    requires
        i <= s.len(),
    ensures
        segs_vv(r@) == split_segs(s@.skip(i as int)),
        r.len() >= 1,
    decreases s.len() - i,
{
    if i == s.len() {
        let mut r: Vec<Vec<u8>> = Vec::new();
        r.push(Vec::new());
        proof {
            assert(s@.skip(i as int) =~= Seq::<u8>::empty());
            assert(segs_vv(r@) =~= split_segs(s@.skip(i as int)));
        }
        r
    } else if s[i] == 47 {
        let mut r = split_segs_exec(s, i + 1);
        r.insert(0, Vec::new());
        proof {
            assert(s@.skip(i as int).drop_first() =~= s@.skip(i + 1 as int));
            assert(segs_vv(r@) =~= split_segs(s@.skip(i as int)));
        }
        r
    } else {
        let mut r = split_segs_exec(s, i + 1);
        let mut first = r.remove(0);
        first.insert(0, s[i]);
        r.insert(0, first);
        proof {
            assert(s@.skip(i as int).drop_first() =~= s@.skip(i + 1 as int));
            assert(s@.skip(i as int)[0] == s@[i as int]);
            lemma_split_segs_nonempty(s@.skip(i + 1 as int));
            assert(segs_vv(r@) =~~= split_segs(s@.skip(i as int)));
        }
        r
    }
}

/// Whether a pattern accepts a segment list: lengths agree, every literal
/// segment agrees byte for byte, and a named segment accepts anything.
pub open spec fn pat_matches(pat: Seq<PatSegV>, segs: Seq<Seq<u8>>) -> bool {
    pat.len() == segs.len() && forall|i: int|
        0 <= i < pat.len() ==> match #[trigger] pat[i] {
            PatSegV::Lit(t) => segs[i] == t,
            PatSegV::Var(_) => true,
        }
}

/// A pattern without named segments.
pub open spec fn all_literal(pat: Seq<PatSegV>) -> bool {
    forall|i: int| 0 <= i < pat.len() ==> (#[trigger] pat[i]) is Lit
}

/// Runs [`pat_matches`].
pub fn pat_matches_exec(pat: &Vec<PatSeg>, segs: &Vec<Vec<u8>>) -> (r: bool)
    ensures
        r == pat_matches(pat_v(pat@), segs_vv(segs@)),
{
    if pat.len() != segs.len() {
        return false;
    }
    let mut i: usize = 0;
    while i < pat.len()
        invariant
            i <= pat.len(),
            pat.len() == segs.len(),
            forall|j: int|
                0 <= j < i ==> match #[trigger] pat_v(pat@)[j] {
                    PatSegV::Lit(t) => segs_vv(segs@)[j] == t,
                    PatSegV::Var(_) => true,
                },
        decreases pat.len() - i,
    {
        proof {
            assert(pat_v(pat@)[i as int] == pat@[i as int]@);
            assert(segs_vv(segs@)[i as int] == segs@[i as int]@);
        }
        match &pat[i] {
            PatSeg::Lit(t) => {
                if !bytes_eq(t, &segs[i]) {
                    return false;
                }
            },
            PatSeg::Var(_) => {},
        }
        i += 1;
    }
    true
}

/// Runs [`all_literal`].
pub fn all_literal_exec(pat: &Vec<PatSeg>) -> (r: bool)
    ensures
        r == all_literal(pat_v(pat@)),
{
    let mut i: usize = 0;
    while i < pat.len()
        invariant
            i <= pat.len(),
            forall|j: int| 0 <= j < i ==> (#[trigger] pat_v(pat@)[j]) is Lit,
        decreases pat.len() - i,
    {
        proof {
            assert(pat_v(pat@)[i as int] == pat@[i as int]@);
        }
        match &pat[i] {
            PatSeg::Lit(_) => {},
            PatSeg::Var(_) => {
                return false;
            },
        }
        i += 1;
    }
    true
}

/// The first route from index `i` on whose method and pattern accept the
/// request; with `lit_only` set, only routes with all-literal patterns count.
pub open spec fn first_match(
    rs: Seq<RouteV>,
    m: Method,
    segs: Seq<Seq<u8>>,
    i: int,
    lit_only: bool,
) -> Option<int>
    decreases rs.len() - i,
{
    if !(0 <= i && i < rs.len()) {
        None
    } else if rs[i].method == m && pat_matches(rs[i].pattern, segs) && (!lit_only || all_literal(
        rs[i].pattern,
    )) {
        Some(i)
    } else {
        first_match(rs, m, segs, i + 1, lit_only)
    }
}

/// The route a request is dispatched to: the first exact all-literal
/// match, else the first match through a named segment; first-registered
/// wins among equals.
pub open spec fn route_choice(rs: Seq<RouteV>, m: Method, segs: Seq<Seq<u8>>) -> Option<int> {
    match first_match(rs, m, segs, 0, true) {
        Some(i) => Some(i),
        None => first_match(rs, m, segs, 0, false),
    }
}

/// Whether some registered pattern accepts the path under any method.
pub open spec fn any_path_match(rs: Seq<RouteV>, segs: Seq<Seq<u8>>) -> bool {
    exists|i: int| 0 <= i < rs.len() && pat_matches(#[trigger] rs[i].pattern, segs)
}

/// How the matcher ruled on a request.
pub enum MatchOutcome {
    Matched(usize),
    WrongMethod,
    NoRoute,
}

/// Runs one [`first_match`] pass.
fn first_match_exec(table: &Vec<Route>, m: Method, segs: &Vec<Vec<u8>>, lit_only: bool) -> (r:
    Option<usize>)
    ensures
        match r {
            Some(ix) => first_match(routes_v(table@), m, segs_vv(segs@), 0, lit_only) == Some(
                ix as int,
            ) && ix < table.len(),
            None => first_match(routes_v(table@), m, segs_vv(segs@), 0, lit_only) is None,
        },
{
    let mut i: usize = 0;
    while i < table.len()
        invariant
            i <= table.len(),
            first_match(routes_v(table@), m, segs_vv(segs@), 0, lit_only) == first_match(
                routes_v(table@),
                m,
                segs_vv(segs@),
                i as int,
                lit_only,
            ),
        decreases table.len() - i,
    {
        proof {
            assert(routes_v(table@)[i as int] == table@[i as int]@);
        }
        let route = &table[i];
        let method_ok = route.method == m;
        if method_ok && pat_matches_exec(&route.pattern, segs) && (!lit_only || all_literal_exec(
            &route.pattern,
        )) {
            return Some(i);
        }
        i += 1;
    }
    None
}

/// Runs the matcher: picks the dispatched route, or tells a path that is
/// known under another method from one that is not known at all.
pub fn match_route(table: &Vec<Route>, m: Method, segs: &Vec<Vec<u8>>) -> (r: MatchOutcome)
    ensures
        match r {
            MatchOutcome::Matched(ix) => route_choice(routes_v(table@), m, segs_vv(segs@))
                == Some(ix as int) && ix < table.len(),
            MatchOutcome::WrongMethod => route_choice(routes_v(table@), m, segs_vv(segs@))
                is None && any_path_match(routes_v(table@), segs_vv(segs@)),
            MatchOutcome::NoRoute => route_choice(routes_v(table@), m, segs_vv(segs@)) is None
                && !any_path_match(routes_v(table@), segs_vv(segs@)),
        },
{
    match first_match_exec(table, m, segs, true) {
        Some(ix) => MatchOutcome::Matched(ix),
        None => match first_match_exec(table, m, segs, false) {
            Some(ix) => MatchOutcome::Matched(ix),
            None => {
                let mut i: usize = 0;
                while i < table.len()
                    invariant
                        i <= table.len(),
                        first_match(routes_v(table@), m, segs_vv(segs@), 0, true) is None,
                        first_match(routes_v(table@), m, segs_vv(segs@), 0, false) is None,
                        forall|j: int|
                            0 <= j < i ==> !pat_matches(
                                (#[trigger] routes_v(table@)[j]).pattern,
                                segs_vv(segs@),
                            ),
                    decreases table.len() - i,
                {
                    proof {
                        assert(routes_v(table@)[i as int] == table@[i as int]@);
                    }
                    if pat_matches_exec(&table[i].pattern, segs) {
                        proof {
                            let ghost wi = i as int;
                            assert(0 <= wi < routes_v(table@).len() && pat_matches(
                                routes_v(table@)[wi].pattern,
                                segs_vv(segs@),
                            ));
                            assert(any_path_match(routes_v(table@), segs_vv(segs@)));
                        }
                        return MatchOutcome::WrongMethod;
                    }
                    i += 1;
                }
                MatchOutcome::NoRoute
            },
        },
    }
}

/// The value bound to the named segment `name`, scanning from position `i`.
pub open spec fn seg_value(
    pat: Seq<PatSegV>,
    segs: Seq<Seq<u8>>,
    name: Seq<u8>,
    i: int,
) -> Option<Seq<u8>>
    decreases pat.len() - i,
{
    if !(0 <= i && i < pat.len() && i < segs.len()) {
        None
    } else {
        match pat[i] {
            PatSegV::Var(n) => if n == name {
                Some(segs[i])
            } else {
                seg_value(pat, segs, name, i + 1)
            },
            PatSegV::Lit(_) => seg_value(pat, segs, name, i + 1),
        }
    }
}

/// Runs [`seg_value`].
pub fn seg_value_exec(pat: &Vec<PatSeg>, segs: &Vec<Vec<u8>>, name: &Vec<u8>) -> (r: Option<
    Vec<u8>,
>)
    ensures
        match r {
            Some(v) => seg_value(pat_v(pat@), segs_vv(segs@), name@, 0) == Some(v@),
            None => seg_value(pat_v(pat@), segs_vv(segs@), name@, 0) is None,
        },
{
    let mut i: usize = 0;
    while i < pat.len() && i < segs.len()
        invariant
            i <= pat.len(),
            seg_value(pat_v(pat@), segs_vv(segs@), name@, 0) == seg_value(
                pat_v(pat@),
                segs_vv(segs@),
                name@,
                i as int,
            ),
        decreases pat.len() - i,
    {
        match &pat[i] {
            PatSeg::Var(n) => {
                if bytes_eq(n, name) {
                    return Some(crate::bytes::copy_bytes(&segs[i]));
                }
            },
            PatSeg::Lit(_) => {},
        }
        i += 1;
    }
    None
}

} // verus!
