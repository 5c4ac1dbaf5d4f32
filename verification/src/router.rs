//! The router: one pattern table per HTTP method plus an any-method table,
//! and the dispatch policy that resolves each request to exactly one outcome:
//! the winning handler with its captures, or a synthesized not-found or
//! method-not-allowed response.

use vstd::prelude::*;
use crate::matcher::{Matcher, RouteView, best_route, contains_text};
use crate::params::Params;
use crate::pattern::{RouteError, capture_pairs, pattern_of, pattern_valid, wildcard_capture};
use crate::segments::{split_path, split_str};

verus! {

/// The standard HTTP request methods.
#[derive(Debug, Clone, Copy, PartialEq, Eq, Structural)]
pub enum Method {
    Get,
    Head,
    Post,
    Put,
    Delete,
    Patch,
    Options,
    Connect,
    Trace,
}

/// A request as the host layer hands it to the router: the method, the path
/// already stripped of scheme, host and query, and an opaque optional body.
pub struct Request {
    pub method: Method,
    pub path: String,
    pub body: Option<Vec<u8>>,
}

/// A response: a status code and an optional body.
pub struct Response {
    pub status: u16,
    pub body: Option<Vec<u8>>,
}

impl Response {
    /// The status code.
    pub fn status(&self) -> (s: u16)
        ensures
            s == self.status,
    {
        self.status
    }

    /// Consumes the response, returning its body.
    pub fn into_body(self) -> (b: Option<Vec<u8>>)
        ensures
            b == self.body,
    {
        self.body
    }
}

/// The terminal response for a path no table matches: status 404, no body.
pub fn not_found() -> (r: Response)
    ensures
        r.status == 404,
        r.body is None,
{
    Response { status: 404, body: None }
}

/// The terminal response for a path only another method's table matches:
/// status 405, no body.
pub fn method_not_allowed() -> (r: Response)
    ensures
        r.status == 405,
        r.body is None,
{
    Response { status: 405, body: None }
}

/// The outcome of one dispatch: the handler to invoke with the captures of
/// its match, or a synthesized terminal response.
pub enum Dispatch<'a, H> {
    /// A registered pattern won: invoke this handler with these captures.
    Matched { handler: &'a H, params: Params },
    /// No handler was selected: return this response without invoking one.
    Respond { response: Response },
}

/// The dispatch decision, in mathematical form: which table and route index
/// won, or which terminal response is owed.
pub enum Decision {
    /// The route at this index of this method's own table won.
    FromMethod { method: Method, idx: int },
    /// The route at this index of the any-method table won.
    FromAll { idx: int },
    /// Some other method's table matches the path: method not allowed.
    NotAllowed,
    /// No table matches the path: not found.
    NotFound,
}

/// An HTTP request router.  Handlers are opaque values of type `H`: the
/// router stores each handler at registration time and returns the winning
/// one at dispatch time; the caller invokes it.
pub struct Router<H> {
    pub get: Matcher<H>,
    pub head: Matcher<H>,
    pub post: Matcher<H>,
    pub put: Matcher<H>,
    pub delete: Matcher<H>,
    pub patch: Matcher<H>,
    pub options: Matcher<H>,
    pub connect: Matcher<H>,
    pub trace: Matcher<H>,
    pub all_methods: Matcher<H>,
}

impl<H> Router<H> {
    /// The table of routes registered for one specific method.
    pub open spec fn tbl(&self, m: Method) -> Seq<RouteView<H>> {
        match m {
            Method::Get => self.get@,
            Method::Head => self.head@,
            Method::Post => self.post@,
            Method::Put => self.put@,
            Method::Delete => self.delete@,
            Method::Patch => self.patch@,
            Method::Options => self.options@,
            Method::Connect => self.connect@,
            Method::Trace => self.trace@,
        }
    }

    /// The table of routes registered for all methods.
    pub open spec fn all_tbl(&self) -> Seq<RouteView<H>> {
        self.all_methods@
    }

    /// Every stored pattern is well formed.
    pub open spec fn wf(&self) -> bool {
        &&& self.get.wf()
        &&& self.head.wf()
        &&& self.post.wf()
        &&& self.put.wf()
        &&& self.delete.wf()
        &&& self.patch.wf()
        &&& self.options.wf()
        &&& self.connect.wf()
        &&& self.trace.wf()
        &&& self.all_methods.wf()
    }

    /// The dispatch decision for a method and a split path: the method's own
    /// table is consulted first, then the any-method table; a HEAD request
    /// that both miss is retried as GET; otherwise the outcome is method
    /// not allowed when some other method's table matches the path, and not
    /// found when none does.
    pub open spec fn decide(&self, m: Method, path: Seq<Seq<char>>) -> Decision
        decreases (if m is Head {
            1int
        } else {
            0int
        }),
    {
        if best_route(self.tbl(m), path) >= 0 {
            Decision::FromMethod { method: m, idx: best_route(self.tbl(m), path) }
        } else if best_route(self.all_tbl(), path) >= 0 {
            Decision::FromAll { idx: best_route(self.all_tbl(), path) }
        } else if m is Head {
            self.decide(Method::Get, path)
        } else if exists|m2: Method| m2 != m && best_route(#[trigger] self.tbl(m2), path) >= 0 {
            Decision::NotAllowed
        } else {
            Decision::NotFound
        }
    }

    /// What a dispatch result must be: exactly the handler and captures that
    /// the decision names, or exactly the terminal response it names.
    pub open spec fn dispatch_ok(&self, m: Method, path: Seq<Seq<char>>, d: Dispatch<'_, H>) -> bool {
        match self.decide(m, path) {
            Decision::FromMethod { method, idx } => d matches Dispatch::Matched { handler, params }
                && *handler == self.tbl(method)[idx].handler && params@.pairs == capture_pairs(
                self.tbl(method)[idx].pat,
                path,
            ) && params@.wildcard == wildcard_capture(self.tbl(method)[idx].pat, path),
            Decision::FromAll { idx } => d matches Dispatch::Matched { handler, params }
                && *handler == self.all_tbl()[idx].handler && params@.pairs == capture_pairs(
                self.all_tbl()[idx].pat,
                path,
            ) && params@.wildcard == wildcard_capture(self.all_tbl()[idx].pat, path),
            Decision::NotAllowed => d matches Dispatch::Respond { response } && response.status
                == 405 && response.body is None,
            Decision::NotFound => d matches Dispatch::Respond { response } && response.status
                == 404 && response.body is None,
        }
    }

    /// A router with all tables empty.
    pub fn new() -> (r: Router<H>)
        ensures
            r.wf(),
            forall|m: Method| #[trigger] r.tbl(m) == Seq::<RouteView<H>>::empty(),
            r.all_tbl() == Seq::<RouteView<H>>::empty(),
    {
        Router {
            get: Matcher::new(),
            head: Matcher::new(),
            post: Matcher::new(),
            put: Matcher::new(),
            delete: Matcher::new(),
            patch: Matcher::new(),
            options: Matcher::new(),
            connect: Matcher::new(),
            trace: Matcher::new(),
            all_methods: Matcher::new(),
        }
    }

    /// The matcher owning the table that `tbl(m)` describes.
    fn matcher_for<'a>(&'a self, m: Method) -> (r: &'a Matcher<H>)
        ensures
            r@ == self.tbl(m),
            self.wf() ==> r.wf(),
    {
        match m {
            Method::Get => &self.get,
            Method::Head => &self.head,
            Method::Post => &self.post,
            Method::Put => &self.put,
            Method::Delete => &self.delete,
            Method::Patch => &self.patch,
            Method::Options => &self.options,
            Method::Connect => &self.connect,
            Method::Trace => &self.trace,
        }
    }

    /// Whether the table of some method other than `m` matches the path.
    fn other_method_matches(&self, segs: &Vec<String>, m: Method) -> (r: bool)
        requires
            self.wf(),
        ensures
            r == exists|m2: Method|
                m2 != m && best_route(#[trigger] self.tbl(m2), segs.deep_view()) >= 0,
    {
        let ghost pathv = segs.deep_view();
        if !matches!(m, Method::Get) && self.get.best_match_segs(segs).is_some() {
            proof {
                assert(Method::Get != m && best_route(self.tbl(Method::Get), pathv) >= 0);
            }
            return true;
        }
        if !matches!(m, Method::Head) && self.head.best_match_segs(segs).is_some() {
            proof {
                assert(Method::Head != m && best_route(self.tbl(Method::Head), pathv) >= 0);
            }
            return true;
        }
        if !matches!(m, Method::Post) && self.post.best_match_segs(segs).is_some() {
            proof {
                assert(Method::Post != m && best_route(self.tbl(Method::Post), pathv) >= 0);
            }
            return true;
        }
        if !matches!(m, Method::Put) && self.put.best_match_segs(segs).is_some() {
            proof {
                assert(Method::Put != m && best_route(self.tbl(Method::Put), pathv) >= 0);
            }
            return true;
        }
        if !matches!(m, Method::Delete) && self.delete.best_match_segs(segs).is_some() {
            proof {
                assert(Method::Delete != m && best_route(self.tbl(Method::Delete), pathv) >= 0);
            }
            return true;
        }
        if !matches!(m, Method::Patch) && self.patch.best_match_segs(segs).is_some() {
            proof {
                assert(Method::Patch != m && best_route(self.tbl(Method::Patch), pathv) >= 0);
            }
            return true;
        }
        if !matches!(m, Method::Options) && self.options.best_match_segs(segs).is_some() {
            proof {
                assert(Method::Options != m && best_route(self.tbl(Method::Options), pathv) >= 0);
            }
            return true;
        }
        if !matches!(m, Method::Connect) && self.connect.best_match_segs(segs).is_some() {
            proof {
                assert(Method::Connect != m && best_route(self.tbl(Method::Connect), pathv) >= 0);
            }
            return true;
        }
        if !matches!(m, Method::Trace) && self.trace.best_match_segs(segs).is_some() {
            proof {
                assert(Method::Trace != m && best_route(self.tbl(Method::Trace), pathv) >= 0);
            }
            return true;
        }
        proof {
            assert forall|m2: Method| m2 != m implies !(best_route(
                #[trigger] self.tbl(m2),
                pathv,
            ) >= 0) by {}
        }
        false
    }

    /// Resolves a method and an already-split path to a dispatch outcome, as
    /// `decide` prescribes.
    fn find<'a>(&'a self, segs: &Vec<String>, m: Method) -> (d: Dispatch<'a, H>)
        requires
            self.wf(),
        ensures
            self.dispatch_ok(m, segs.deep_view(), d),
        decreases (if m is Head {
            1int
        } else {
            0int
        }),
    {
        let mt = self.matcher_for(m);
        if let Some(mm) = mt.best_match_segs(segs) {
            return Dispatch::Matched { handler: mm.handler, params: mm.params };
        }
        if let Some(mm) = self.all_methods.best_match_segs(segs) {
            return Dispatch::Matched { handler: mm.handler, params: mm.params };
        }
        if matches!(m, Method::Head) {
            return self.find(segs, Method::Get);
        }
        if self.other_method_matches(segs, m) {
            Dispatch::Respond { response: method_not_allowed() }
        } else {
            Dispatch::Respond { response: not_found() }
        }
    }

    /// Dispatches a request: returns the winning handler with the captures
    /// of its match, to be invoked by the caller with the request, or the
    /// synthesized terminal response when no handler is selected.
    pub fn handle<'a>(&'a self, request: &Request) -> (d: Dispatch<'a, H>)
        requires
            self.wf(),
        ensures
            self.dispatch_ok(request.method, split_path(request.path@), d),
    {
        let segs = split_str(request.path.as_str());
        self.find(&segs, request.method)
    }

    /// Registers a handler at the pattern for one HTTP method.  Rejects an
    /// invalid pattern, and a duplicate of a pattern text already registered
    /// under the same method; other tables are untouched either way.
    pub fn add(&mut self, path: &str, method: Method, handler: H) -> (r: Result<(), RouteError>)
        requires
            old(self).wf(),
        ensures
            final(self).wf(),
            final(self).all_tbl() == old(self).all_tbl(),
            forall|m2: Method| m2 != method ==> #[trigger] final(self).tbl(m2) == old(self).tbl(m2),
            !pattern_valid(path@) ==> r == Err::<(), RouteError>(RouteError::InvalidPattern)
                && final(self).tbl(method) == old(self).tbl(method),
            pattern_valid(path@) && contains_text(old(self).tbl(method), path@) ==> r == Err::<
                (),
                RouteError,
            >(RouteError::DuplicatePattern) && final(self).tbl(method) == old(self).tbl(method),
            pattern_valid(path@) && !contains_text(old(self).tbl(method), path@) ==> r == Ok::<
                (),
                RouteError,
            >(()) && final(self).tbl(method) == old(self).tbl(method).push(
                RouteView { pat: pattern_of(path@), text: path@, handler },
            ),
    {
        match method {
            Method::Get => self.get.add(path, handler),
            Method::Head => self.head.add(path, handler),
            Method::Post => self.post.add(path, handler),
            Method::Put => self.put.add(path, handler),
            Method::Delete => self.delete.add(path, handler),
            Method::Patch => self.patch.add(path, handler),
            Method::Options => self.options.add(path, handler),
            Method::Connect => self.connect.add(path, handler),
            Method::Trace => self.trace.add(path, handler),
        }
    }

    /// Registers a handler at the pattern for all methods: its table is
    /// consulted only after the request's own method table has failed.
    pub fn all(&mut self, path: &str, handler: H) -> (r: Result<(), RouteError>)
        requires
            old(self).wf(),
        ensures
            final(self).wf(),
            forall|m2: Method| #[trigger] final(self).tbl(m2) == old(self).tbl(m2),
            !pattern_valid(path@) ==> r == Err::<(), RouteError>(RouteError::InvalidPattern)
                && final(self).all_tbl() == old(self).all_tbl(),
            pattern_valid(path@) && contains_text(old(self).all_tbl(), path@) ==> r == Err::<
                (),
                RouteError,
            >(RouteError::DuplicatePattern) && final(self).all_tbl() == old(self).all_tbl(),
            pattern_valid(path@) && !contains_text(old(self).all_tbl(), path@) ==> r == Ok::<
                (),
                RouteError,
            >(()) && final(self).all_tbl() == old(self).all_tbl().push(
                RouteView { pat: pattern_of(path@), text: path@, handler },
            ),
    {
        self.all_methods.add(path, handler)
    }

    /// Registers a handler at the pattern for the HTTP GET method.
    pub fn get(&mut self, path: &str, handler: H) -> (r: Result<(), RouteError>)
        requires
            old(self).wf(),
        ensures
            final(self).wf(),
            final(self).all_tbl() == old(self).all_tbl(),
            forall|m2: Method| m2 != Method::Get ==> #[trigger] final(self).tbl(m2) == old(
                self,
            ).tbl(m2),
            !pattern_valid(path@) ==> r == Err::<(), RouteError>(RouteError::InvalidPattern)
                && final(self).tbl(Method::Get) == old(self).tbl(Method::Get),
            pattern_valid(path@) && contains_text(old(self).tbl(Method::Get), path@) ==> r == Err::<
                (),
                RouteError,
            >(RouteError::DuplicatePattern) && final(self).tbl(Method::Get) == old(self).tbl(
                Method::Get,
            ),
            pattern_valid(path@) && !contains_text(old(self).tbl(Method::Get), path@) ==> r == Ok::<
                (),
                RouteError,
            >(()) && final(self).tbl(Method::Get) == old(self).tbl(Method::Get).push(
                RouteView { pat: pattern_of(path@), text: path@, handler },
            ),
    {
        self.add(path, Method::Get, handler)
    }

    /// Registers a handler at the pattern for the HTTP HEAD method.
    pub fn head(&mut self, path: &str, handler: H) -> (r: Result<(), RouteError>)
        requires
            old(self).wf(),
        ensures
            final(self).wf(),
            final(self).all_tbl() == old(self).all_tbl(),
            forall|m2: Method| m2 != Method::Head ==> #[trigger] final(self).tbl(m2) == old(
                self,
            ).tbl(m2),
            !pattern_valid(path@) ==> r == Err::<(), RouteError>(RouteError::InvalidPattern)
                && final(self).tbl(Method::Head) == old(self).tbl(Method::Head),
            pattern_valid(path@) && contains_text(old(self).tbl(Method::Head), path@) ==> r
                == Err::<(), RouteError>(RouteError::DuplicatePattern) && final(self).tbl(
                Method::Head,
            ) == old(self).tbl(Method::Head),
            pattern_valid(path@) && !contains_text(old(self).tbl(Method::Head), path@) ==> r
                == Ok::<(), RouteError>(()) && final(self).tbl(Method::Head) == old(self).tbl(
                Method::Head,
            ).push(RouteView { pat: pattern_of(path@), text: path@, handler }),
    {
        self.add(path, Method::Head, handler)
    }

    /// Registers a handler at the pattern for the HTTP POST method.
    pub fn post(&mut self, path: &str, handler: H) -> (r: Result<(), RouteError>)
        requires
            old(self).wf(),
        ensures
            final(self).wf(),
            final(self).all_tbl() == old(self).all_tbl(),
            forall|m2: Method| m2 != Method::Post ==> #[trigger] final(self).tbl(m2) == old(
                self,
            ).tbl(m2),
            !pattern_valid(path@) ==> r == Err::<(), RouteError>(RouteError::InvalidPattern)
                && final(self).tbl(Method::Post) == old(self).tbl(Method::Post),
            pattern_valid(path@) && contains_text(old(self).tbl(Method::Post), path@) ==> r
                == Err::<(), RouteError>(RouteError::DuplicatePattern) && final(self).tbl(
                Method::Post,
            ) == old(self).tbl(Method::Post),
            pattern_valid(path@) && !contains_text(old(self).tbl(Method::Post), path@) ==> r
                == Ok::<(), RouteError>(()) && final(self).tbl(Method::Post) == old(self).tbl(
                Method::Post,
            ).push(RouteView { pat: pattern_of(path@), text: path@, handler }),
    {
        self.add(path, Method::Post, handler)
    }

    /// Registers a handler at the pattern for the HTTP DELETE method.
    pub fn delete(&mut self, path: &str, handler: H) -> (r: Result<(), RouteError>)
        requires
            old(self).wf(),
        ensures
            final(self).wf(),
            final(self).all_tbl() == old(self).all_tbl(),
            forall|m2: Method| m2 != Method::Delete ==> #[trigger] final(self).tbl(m2) == old(
                self,
            ).tbl(m2),
            !pattern_valid(path@) ==> r == Err::<(), RouteError>(RouteError::InvalidPattern)
                && final(self).tbl(Method::Delete) == old(self).tbl(Method::Delete),
            pattern_valid(path@) && contains_text(old(self).tbl(Method::Delete), path@) ==> r
                == Err::<(), RouteError>(RouteError::DuplicatePattern) && final(self).tbl(
                Method::Delete,
            ) == old(self).tbl(Method::Delete),
            pattern_valid(path@) && !contains_text(old(self).tbl(Method::Delete), path@) ==> r
                == Ok::<(), RouteError>(()) && final(self).tbl(Method::Delete) == old(self).tbl(
                Method::Delete,
            ).push(RouteView { pat: pattern_of(path@), text: path@, handler }),
    {
        self.add(path, Method::Delete, handler)
    }

    /// Registers a handler at the pattern for the HTTP PUT method.
    pub fn put(&mut self, path: &str, handler: H) -> (r: Result<(), RouteError>)
        requires
            old(self).wf(),
        ensures
            final(self).wf(),
            final(self).all_tbl() == old(self).all_tbl(),
            forall|m2: Method| m2 != Method::Put ==> #[trigger] final(self).tbl(m2) == old(
                self,
            ).tbl(m2),
            !pattern_valid(path@) ==> r == Err::<(), RouteError>(RouteError::InvalidPattern)
                && final(self).tbl(Method::Put) == old(self).tbl(Method::Put),
            pattern_valid(path@) && contains_text(old(self).tbl(Method::Put), path@) ==> r == Err::<
                (),
                RouteError,
            >(RouteError::DuplicatePattern) && final(self).tbl(Method::Put) == old(self).tbl(
                Method::Put,
            ),
            pattern_valid(path@) && !contains_text(old(self).tbl(Method::Put), path@) ==> r == Ok::<
                (),
                RouteError,
            >(()) && final(self).tbl(Method::Put) == old(self).tbl(Method::Put).push(
                RouteView { pat: pattern_of(path@), text: path@, handler },
            ),
    {
        self.add(path, Method::Put, handler)
    }

    /// Registers a handler at the pattern for the HTTP PATCH method.
    pub fn patch(&mut self, path: &str, handler: H) -> (r: Result<(), RouteError>)
        requires
            old(self).wf(),
        ensures
            final(self).wf(),
            final(self).all_tbl() == old(self).all_tbl(),
            forall|m2: Method| m2 != Method::Patch ==> #[trigger] final(self).tbl(m2) == old(
                self,
            ).tbl(m2),
            !pattern_valid(path@) ==> r == Err::<(), RouteError>(RouteError::InvalidPattern)
                && final(self).tbl(Method::Patch) == old(self).tbl(Method::Patch),
            pattern_valid(path@) && contains_text(old(self).tbl(Method::Patch), path@) ==> r
                == Err::<(), RouteError>(RouteError::DuplicatePattern) && final(self).tbl(
                Method::Patch,
            ) == old(self).tbl(Method::Patch),
            pattern_valid(path@) && !contains_text(old(self).tbl(Method::Patch), path@) ==> r
                == Ok::<(), RouteError>(()) && final(self).tbl(Method::Patch) == old(self).tbl(
                Method::Patch,
            ).push(RouteView { pat: pattern_of(path@), text: path@, handler }),
    {
        self.add(path, Method::Patch, handler)
    }
}

impl<H> Default for Router<H> {
    /// A router with all tables empty.
    fn default() -> (r: Router<H>)
        ensures
            r.wf(),
            forall|m: Method| #[trigger] r.tbl(m) == Seq::<RouteView<H>>::empty(),
            r.all_tbl() == Seq::<RouteView<H>>::empty(),
    {
        Router::new()
    }
}

/// Law: a path that no table matches, neither any method's own table nor the
/// any-method table, is decided not-found, whatever the request's method.
pub proof fn lemma_unmatched_path_not_found<H>(r: &Router<H>, m: Method, path: Seq<Seq<char>>)
    requires
        forall|m2: Method| best_route(#[trigger] r.tbl(m2), path) < 0,
        best_route(r.all_tbl(), path) < 0,
    ensures
        r.decide(m, path) == Decision::NotFound,
    decreases (if m is Head {
        1int
    } else {
        0int
    }),
{
    if m is Head {
        lemma_unmatched_path_not_found(r, Method::Get, path);
    }
}

/// Law: a path matched only by tables of methods other than the request's
/// own, with the any-method table missing too (and, for a HEAD request, the
/// GET table missing as well), is decided method-not-allowed.
pub proof fn lemma_cross_method_not_allowed<H>(r: &Router<H>, m: Method, path: Seq<Seq<char>>)
    requires
        best_route(r.tbl(m), path) < 0,
        best_route(r.all_tbl(), path) < 0,
        m is Head ==> best_route(r.tbl(Method::Get), path) < 0,
        exists|m2: Method| m2 != m && best_route(#[trigger] r.tbl(m2), path) >= 0,
    ensures
        r.decide(m, path) == Decision::NotAllowed,
{
    let m2 = choose|m2: Method| m2 != m && best_route(#[trigger] r.tbl(m2), path) >= 0;
    assert(best_route(r.tbl(m2), path) >= 0);
    if m is Head {
        assert(m2 != Method::Get && best_route(r.tbl(m2), path) >= 0);
        assert(r.decide(Method::Get, path) == Decision::NotAllowed);
    } else {
        assert(r.decide(m, path) == Decision::NotAllowed);
    }
}

/// Law: a HEAD request that neither the HEAD table nor the any-method table
/// matches is decided exactly as the corresponding GET request: the same
/// handler wins with the same captures, or the same terminal response is
/// owed.
pub proof fn lemma_head_uses_get<H>(r: &Router<H>, path: Seq<Seq<char>>)
    requires
        best_route(r.tbl(Method::Head), path) < 0,
        best_route(r.all_tbl(), path) < 0,
    ensures
        r.decide(Method::Head, path) == r.decide(Method::Get, path),
{
}

/// Whether two dispatch outcomes agree in everything observable: the same
/// handler with equal captures, or responses with equal status and body.
pub open spec fn dispatch_equiv<H>(d1: Dispatch<'_, H>, d2: Dispatch<'_, H>) -> bool {
    match (d1, d2) {
        (
            Dispatch::Matched { handler: h1, params: p1 },
            Dispatch::Matched { handler: h2, params: p2 },
        ) => *h1 == *h2 && p1@ == p2@,
        (Dispatch::Respond { response: r1 }, Dispatch::Respond { response: r2 }) => r1.status
            == r2.status && r1.body.deep_view() == r2.body.deep_view(),
        _ => false,
    }
}

/// Law: dispatch is deterministic.  Two dispatch outcomes for the same
/// router, method and path agree in everything observable; since the router
/// is never mutated by dispatch, two calls with identical request content
/// and an unchanged route table produce identical results.
pub proof fn lemma_dispatch_deterministic<H>(
    r: &Router<H>,
    m: Method,
    path: Seq<Seq<char>>,
    d1: Dispatch<'_, H>,
    d2: Dispatch<'_, H>,
)
    requires
        r.dispatch_ok(m, path, d1),
        r.dispatch_ok(m, path, d2),
    ensures
        dispatch_equiv(d1, d2),
{
}

} // verus!

