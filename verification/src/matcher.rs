//! A table of compiled patterns for one method scope, and the selection of
//! the best-matching pattern for a path.

use vstd::prelude::*;
use crate::params::Params;
use crate::pattern::{
    Pattern, RouteError, SpecSeg, capture_pairs, is_more_specific, match_pattern, more_specific,
    parse_pattern, pattern_matches, pattern_of, pattern_valid, wildcard_capture,
};
use crate::segments::{split_path, split_str};

verus! {

/// One registered route: a compiled pattern and its handler.
pub struct Route<H> {
    pub pattern: Pattern,
    pub handler: H,
}

/// The mathematical content of one registered route.
pub struct RouteView<H> {
    /// The pattern's segment matchers.
    pub pat: Seq<SpecSeg>,
    /// The pattern's original text.
    pub text: Seq<char>,
    /// The handler registered for the pattern.
    pub handler: H,
}

/// A collection of compiled patterns for one method scope.  Handlers are
/// opaque values of type `H`; the matcher only stores and returns them.
pub struct Matcher<H> {
    pub routes: Vec<Route<H>>,
}

impl<H> View for Matcher<H> {
    type V = Seq<RouteView<H>>;

    open spec fn view(&self) -> Seq<RouteView<H>> {
        Seq::new(
            self.routes@.len(),
            |i: int|
                RouteView {
                    pat: self.routes@[i].pattern@,
                    text: self.routes@[i].pattern.text@,
                    handler: self.routes@[i].handler,
                },
        )
    }
}

/// A successful match: the winning route's handler and the captures.
pub struct Match<'a, H> {
    pub handler: &'a H,
    pub params: Params,
}

/// Whether some route in the table was registered under exactly this text.
pub open spec fn contains_text<H>(routes: Seq<RouteView<H>>, text: Seq<char>) -> bool {
    exists|j: int| 0 <= j < routes.len() && (#[trigger] routes[j]).text == text
}

/// The index of the winner among the first `n` routes, or `-1` when none of
/// them matches: the first route that matches the path and that no other
/// matching route among the first `n` strictly beats on specificity.
pub open spec fn best_of<H>(
    routes: Seq<RouteView<H>>,
    path: Seq<Seq<char>>,
    n: int,
) -> int
    decreases n,
{
    if n <= 0 {
        -1
    } else {
        let prev = best_of(routes, path, n - 1);
        if !pattern_matches(routes[n - 1].pat, path) {
            prev
        } else if prev < 0 {
            n - 1
        } else if more_specific(routes[n - 1].pat, routes[prev].pat) {
            n - 1
        } else {
            prev
        }
    }
}

/// The index of the winning route for this path, or `-1` when none matches.
pub open spec fn best_route<H>(routes: Seq<RouteView<H>>, path: Seq<Seq<char>>) -> int {
    best_of(routes, path, routes.len() as int)
}

/// The winner is a matching route, it exists exactly when some route
/// matches, no matching route strictly beats it, and it strictly beats every
/// matching route registered before it (the stable tie-break).
pub proof fn lemma_best_route_selects<H>(routes: Seq<RouteView<H>>, path: Seq<Seq<char>>)
    ensures
        (exists|i: int| 0 <= i < routes.len() && pattern_matches((#[trigger] routes[i]).pat, path))
            <==> best_route(routes, path) >= 0,
        best_route(routes, path) >= 0 ==> 0 <= best_route(routes, path) < routes.len()
            && pattern_matches(routes[best_route(routes, path)].pat, path),
        forall|j: int|
            0 <= j < routes.len() && pattern_matches((#[trigger] routes[j]).pat, path)
                ==> !more_specific(routes[j].pat, routes[best_route(routes, path)].pat),
        forall|j: int|
            0 <= j < routes.len() && pattern_matches((#[trigger] routes[j]).pat, path) && j
                < best_route(routes, path) ==> more_specific(
                routes[best_route(routes, path)].pat,
                routes[j].pat,
            ),
{
    lemma_best_of_selects(routes, path, routes.len() as int);
}

proof fn lemma_best_of_selects<H>(routes: Seq<RouteView<H>>, path: Seq<Seq<char>>, n: int)
    requires
        0 <= n <= routes.len(),
    ensures
        (exists|i: int| 0 <= i < n && pattern_matches((#[trigger] routes[i]).pat, path)) <==> best_of(
            routes,
            path,
            n,
        ) >= 0,
        best_of(routes, path, n) >= 0 ==> 0 <= best_of(routes, path, n) < n && pattern_matches(
            routes[best_of(routes, path, n)].pat,
            path,
        ),
        forall|j: int|
            0 <= j < n && pattern_matches((#[trigger] routes[j]).pat, path) ==> !more_specific(
                routes[j].pat,
                routes[best_of(routes, path, n)].pat,
            ),
        forall|j: int|
            0 <= j < n && pattern_matches((#[trigger] routes[j]).pat, path) && j < best_of(
                routes,
                path,
                n,
            ) ==> more_specific(routes[best_of(routes, path, n)].pat, routes[j].pat),
    decreases n,
{
    if n > 0 {
        lemma_best_of_selects(routes, path, n - 1);
    }
}

impl<H> Matcher<H> {
    /// Every stored pattern is well formed.
    pub open spec fn wf(&self) -> bool {
        forall|i: int| 0 <= i < self.routes@.len() ==> (#[trigger] self.routes@[i]).pattern.wf()
    }

    /// An empty table.
    pub fn new() -> (r: Matcher<H>)
        ensures
            r@ == Seq::<RouteView<H>>::empty(),
            r.wf(),
    {
        let r = Matcher { routes: Vec::new() };
        proof {
            assert(r@ =~= Seq::<RouteView<H>>::empty());
        }
        r
    }

    /// Registers a pattern with its handler.  Rejects an invalid pattern and
    /// an exact duplicate of an already-registered pattern text, leaving the
    /// table unchanged; otherwise appends the compiled route.
    pub fn add(&mut self, pattern_text: &str, handler: H) -> (r: Result<(), RouteError>)
        ensures
            old(self).wf() ==> final(self).wf(),
            !pattern_valid(pattern_text@) ==> r == Err::<(), RouteError>(
                RouteError::InvalidPattern,
            ) && final(self)@ == old(self)@,
            pattern_valid(pattern_text@) && contains_text(old(self)@, pattern_text@) ==> r == Err::<
                (),
                RouteError,
            >(RouteError::DuplicatePattern) && final(self)@ == old(self)@,
            pattern_valid(pattern_text@) && !contains_text(old(self)@, pattern_text@) ==> r == Ok::<
                (),
                RouteError,
            >(()) && final(self)@ == old(self)@.push(
                RouteView { pat: pattern_of(pattern_text@), text: pattern_text@, handler },
            ),
    {
        let pattern = match parse_pattern(pattern_text) {
            Ok(p) => p,
            Err(e) => {
                return Err(e);
            },
        };
        let mut j: usize = 0;
        while j < self.routes.len()
            invariant
                *self == *old(self),
                pattern_valid(pattern_text@),
                pattern.wf(),
                j <= self.routes@.len(),
                forall|k: int| 0 <= k < j ==> (#[trigger] self@[k]).text != pattern_text@,
                pattern.text@ == pattern_text@,
            decreases self.routes@.len() - j,
        {
            proof {
                assert(self@[j as int].text == self.routes@[j as int].pattern.text@);
            }
            if self.routes[j].pattern.text == pattern.text {
                return Err(RouteError::DuplicatePattern);
            }
            j = j + 1;
        }
        let ghost old_view = self@;
        let ghost gpattern = pattern;
        self.routes.push(Route { pattern, handler });
        proof {
            assert(self@ =~= old_view.push(
                RouteView { pat: pattern_of(pattern_text@), text: pattern_text@, handler },
            ));
            if old(self).wf() {
                assert forall|i: int|
                    0 <= i < self.routes@.len() implies (#[trigger] self.routes@[i]).pattern.wf() by {
                    if i < self.routes@.len() - 1 {
                        assert(self.routes@[i] == old(self).routes@[i]);
                    } else {
                        assert(self.routes@[i].pattern == gpattern);
                    }
                }
            }
        }
        Ok(())
    }

    /// The best match among the registered patterns for an already-split
    /// path: the most specific matching pattern, earliest registration
    /// breaking ties, with its captures.
    pub fn best_match_segs<'a>(&'a self, segs: &Vec<String>) -> (r: Option<Match<'a, H>>)
        requires
            self.wf(),
        ensures
            ({
                let b = best_route(self@, segs.deep_view());
                match r {
                    None => b < 0,
                    Some(m) => b >= 0 && *m.handler == self@[b].handler && m.params@.pairs
                        == capture_pairs(self@[b].pat, segs.deep_view()) && m.params@.wildcard
                        == wildcard_capture(self@[b].pat, segs.deep_view()),
                }
            }),
    {
        let ghost pathv = segs.deep_view();
        let mut best: Option<(usize, Params)> = None;
        let mut i: usize = 0;
        while i < self.routes.len()
            invariant
                self.wf(),
                pathv == segs.deep_view(),
                i <= self.routes@.len(),
                match best {
                    None => best_of(self@, pathv, i as int) < 0,
                    Some((b, ref params)) => b < i && best_of(self@, pathv, i as int) == b
                        && params@.pairs == capture_pairs(self@[b as int].pat, pathv)
                        && params@.wildcard == wildcard_capture(self@[b as int].pat, pathv),
                },
            decreases self.routes@.len() - i,
        {
            proof {
                assert(self@[i as int].pat == self.routes@[i as int].pattern@);
                assert(self.routes@[i as int].pattern.wf());
            }
            if let Some(params) = match_pattern(&self.routes[i].pattern, segs) {
                let replace = match &best {
                    None => true,
                    Some((b, _)) => is_more_specific(
                        &self.routes[i].pattern,
                        &self.routes[*b].pattern,
                    ),
                };
                if replace {
                    best = Some((i, params));
                }
            }
            i = i + 1;
        }
        match best {
            None => None,
            Some((b, params)) => Some(Match { handler: &self.routes[b].handler, params }),
        }
    }

    /// The best match among the registered patterns for a path string.
    pub fn best_match<'a>(&'a self, path: &str) -> (r: Option<Match<'a, H>>)
        requires
            self.wf(),
        ensures
            ({
                let b = best_route(self@, split_path(path@));
                match r {
                    None => b < 0,
                    Some(m) => b >= 0 && *m.handler == self@[b].handler && m.params@.pairs
                        == capture_pairs(self@[b].pat, split_path(path@)) && m.params@.wildcard
                        == wildcard_capture(self@[b].pat, split_path(path@)),
                }
            }),
    {
        let segs = split_str(path);
        self.best_match_segs(&segs)
    }
}

} // verus!
