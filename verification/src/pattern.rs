//! Route patterns: parsing a pattern string into segment matchers, matching a
//! split path against one pattern, and the specificity ranking used to pick a
//! winner when several patterns match.

use vstd::prelude::*;
use vstd::string::StrSliceExecFns;
use crate::params::{Capture, Params, lookup_pairs};
use crate::segments::{join_from, join_path, split_path, split_str};

verus! {

/// An error reported at registration time.
#[derive(Debug, Clone, Copy, PartialEq, Eq, Structural)]
pub enum RouteError {
    /// The pattern has no segments, or a `*` in a non-final position.
    InvalidPattern,
    /// The same pattern text is already registered in this table.
    DuplicatePattern,
}

/// The mathematical form of one pattern segment.
pub enum SpecSeg {
    /// Matches exactly one path segment equal to the text.
    Literal(Seq<char>),
    /// Matches exactly one path segment and binds it to the name.
    Named(Seq<char>),
    /// Matches all remaining path segments; only valid as the final segment.
    Wildcard,
}

/// One compiled pattern segment.
pub enum Segment {
    /// Matches exactly one path segment equal to the text.
    Literal(String),
    /// Matches exactly one path segment and binds it to the name.
    Named(String),
    /// Matches all remaining path segments; only valid as the final segment.
    Wildcard,
}

impl View for Segment {
    type V = SpecSeg;

    open spec fn view(&self) -> SpecSeg {
        match self {
            Segment::Literal(s) => SpecSeg::Literal(s@),
            Segment::Named(s) => SpecSeg::Named(s@),
            Segment::Wildcard => SpecSeg::Wildcard,
        }
    }
}

impl DeepView for Segment {
    type V = SpecSeg;

    open spec fn deep_view(&self) -> SpecSeg {
        self.view()
    }
}

/// True of the one piece, `*`, that denotes a wildcard.
pub open spec fn is_wild_piece(piece: Seq<char>) -> bool {
    piece.len() == 1 && piece[0] == '*'
}

/// The segment matcher that one non-empty piece of a pattern denotes.
pub open spec fn seg_of(piece: Seq<char>) -> SpecSeg {
    if is_wild_piece(piece) {
        SpecSeg::Wildcard
    } else if piece.len() > 0 && piece[0] == ':' {
        SpecSeg::Named(piece.skip(1))
    } else {
        SpecSeg::Literal(piece)
    }
}

/// The segment matchers denoted by a pattern string.
pub open spec fn pattern_of(text: Seq<char>) -> Seq<SpecSeg> {
    split_path(text).map_values(|piece: Seq<char>| seg_of(piece))
}

/// A pattern string is valid when it has at least one segment and any
/// wildcard stands in the final position.
pub open spec fn pattern_valid(text: Seq<char>) -> bool {
    let pat = pattern_of(text);
    &&& pat.len() > 0
    &&& forall|i: int| 0 <= i < pat.len() - 1 ==> !((#[trigger] pat[i]) is Wildcard)
}

/// A compiled route pattern: the original text and its segment matchers.
/// Parsed once at registration time; never re-parsed or mutated afterwards.
pub struct Pattern {
    pub text: String,
    pub segments: Vec<Segment>,
}

impl View for Pattern {
    type V = Seq<SpecSeg>;

    open spec fn view(&self) -> Seq<SpecSeg> {
        self.segments.deep_view()
    }
}

impl Pattern {
    /// The compiled segments are exactly those of the (valid) pattern text.
    pub open spec fn wf(&self) -> bool {
        &&& self@ == pattern_of(self.text@)
        &&& pattern_valid(self.text@)
    }
}

/// The compiled segment for one non-empty piece of a pattern string.
fn segment_of_piece(piece: &String) -> (seg: Segment)
    ensures
        seg@ == seg_of(piece@),
{
    let len = piece.as_str().unicode_len();
    if len == 1 && piece.as_str().get_char(0) == '*' {
        Segment::Wildcard
    } else if len > 0 && piece.as_str().get_char(0) == ':' {
        let name = piece.as_str().substring_char(1, len).to_owned();
        proof {
            assert(name@ =~= piece@.skip(1));
        }
        Segment::Named(name)
    } else {
        Segment::Literal(piece.clone())
    }
}

/// Compiles a pattern string, rejecting an empty pattern and a wildcard in a
/// non-final position.
pub fn parse_pattern(text: &str) -> (r: Result<Pattern, RouteError>)
    ensures
        r is Ok <==> pattern_valid(text@),
        r matches Ok(p) ==> p.wf() && p.text@ == text@,
        r matches Err(e) ==> e == RouteError::InvalidPattern,
{
    let pieces = split_str(text);
    let ghost pat = pattern_of(text@);
    proof {
        assert(pat.len() == pieces.deep_view().len());
    }
    if pieces.len() == 0 {
        return Err(RouteError::InvalidPattern);
    }
    let mut segments: Vec<Segment> = Vec::new();
    let mut i: usize = 0;
    while i < pieces.len()
        invariant
            i <= pieces@.len(),
            pieces.deep_view() == split_path(text@),
            pat == pattern_of(text@),
            pat.len() == pieces@.len(),
            segments.deep_view() == pat.take(i as int),
            forall|j: int| 0 <= j < i && j < pat.len() - 1 ==> !((#[trigger] pat[j]) is Wildcard),
        decreases pieces@.len() - i,
    {
        let seg = segment_of_piece(&pieces[i]);
        proof {
            assert(pieces.deep_view()[i as int] == pieces@[i as int]@);
            assert(seg@ == pat[i as int]);
        }
        if i + 1 < pieces.len() {
            if let Segment::Wildcard = seg {
                proof {
                    assert(pat[i as int] is Wildcard && 0 <= i < pat.len() - 1);
                }
                return Err(RouteError::InvalidPattern);
            }
        }
        let ghost old_segments = segments.deep_view();
        segments.push(seg);
        proof {
            assert(segments.deep_view() =~= old_segments.push(seg@));
            assert(old_segments.push(pat[i as int]) =~= pat.take(i + 1));
        }
        i = i + 1;
    }
    proof {
        assert(pat.take(pat.len() as int) =~= pat);
    }
    Ok(Pattern { text: text.to_owned(), segments })
}

/// True when the pattern ends in a wildcard segment.
pub open spec fn has_wildcard(pat: Seq<SpecSeg>) -> bool {
    pat.len() > 0 && pat.last() is Wildcard
}

/// The number of leading segments that must align one-to-one with path
/// segments: all of them, or all but a final wildcard.
pub open spec fn prefix_len(pat: Seq<SpecSeg>) -> int {
    if has_wildcard(pat) {
        pat.len() - 1
    } else {
        pat.len() as int
    }
}

/// Whether one non-wildcard pattern segment accepts one path segment.
pub open spec fn seg_matches(seg: SpecSeg, piece: Seq<char>) -> bool {
    match seg {
        SpecSeg::Literal(l) => l == piece,
        SpecSeg::Named(_) => true,
        SpecSeg::Wildcard => true,
    }
}

/// Whether a pattern matches a split path: the non-wildcard prefix aligns
/// position by position, and the path is exactly as long as the pattern
/// unless the pattern ends in a wildcard, which takes any remainder.
pub open spec fn pattern_matches(pat: Seq<SpecSeg>, path: Seq<Seq<char>>) -> bool {
    &&& if has_wildcard(pat) {
        path.len() >= prefix_len(pat)
    } else {
        path.len() == pat.len()
    }
    &&& forall|i: int| 0 <= i < prefix_len(pat) ==> seg_matches(#[trigger] pat[i], path[i])
}

/// The named captures taken from the first `n` pattern segments.
pub open spec fn capture_pairs_upto(pat: Seq<SpecSeg>, path: Seq<Seq<char>>, n: int) -> Seq<
    (Seq<char>, Seq<char>),
>
    decreases n,
{
    if n <= 0 {
        Seq::empty()
    } else {
        let rest = capture_pairs_upto(pat, path, n - 1);
        match pat[n - 1] {
            SpecSeg::Named(name) => rest.push((name, path[n - 1])),
            _ => rest,
        }
    }
}

/// The named captures of a successful match, in pattern order.
pub open spec fn capture_pairs(pat: Seq<SpecSeg>, path: Seq<Seq<char>>) -> Seq<
    (Seq<char>, Seq<char>),
> {
    capture_pairs_upto(pat, path, prefix_len(pat))
}

/// The wildcard capture of a successful match: the path segments beyond the
/// pattern's prefix, re-joined with `/`; absent unless the pattern ends in a
/// wildcard.
pub open spec fn wildcard_capture(pat: Seq<SpecSeg>, path: Seq<Seq<char>>) -> Option<Seq<char>> {
    if has_wildcard(pat) {
        Some(join_path(path.skip(prefix_len(pat))))
    } else {
        None
    }
}

/// The captures taken from the first `k` pattern segments do not hold a
/// name that no named segment among them bears.
proof fn lemma_captures_upto_absent(
    pat: Seq<SpecSeg>,
    path: Seq<Seq<char>>,
    k: int,
    name: Seq<char>,
)
    requires
        forall|j: int| 0 <= j < k ==> pat[j] != SpecSeg::Named(name),
    ensures
        lookup_pairs(capture_pairs_upto(pat, path, k), name) is None,
    decreases k,
{
    if k > 0 {
        lemma_captures_upto_absent(pat, path, k - 1, name);
        match pat[k - 1] {
            SpecSeg::Named(nm) => {
                crate::params::lemma_lookup_push(
                    capture_pairs_upto(pat, path, k - 1),
                    (nm, path[k - 1]),
                    name,
                );
                assert(nm != name);
            },
            _ => {},
        }
    }
}

/// Looking a name up in the captures taken from the first `k` pattern
/// segments yields the path segment aligned with the first named segment
/// bearing it.
proof fn lemma_captures_upto_aligned(
    pat: Seq<SpecSeg>,
    path: Seq<Seq<char>>,
    k: int,
    i: int,
    name: Seq<char>,
)
    requires
        0 <= i < k,
        pat[i] == SpecSeg::Named(name),
        forall|j: int| 0 <= j < i ==> pat[j] != SpecSeg::Named(name),
    ensures
        lookup_pairs(capture_pairs_upto(pat, path, k), name) == Some(path[i]),
    decreases k,
{
    if i == k - 1 {
        lemma_captures_upto_absent(pat, path, k - 1, name);
        crate::params::lemma_lookup_push(
            capture_pairs_upto(pat, path, k - 1),
            (name, path[k - 1]),
            name,
        );
    } else {
        lemma_captures_upto_aligned(pat, path, k - 1, i, name);
        match pat[k - 1] {
            SpecSeg::Named(nm) => {
                crate::params::lemma_lookup_push(
                    capture_pairs_upto(pat, path, k - 1),
                    (nm, path[k - 1]),
                    name,
                );
            },
            _ => {},
        }
    }
}

/// Law: the captures of a match align with the pattern.  If the first named
/// segment bearing `name` stands at position `i` of the pattern's prefix,
/// looking `name` up in the captures yields exactly the path segment at
/// position `i`.
pub proof fn lemma_captures_aligned(
    pat: Seq<SpecSeg>,
    path: Seq<Seq<char>>,
    i: int,
    name: Seq<char>,
)
    requires
        0 <= i < prefix_len(pat),
        pat[i] == SpecSeg::Named(name),
        forall|j: int| 0 <= j < i ==> pat[j] != SpecSeg::Named(name),
    ensures
        lookup_pairs(capture_pairs(pat, path), name) == Some(path[i]),
{
    lemma_captures_upto_aligned(pat, path, prefix_len(pat), i, name);
}

/// Law: a name that no named segment of the pattern's prefix bears is not
/// captured.
pub proof fn lemma_captures_only_named(pat: Seq<SpecSeg>, path: Seq<Seq<char>>, name: Seq<char>)
    requires
        forall|j: int| 0 <= j < prefix_len(pat) ==> pat[j] != SpecSeg::Named(name),
    ensures
        lookup_pairs(capture_pairs(pat, path), name) is None,
{
    lemma_captures_upto_absent(pat, path, prefix_len(pat), name);
}

/// Matches one compiled pattern against a split path, returning the captures
/// of the match, or `None` when the pattern does not match.
pub fn match_pattern(p: &Pattern, path: &Vec<String>) -> (r: Option<Params>)
    requires
        p.wf(),
    ensures
        r is Some <==> pattern_matches(p@, path.deep_view()),
        r matches Some(params) ==> params@.pairs == capture_pairs(p@, path.deep_view())
            && params@.wildcard == wildcard_capture(p@, path.deep_view()),
{
    let ghost pat = p@;
    let ghost pathv = path.deep_view();
    let n = p.segments.len();
    let wild = match &p.segments[n - 1] {
        Segment::Wildcard => true,
        _ => false,
    };
    proof {
        assert(p.segments.deep_view()[n - 1] == p.segments@[n - 1]@);
        assert(wild == has_wildcard(pat));
    }
    let prefix = if wild {
        n - 1
    } else {
        n
    };
    if wild {
        if path.len() < prefix {
            return None;
        }
    } else {
        if path.len() != n {
            return None;
        }
    }
    let mut captures: Vec<Capture> = Vec::new();
    let mut i: usize = 0;
    while i < prefix
        invariant
            p.wf(),
            pat == p@,
            pathv == path.deep_view(),
            n == pat.len(),
            prefix == prefix_len(pat),
            i <= prefix,
            pathv.len() >= prefix,
            forall|j: int| 0 <= j < i ==> seg_matches(#[trigger] pat[j], pathv[j]),
            Seq::new(captures@.len(), |k: int| captures@[k]@) == capture_pairs_upto(
                pat,
                pathv,
                i as int,
            ),
        decreases prefix - i,
    {
        let ghost caps_view = Seq::new(captures@.len(), |k: int| captures@[k]@);
        proof {
            assert(p.segments.deep_view()[i as int] == p.segments@[i as int]@);
            assert(pathv[i as int] == path@[i as int]@);
        }
        match &p.segments[i] {
            Segment::Literal(l) => {
                if !(*l == path[i]) {
                    proof {
                        assert(!seg_matches(pat[i as int], pathv[i as int]));
                    }
                    return None;
                }
            },
            Segment::Named(name) => {
                captures.push(Capture { name: name.clone(), value: path[i].clone() });
                proof {
                    assert(Seq::new(captures@.len(), |k: int| captures@[k]@) =~= caps_view.push(
                        (name@, pathv[i as int]),
                    ));
                }
            },
            Segment::Wildcard => {
                proof {
                    assert(pat[i as int] is Wildcard);
                    if wild {
                        assert(0 <= i < pat.len() - 1);
                        assert(!pattern_valid(p.text@));
                    } else {
                        assert(!(pat.last() is Wildcard));
                        if i < n - 1 {
                            assert(!pattern_valid(p.text@));
                        }
                        assert(false);
                    }
                }
                return None;
            },
        }
        i = i + 1;
    }
    let wildcard = if wild {
        Some(join_from(path, prefix))
    } else {
        None
    };
    let r = Params { captures, wildcard };
    proof {
        assert(pattern_matches(pat, pathv));
        assert(r@.pairs == capture_pairs(pat, pathv));
        assert(r@.wildcard == wildcard_capture(pat, pathv));
    }
    Some(r)
}

/// How many of the pattern's segments are literals.
pub open spec fn literal_count(pat: Seq<SpecSeg>) -> int
    decreases pat.len(),
{
    if pat.len() == 0 {
        0
    } else {
        literal_count(pat.drop_last()) + if pat.last() is Literal {
            1int
        } else {
            0int
        }
    }
}

/// How many of the pattern's segments are named parameters.
pub open spec fn named_count(pat: Seq<SpecSeg>) -> int
    decreases pat.len(),
{
    if pat.len() == 0 {
        0
    } else {
        named_count(pat.drop_last()) + if pat.last() is Named {
            1int
        } else {
            0int
        }
    }
}

/// The specificity ranking: more literal segments beat fewer; with equal
/// literal counts, fewer named parameters beat more; with both equal, an
/// exact pattern beats a wildcard pattern.  Remaining ties are broken by
/// registration order.
pub open spec fn more_specific(a: Seq<SpecSeg>, b: Seq<SpecSeg>) -> bool {
    ||| literal_count(a) > literal_count(b)
    ||| (literal_count(a) == literal_count(b) && named_count(a) < named_count(b))
    ||| (literal_count(a) == literal_count(b) && named_count(a) == named_count(b)
        && !has_wildcard(a) && has_wildcard(b))
}

/// The literal count, named count, and wildcard flag of a compiled pattern.
fn specificity(p: &Pattern) -> (r: (usize, usize, bool))
    ensures
        r.0 == literal_count(p@),
        r.1 == named_count(p@),
        r.2 == has_wildcard(p@),
{
    let ghost pat = p@;
    let n = p.segments.len();
    let mut lits: usize = 0;
    let mut named: usize = 0;
    let mut i: usize = 0;
    while i < n
        invariant
            pat == p@,
            n == pat.len(),
            i <= n,
            lits + named <= i,
            lits == literal_count(pat.take(i as int)),
            named == named_count(pat.take(i as int)),
        decreases n - i,
    {
        let ghost t1 = pat.take(i + 1);
        proof {
            assert(t1.drop_last() =~= pat.take(i as int));
            assert(t1.last() == pat[i as int]);
            assert(p.segments.deep_view()[i as int] == p.segments@[i as int]@);
        }
        match &p.segments[i] {
            Segment::Literal(_) => {
                lits = lits + 1;
            },
            Segment::Named(_) => {
                named = named + 1;
            },
            Segment::Wildcard => {
            },
        }
        i = i + 1;
    }
    let wild = if n > 0 {
        match &p.segments[n - 1] {
            Segment::Wildcard => true,
            _ => false,
        }
    } else {
        false
    };
    proof {
        assert(pat.take(n as int) =~= pat);
        if n > 0 {
            assert(p.segments.deep_view()[n - 1] == p.segments@[n - 1]@);
        }
    }
    (lits, named, wild)
}

/// Whether pattern `a` ranks strictly above pattern `b`.
pub fn is_more_specific(a: &Pattern, b: &Pattern) -> (r: bool)
    ensures
        r == more_specific(a@, b@),
{
    let (la, na, wa) = specificity(a);
    let (lb, nb, wb) = specificity(b);
    if la != lb {
        la > lb
    } else if na != nb {
        na < nb
    } else {
        !wa && wb
    }
}

} // verus!
