//! Route parameters extracted from a path that matched a route pattern: the
//! named captures, in pattern order, and the optional wildcard capture.

use vstd::prelude::*;

verus! {

/// One named capture: the parameter name and the path segment it matched.
pub struct Capture {
    pub name: String,
    pub value: String,
}

/// The mathematical content of a [`Params`] value.
pub struct ParamsView {
    /// The (name, value) pairs, in the order of the pattern's named segments.
    pub pairs: Seq<(Seq<char>, Seq<char>)>,
    /// The wildcard capture, if the winning pattern ended in `*`.
    pub wildcard: Option<Seq<char>>,
}

/// Captures produced by one successful match; owned, independent of the path
/// string they were copied from.
pub struct Params {
    pub captures: Vec<Capture>,
    pub wildcard: Option<String>,
}

impl View for Capture {
    type V = (Seq<char>, Seq<char>);

    open spec fn view(&self) -> (Seq<char>, Seq<char>) {
        (self.name@, self.value@)
    }
}

impl View for Params {
    type V = ParamsView;

    open spec fn view(&self) -> ParamsView {
        ParamsView {
            pairs: Seq::new(self.captures@.len(), |i: int| self.captures@[i]@),
            wildcard: match self.wildcard {
                Some(s) => Some(s@),
                None => None,
            },
        }
    }
}

/// The value of the first pair whose name is `name`, if any.
pub open spec fn lookup_pairs(pairs: Seq<(Seq<char>, Seq<char>)>, name: Seq<char>) -> Option<
    Seq<char>,
>
    decreases pairs.len(),
{
    if pairs.len() == 0 {
        None
    } else if pairs[0].0 == name {
        Some(pairs[0].1)
    } else {
        lookup_pairs(pairs.skip(1), name)
    }
}

/// Appending a pair changes a lookup only where no earlier pair already
/// bears the name.
pub proof fn lemma_lookup_push(
    pairs: Seq<(Seq<char>, Seq<char>)>,
    p: (Seq<char>, Seq<char>),
    name: Seq<char>,
)
    ensures
        lookup_pairs(pairs.push(p), name) == if lookup_pairs(pairs, name) is Some {
            lookup_pairs(pairs, name)
        } else if p.0 == name {
            Some(p.1)
        } else {
            None::<Seq<char>>
        },
    decreases pairs.len(),
{
    if pairs.len() == 0 {
        assert(pairs.push(p)[0] == p);
        assert(pairs.push(p).skip(1) =~= Seq::<(Seq<char>, Seq<char>)>::empty());
        assert(lookup_pairs(Seq::<(Seq<char>, Seq<char>)>::empty(), name) is None);
    } else {
        assert(pairs.push(p)[0] == pairs[0]);
        assert(pairs.push(p).skip(1) =~= pairs.skip(1).push(p));
        lemma_lookup_push(pairs.skip(1), p, name);
    }
}

impl Params {
    /// A capture set with no named captures and no wildcard.
    pub fn empty() -> (r: Params)
        ensures
            r@.pairs == Seq::<(Seq<char>, Seq<char>)>::empty(),
            r@.wildcard is None,
    {
        let r = Params { captures: Vec::new(), wildcard: None };
        proof {
            assert(r@.pairs =~= Seq::<(Seq<char>, Seq<char>)>::empty());
        }
        r
    }

    /// The value captured for the named parameter `name`, if any.
    pub fn get<'a>(&'a self, name: &str) -> (r: Option<&'a str>)
        ensures
            match r {
                Some(v) => lookup_pairs(self@.pairs, name@) == Some(v@),
                None => lookup_pairs(self@.pairs, name@) is None,
            },
    {
        let wanted: String = name.to_owned();
        let ghost pairs = self@.pairs;
        proof {
            assert(pairs.skip(0) =~= pairs);
        }
        let mut i: usize = 0;
        while i < self.captures.len()
            invariant
                i <= self.captures@.len(),
                pairs == self@.pairs,
                wanted@ == name@,
                pairs.len() == self.captures@.len(),
                forall|j: int| 0 <= j < pairs.len() ==> #[trigger] pairs[j] == self.captures@[j]@,
                lookup_pairs(pairs, name@) == lookup_pairs(pairs.skip(i as int), name@),
            decreases self.captures@.len() - i,
        {
            let ghost rest = pairs.skip(i as int);
            proof {
                assert(rest[0] == pairs[i as int]);
                assert(rest.skip(1) =~= pairs.skip(i + 1));
            }
            if self.captures[i].name == wanted {
                return Some(self.captures[i].value.as_str());
            }
            i = i + 1;
        }
        proof {
            assert(pairs.skip(i as int) =~= Seq::<(Seq<char>, Seq<char>)>::empty());
        }
        None
    }

    /// The wildcard capture, if the winning pattern ended in `*`.
    pub fn wildcard<'a>(&'a self) -> (r: Option<&'a str>)
        ensures
            match r {
                Some(v) => self@.wildcard == Some(v@),
                None => self@.wildcard is None,
            },
    {
        match &self.wildcard {
            Some(s) => Some(s.as_str()),
            None => None,
        }
    }
}

} // verus!
