//! Splitting a path or pattern string into its non-empty `/`-separated
//! segments, and re-joining segments with `/`.

use vstd::prelude::*;
use vstd::string::StrSliceExecFns;
use vstd::string::StringExecFns;

verus! {

/// The non-empty `/`-separated pieces of `s`, in order.  Empty pieces
/// (leading, trailing, or doubled slashes) contribute nothing.
pub open spec fn split_path(s: Seq<char>) -> Seq<Seq<char>>
    decreases s.len(),
{
    if s.len() == 0 {
        Seq::empty()
    } else {
        let init = s.drop_last();
        let c = s.last();
        let prev = split_path(init);
        if c == '/' {
            prev
        } else if init.len() == 0 || init.last() == '/' {
            prev.push(seq![c])
        } else {
            prev.update(prev.len() - 1, prev.last().push(c))
        }
    }
}

/// Splits `s` on `/`, returning its non-empty pieces as owned strings.
pub fn split_str(s: &str) -> (segs: Vec<String>)
    ensures
        segs.deep_view() == split_path(s@),
{
    let n = s.unicode_len();
    let mut segs: Vec<String> = Vec::new();
    let mut start: usize = 0;
    let mut i: usize = 0;
    while i < n
        invariant
            n == s@.len(),
            start <= i <= n,
            forall|j: int| start <= j < i ==> s@[j] != '/',
            start == i ==> split_path(s@.take(i as int)) == segs.deep_view() && (i == 0 || s@[
                i - 1
            ] == '/'),
            start < i ==> split_path(s@.take(i as int)) == segs.deep_view().push(
                s@.subrange(start as int, i as int),
            ),
        decreases n - i,
    {
        let ghost t0 = s@.take(i as int);
        let ghost t1 = s@.take(i + 1 as int);
        proof {
            assert(t1.drop_last() =~= t0);
            assert(t1.last() == s@[i as int]);
        }
        let c = s.get_char(i);
        if c == '/' {
            if start < i {
                let piece = s.substring_char(start, i);
                let owned = piece.to_owned();
                let ghost old_segs = segs.deep_view();
                segs.push(owned);
                proof {
                    assert(segs.deep_view() =~= old_segs.push(
                        s@.subrange(start as int, i as int),
                    ));
                }
            }
            start = i + 1;
        } else {
            if start == i {
                proof {
                    assert(split_path(t1) == split_path(t0).push(seq![c]));
                    assert(seq![c] =~= s@.subrange(i as int, i + 1));
                }
            } else {
                proof {
                    let prev = split_path(t0);
                    assert(prev == segs.deep_view().push(s@.subrange(start as int, i as int)));
                    assert(prev.len() > 0);
                    assert(t0.len() > 0 && t0.last() == s@[i - 1]);
                    assert(s@[i - 1] != '/');
                    assert(split_path(t1) == prev.update(prev.len() - 1, prev.last().push(c)));
                    assert(prev.last() == s@.subrange(start as int, i as int));
                    assert(prev.last().push(c) =~= s@.subrange(start as int, i + 1));
                    assert(prev.update(prev.len() - 1, prev.last().push(c)) =~= segs.deep_view()
                        .push(s@.subrange(start as int, i + 1)));
                }
            }
        }
        i = i + 1;
    }
    proof {
        assert(s@.take(n as int) =~= s@);
    }
    if start < n {
        let piece = s.substring_char(start, n);
        let owned = piece.to_owned();
        let ghost old_segs = segs.deep_view();
        segs.push(owned);
        proof {
            assert(segs.deep_view() =~= old_segs.push(s@.subrange(start as int, n as int)));
        }
    }
    segs
}

/// The segments of `segs`, in order, joined with a single `/` between
/// neighbours: `["a", "b"]` becomes `"a/b"`.
pub open spec fn join_path(segs: Seq<Seq<char>>) -> Seq<char>
    decreases segs.len(),
{
    if segs.len() == 0 {
        Seq::empty()
    } else if segs.len() == 1 {
        segs[0]
    } else {
        join_path(segs.drop_last()) + seq!['/'] + segs.last()
    }
}

/// Joins the strings in `segs[from..]` with `/` between neighbours.
pub fn join_from(segs: &Vec<String>, from: usize) -> (r: String)
    requires
        from <= segs@.len(),
    ensures
        r@ == join_path(segs.deep_view().skip(from as int)),
{
    let mut r = String::new();
    let mut i: usize = from;
    while i < segs.len()
        invariant
            from <= i <= segs@.len(),
            r@ == join_path(segs.deep_view().subrange(from as int, i as int)),
        decreases segs@.len() - i,
    {
        let ghost done = segs.deep_view().subrange(from as int, i as int);
        let ghost next = segs.deep_view().subrange(from as int, i + 1);
        proof {
            assert(next.drop_last() =~= done);
            assert(next.last() == segs.deep_view()[i as int]);
        }
        if i > from {
            r.append("/");
        }
        r.append(segs[i].as_str());
        proof {
            if i > from {
                assert(r@ == join_path(done) + "/"@ + segs.deep_view()[i as int]);
                assert("/"@ =~= seq!['/']) by {
                    reveal_strlit("/");
                }
                assert(r@ == join_path(next));
            } else {
                assert(done.len() == 0);
                assert(join_path(done) =~= Seq::<char>::empty());
                assert(r@ =~= segs.deep_view()[i as int]);
                assert(next.len() == 1);
                assert(join_path(next) == next[0]);
            }
        }
        i = i + 1;
    }
    proof {
        assert(segs.deep_view().subrange(from as int, segs.deep_view().len() as int)
            =~= segs.deep_view().skip(from as int));
    }
    r
}

} // verus!
