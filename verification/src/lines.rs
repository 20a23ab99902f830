//! A model of line splitting: lines end at a line feed, and a carriage
//! return directly before the line feed is not part of the line's content.

use vstd::prelude::*;

verus! {

/// Position of the first line feed at or after `i`, or the end of the text.
pub open spec fn nl_end(t: Seq<char>, i: int) -> int
    decreases t.len() - i,
{
    if 0 <= i < t.len() && t[i] != '\n' {
        nl_end(t, i + 1)
    } else {
        i
    }
}

/// Position just after the last line feed before `i`, or the start of the
/// text.
pub open spec fn nl_start(t: Seq<char>, i: int) -> int
    decreases i,
{
    if 0 < i <= t.len() && t[i - 1] != '\n' {
        nl_start(t, i - 1)
    } else {
        i
    }
}

pub proof fn lemma_nl_end(t: Seq<char>, i: int)
    requires
        0 <= i <= t.len(),
    ensures
        i <= nl_end(t, i) <= t.len(),
        forall|k: int| i <= k < nl_end(t, i) ==> t[k] != '\n',
        nl_end(t, i) < t.len() ==> t[nl_end(t, i)] == '\n',
    decreases t.len() - i,
{
    if 0 <= i < t.len() && t[i] != '\n' {
        lemma_nl_end(t, i + 1);
    }
}

pub fn ex_nl_end(t: &Vec<char>, i: usize) -> (r: usize)
    requires
        i <= t.len(),
    ensures
        r == nl_end(t@, i as int),
        i <= r <= t.len(),
{
    let mut j: usize = i;
    while j < t.len() && t[j] != '\n'
        invariant
            i <= j <= t.len(),
            nl_end(t@, i as int) == nl_end(t@, j as int),
        decreases t.len() - j,
    {
        j += 1;
    }
    j
}

pub fn ex_nl_start(t: &Vec<char>, i: usize) -> (r: usize)
    requires
        i <= t.len(),
    ensures
        r == nl_start(t@, i as int),
        r <= i,
{
    let mut j: usize = i;
    while j > 0 && t[j - 1] != '\n'
        invariant
            j <= i <= t.len(),
            nl_start(t@, i as int) == nl_start(t@, j as int),
        decreases j,
    {
        j -= 1;
    }
    j
}

/// The lines of `t` starting at position `p`: split at line feeds, with a
/// carriage return before a line feed dropped, and no final empty line
/// after a trailing line feed.
pub open spec fn lines_from(t: Seq<char>, p: int) -> Seq<Seq<char>>
    decreases t.len() - p,
    via lines_from_decreases
{
    if p < 0 || p >= t.len() {
        Seq::empty()
    } else {
        let e = nl_end(t, p);
        let ce = if e < t.len() && e > p && t[e - 1] == '\r' {
            e - 1
        } else {
            e
        };
        seq![t.subrange(p, ce)] + (if e < t.len() {
            lines_from(t, e + 1)
        } else {
            Seq::<Seq<char>>::empty()
        })
    }
}

#[via_fn]
proof fn lines_from_decreases(t: Seq<char>, p: int) {
    if 0 <= p < t.len() {
        lemma_nl_end(t, p);
    }
}

/// The lines of the whole text.
pub open spec fn spec_lines(t: Seq<char>) -> Seq<Seq<char>> {
    lines_from(t, 0)
}

/// The bounds of every line: absolute start and content end (before any
/// carriage return that precedes the line feed).
pub fn line_bounds(t: &Vec<char>) -> (r: Vec<(usize, usize)>)
    ensures
        r@.len() == spec_lines(t@).len(),
        forall|k: int|
            0 <= k < r@.len() ==> (#[trigger] r@[k].0 as int) <= (r@[k].1 as int) <= t@.len()
                && t@.subrange(r@[k].0 as int, r@[k].1 as int) == spec_lines(t@)[k],
        forall|k: int|
            0 <= k < r@.len() ==> t@.subrange(#[trigger] r@[k].0 as int, r@[k].1 as int)
                == spec_lines(t@)[k],
{
    let mut r: Vec<(usize, usize)> = Vec::new();
    let mut p: usize = 0;
    loop
        invariant
            p <= t.len(),
            forall|k: int|
                0 <= k < r@.len() ==> (#[trigger] r@[k].0 as int) <= (r@[k].1 as int) <= t@.len(),
            spec_lines(t@) =~= Seq::new(
                r@.len() as nat,
                |k: int| t@.subrange(r@[k].0 as int, r@[k].1 as int),
            ) + lines_from(t@, p as int),
        ensures
            r@.len() == spec_lines(t@).len(),
            forall|k: int|
                0 <= k < r@.len() ==> (#[trigger] r@[k].0 as int) <= (r@[k].1 as int) <= t@.len(),
            forall|k: int|
                0 <= k < r@.len() ==> t@.subrange(#[trigger] r@[k].0 as int, r@[k].1 as int)
                    == spec_lines(t@)[k],
        decreases t.len() - p,
    {
        if p >= t.len() {
            proof {
                assert(lines_from(t@, p as int) =~= Seq::<Seq<char>>::empty());
                assert(spec_lines(t@) =~= Seq::new(
                    r@.len() as nat,
                    |k: int| t@.subrange(r@[k].0 as int, r@[k].1 as int),
                ));
                assert(forall|k: int|
                    0 <= k < r@.len() ==> t@.subrange(#[trigger] r@[k].0 as int, r@[k].1 as int)
                        == spec_lines(t@)[k]);
            }
            break;
        }
        let e = ex_nl_end(t, p);
        let ce: usize = if e < t.len() && e > p && t[e - 1] == '\r' {
            e - 1
        } else {
            e
        };
        let ghost old_r = r@;
        r.push((p, ce));
        proof {
            assert(r@ == old_r.push((p, ce)));
            assert(r@[r@.len() - 1] == (p, ce));
            assert(p <= ce <= t.len());
            assert(forall|k: int| 0 <= k < old_r.len() ==> r@[k] == old_r[k]);
        }
        let next: usize = if e < t.len() {
            e + 1
        } else {
            t.len()
        };
        proof {
            let f_old = Seq::new(old_r.len() as nat, |k: int|
                t@.subrange(old_r[k].0 as int, old_r[k].1 as int));
            let f_new = Seq::new(r@.len() as nat, |k: int|
                t@.subrange(r@[k].0 as int, r@[k].1 as int));
            assert(f_new =~= f_old + seq![t@.subrange(p as int, ce as int)]);
            if e < t.len() {
                assert(lines_from(t@, p as int) =~= seq![t@.subrange(p as int, ce as int)]
                    + lines_from(t@, e + 1));
            } else {
                assert(lines_from(t@, p as int) =~= seq![t@.subrange(p as int, ce as int)]
                    + lines_from(t@, next as int));
            }
            assert(f_old + seq![t@.subrange(p as int, ce as int)] + lines_from(t@, next as int)
                =~= f_old + (seq![t@.subrange(p as int, ce as int)] + lines_from(
                t@,
                next as int,
            )));
        }
        p = next;
    }
    r
}

/// Copy of one contiguous part of the text.
pub fn sub_vec(t: &Vec<char>, lo: usize, hi: usize) -> (r: Vec<char>)
    requires
        lo <= hi <= t.len(),
    ensures
        r@ == t@.subrange(lo as int, hi as int),
{
    let mut r: Vec<char> = Vec::new();
    let mut i: usize = lo;
    while i < hi
        invariant
            lo <= i <= hi <= t.len(),
            r@ == t@.subrange(lo as int, i as int),
        decreases hi - i,
    {
        r.push(t[i]);
        proof {
            assert(t@.subrange(lo as int, i + 1) =~= t@.subrange(lo as int, i as int).push(
                t@[i as int],
            ));
        }
        i += 1;
    }
    proof {
        assert(r@ =~= t@.subrange(lo as int, hi as int));
    }
    r
}

} // verus!
