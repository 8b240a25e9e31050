use vstd::prelude::*;
use crate::model::{is_rect, mirrored, rows_of, transposed, upended, width_of};

verus! {

/// Reverses the order of the elements of `v`, moving them.
fn reverse_vec<T>(v: &mut Vec<T>)
    ensures
        final(v)@ == old(v)@.reverse(),
{
    let ghost s = v@;
    let mut out: Vec<T> = Vec::new();
    while v.len() > 0
        invariant
            v@ == s.take(v@.len() as int),
            v@.len() <= s.len(),
            out@ == Seq::new((s.len() - v@.len()) as nat, |i: int| s[s.len() - 1 - i]),
        decreases v@.len(),
    {
        let x = v.pop().unwrap();
        out.push(x);
        assert(out@ =~= Seq::new((s.len() - v@.len()) as nat, |i: int| s[s.len() - 1 - i]));
        assert(v@ =~= s.take(v@.len() as int));
    }
    assert(out@ =~= s.reverse());
    *v = out;
}

/// Reverses each row of `pattern` (mirror across the vertical axis).
pub(crate) fn reverse_rows<T>(pattern: &mut Vec<Vec<T>>)
    ensures
        rows_of(final(pattern)@) == mirrored(rows_of(old(pattern)@)),
{
    let ghost g = rows_of(pattern@);
    let n = pattern.len();
    let mut i: usize = 0;
    while i < n
        invariant
            n == pattern@.len(),
            g.len() == n,
            i <= n,
            forall|k: int| 0 <= k < i ==> (#[trigger] pattern@[k])@ == g[k].reverse(),
            forall|k: int| i <= k < n ==> (#[trigger] pattern@[k])@ == g[k],
        decreases n - i,
    {
        reverse_vec(&mut pattern[i]);
        i += 1;
    }
    assert(rows_of(pattern@) =~= mirrored(g));
}

/// Reverses the order of the rows of `pattern` (mirror across the horizontal axis).
pub(crate) fn reverse_cols<T>(pattern: &mut Vec<Vec<T>>)
    ensures
        rows_of(final(pattern)@) == upended(rows_of(old(pattern)@)),
{
    let ghost g = rows_of(pattern@);
    reverse_vec(pattern);
    assert(rows_of(pattern@) =~= upended(g));
}

/// Moves the cells of the rectangular `v` into a new array whose row `i` is
/// column `i` of `v`; `v` is left without rows.
pub(crate) fn transpose<T>(v: &mut Vec<Vec<T>>) -> (r: Vec<Vec<T>>)
    requires
        is_rect(rows_of(old(v)@)),
    ensures
        final(v)@.len() == 0,
        rows_of(r@) == transposed(rows_of(old(v)@)),
{
    let ghost g = rows_of(v@);
    let h = v.len();
    let mut out: Vec<Vec<T>> = Vec::new();
    if h == 0 {
        assert(rows_of(out@) =~= transposed(g));
        return out;
    }
    let w = v[0].len();
    let mut i: usize = 0;
    while i < w
        invariant
            i <= w,
            out@.len() == i,
            forall|k: int| 0 <= k < i ==> (#[trigger] out@[k])@.len() == 0,
        decreases w - i,
    {
        out.push(Vec::new());
        i += 1;
    }
    let mut j: usize = 0;
    while j < h
        invariant
            g == rows_of(old(v)@),
            is_rect(g),
            g.len() == h,
            h > 0,
            w == width_of(g),
            j <= h,
            v@.len() == h - j,
            forall|k: int| 0 <= k < h - j ==> (#[trigger] v@[k])@ == g[j + k],
            out@.len() == w,
            forall|c: int| 0 <= c < w ==> (#[trigger] out@[c])@ == Seq::new(j as nat, |jj: int| g[jj][c]),
        decreases h - j,
    {
        let mut row = v.remove(0);
        assert(row@ == g[j as int]);
        let mut c: usize = w;
        while c > 0
            invariant
                is_rect(g),
                g.len() == h,
                w == width_of(g),
                j < h,
                c <= w,
                row@ == g[j as int].take(c as int),
                out@.len() == w,
                forall|k: int| 0 <= k < c ==> (#[trigger] out@[k])@ == Seq::new(j as nat, |jj: int| g[jj][k]),
                forall|k: int| c <= k < w ==> (#[trigger] out@[k])@ == Seq::new((j + 1) as nat, |jj: int| g[jj][k]),
            decreases c,
        {
            assert(g[j as int].len() == w);
            let x = row.pop().unwrap();
            c -= 1;
            out[c].push(x);
            assert(out@[c as int]@ =~= Seq::new((j + 1) as nat, |jj: int| g[jj][c as int]));
            assert(row@ =~= g[j as int].take(c as int));
        }
        j += 1;
        assert forall|k: int| 0 <= k < h - j implies (#[trigger] v@[k])@ == g[j + k] by {}
    }
    assert(rows_of(out@) =~= transposed(g));
    out
}

} // verus!
