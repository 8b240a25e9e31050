use vstd::prelude::*;
use vstd::std_specs::cmp::PartialEqSpec;
use crate::cell::{accepts, listed, QueryStampPart, StampPart};
use crate::model::{
    copied, degenerate, fits, found, grid_hits, height_of, is_rect, matches_at, mirrored, overlaid,
    rotated_ccw, rotated_cw, row_hits, upended, width_of,
};

verus! {

/// A grid whose rows are all empty while there is at least one row: turning
/// it loses the number of rows, so the rotation laws leave it out.
pub open spec fn flat<T>(g: Seq<Seq<T>>) -> bool {
    g.len() > 0 && width_of(g) == 0
}

/// A quarter turn of a rectangular grid that is not flat is rectangular and
/// not flat, with height and width exchanged.
proof fn lemma_rotated_cw_shape<T>(g: Seq<Seq<T>>)
    requires
        is_rect(g),
        !flat(g),
    ensures
        is_rect(rotated_cw(g)),
        !flat(rotated_cw(g)),
        height_of(rotated_cw(g)) == width_of(g),
        width_of(rotated_cw(g)) == height_of(g),
{
}

/// Half a turn, as two quarter turns, reverses both the order of the rows and
/// each row.
pub proof fn lemma_half_turn<T>(g: Seq<Seq<T>>)
    requires
        is_rect(g),
        !flat(g),
    ensures
        rotated_cw(rotated_cw(g)) == upended(mirrored(g)),
{
    lemma_rotated_cw_shape(g);
    let a = rotated_cw(rotated_cw(g));
    let b = upended(mirrored(g));
    assert forall|i: int| 0 <= i < b.len() implies a[i] =~= b[i] by {
        assert(g[g.len() - 1 - i].len() == width_of(g));
    }
    assert(a =~= b);
}

/// Reversing the order of the rows twice gives back the grid.
pub proof fn lemma_upend_twice<T>(g: Seq<Seq<T>>)
    ensures
        upended(upended(g)) == g,
{
    assert(upended(upended(g)) =~= g);
}

/// Reversing each row twice gives back the grid.
pub proof fn lemma_mirror_twice<T>(g: Seq<Seq<T>>)
    ensures
        mirrored(mirrored(g)) == g,
{
    let a = mirrored(mirrored(g));
    assert forall|i: int| 0 <= i < g.len() implies a[i] =~= g[i] by {}
    assert(a =~= g);
}

/// Four quarter turns clockwise give back the grid, cell for cell, for every
/// rectangular grid that is not flat.
pub proof fn lemma_four_quarter_turns<T>(g: Seq<Seq<T>>)
    requires
        is_rect(g),
        !flat(g),
    ensures
        rotated_cw(rotated_cw(rotated_cw(rotated_cw(g)))) == g,
{
    lemma_half_turn(g);
    let h = upended(mirrored(g));
    lemma_rotated_cw_shape(g);
    lemma_rotated_cw_shape(rotated_cw(g));
    lemma_half_turn(rotated_cw(rotated_cw(g)));
    assert(mirrored(upended(h)) =~= upended(mirrored(h)));
    lemma_mirror_twice(g);
    lemma_upend_twice(mirrored(g));
    let u = mirrored(upended(h));
    assert forall|i: int| 0 <= i < g.len() implies u[i] =~= g[i] by {}
    assert(u =~= g);
}

/// A quarter turn counter-clockwise undoes a quarter turn clockwise, for
/// every rectangular grid that is not flat.
pub proof fn lemma_turn_back<T>(g: Seq<Seq<T>>)
    requires
        is_rect(g),
        !flat(g),
    ensures
        rotated_ccw(rotated_cw(g)) == g,
{
    lemma_rotated_cw_shape(g);
    let a = rotated_ccw(rotated_cw(g));
    assert forall|i: int| 0 <= i < g.len() implies a[i] =~= g[i] by {}
    assert(a =~= g);
}

/// Every cell of `s` is transparent.
pub open spec fn all_transparent<T>(s: Seq<Seq<StampPart<T>>>) -> bool {
    forall|y: int, x: int| 0 <= y < s.len() && 0 <= x < s[y].len() ==> #[trigger] s[y][x] is Transparent
}

/// Every cell of `s` holds a value.
pub open spec fn all_occupied<T>(s: Seq<Seq<StampPart<T>>>) -> bool {
    forall|y: int, x: int| 0 <= y < s.len() && 0 <= x < s[y].len() ==> #[trigger] s[y][x] is Use
}

/// Laying a grid of transparent cells over `g` leaves `g` as it was.
pub proof fn lemma_transparent_overlay<T: Clone>(
    g: Seq<Seq<StampPart<T>>>,
    s: Seq<Seq<StampPart<T>>>,
    ax: int,
    ay: int,
    r: Seq<Seq<StampPart<T>>>,
)
    requires
        is_rect(s),
        all_transparent(s),
        overlaid(g, s, ax, ay, r),
    ensures
        r == g,
{
    assert forall|y: int| 0 <= y < g.len() implies r[y] =~= g[y] by {
        assert forall|x: int| 0 <= x < g[y].len() implies r[y][x] == g[y][x] by {
            if ay <= y < ay + height_of(s) && ax <= x < ax + width_of(s) {
                assert(s[y - ay].len() == width_of(s));
                assert(s[y - ay][x - ax] is Transparent);
            }
        }
    }
    assert(r =~= g);
}

/// Laying a grid whose every cell holds a value over `g`, where it fits,
/// replaces each cell of its footprint by a copy of the cell above it; where
/// cloning a `T` gives an equal value, by that very cell.
pub proof fn lemma_occupied_overlay<T: Clone>(
    g: Seq<Seq<StampPart<T>>>,
    s: Seq<Seq<StampPart<T>>>,
    ax: int,
    ay: int,
    r: Seq<Seq<StampPart<T>>>,
)
    requires
        is_rect(g),
        is_rect(s),
        all_occupied(s),
        fits(g, height_of(s), width_of(s), ax, ay),
        overlaid(g, s, ax, ay, r),
    ensures
        forall|y: int, x: int|
            0 <= y < height_of(s) && 0 <= x < width_of(s) ==> copied(
                #[trigger] s[y][x],
                r[ay + y][ax + x],
            ),
        (forall|a: T, b: T| #[trigger] cloned(a, b) ==> a == b) ==> forall|y: int, x: int|
            0 <= y < height_of(s) && 0 <= x < width_of(s) ==> r[ay + y][ax + x] == #[trigger] s[y][x],
{
    assert forall|y: int, x: int| 0 <= y < height_of(s) && 0 <= x < width_of(s) implies copied(
        #[trigger] s[y][x],
        r[ay + y][ax + x],
    ) by {
        assert(s[y].len() == width_of(s));
        assert(g[ay + y].len() == width_of(g));
        assert(s[y][x] is Use);
        assert((ay + y) - ay == y && (ax + x) - ax == x);
    }
    if forall|a: T, b: T| #[trigger] cloned(a, b) ==> a == b {
        assert forall|y: int, x: int| 0 <= y < height_of(s) && 0 <= x < width_of(s) implies r[ay
            + y][ax + x] == #[trigger] s[y][x] by {
            assert(copied(s[y][x], r[ay + y][ax + x]));
            if let StampPart::Use(v) = s[y][x] {
                if let StampPart::Use(c) = r[ay + y][ax + x] {
                    assert(cloned(v, c));
                }
            }
        }
    }
}

/// `q` is the query that asks, cell for cell, for exactly the values found in
/// `g` under it when placed at column `x0`, row `y0`.
pub open spec fn exact_query_at<T>(
    g: Seq<Seq<StampPart<T>>>,
    q: Seq<Seq<QueryStampPart<T>>>,
    x0: int,
    y0: int,
) -> bool {
    forall|j: int, i: int|
        0 <= j < height_of(q) && 0 <= i < width_of(q) ==> match #[trigger] q[j][i] {
            QueryStampPart::Is(set) => g[y0 + j][x0 + i] matches StampPart::Use(v) && set@ == seq![v],
            _ => false,
        }
}

/// The anchors of `row_hits` with a column below `n` include every one at
/// which the query matches.
proof fn lemma_row_hits_contains<T: PartialEq>(
    g: Seq<Seq<StampPart<T>>>,
    q: Seq<Seq<QueryStampPart<T>>>,
    y: nat,
    n: nat,
    x: usize,
)
    requires
        x < n,
        matches_at(g, q, x as int, y as int),
    ensures
        row_hits(g, q, y, n).contains((x, y as usize)),
    decreases n,
{
    if x == n - 1 {
        let hits = row_hits(g, q, y, n);
        assert(hits[hits.len() - 1] == (x, y as usize));
    } else {
        lemma_row_hits_contains(g, q, y, (n - 1) as nat, x);
        let before = row_hits(g, q, y, (n - 1) as nat);
        let k = choose|k: int| 0 <= k < before.len() && before[k] == (x, y as usize);
        assert(row_hits(g, q, y, n)[k] == (x, y as usize));
    }
}

/// The anchors of `grid_hits` with a row below `m` and a column below `n`
/// include every one at which the query matches.
proof fn lemma_grid_hits_contains<T: PartialEq>(
    g: Seq<Seq<StampPart<T>>>,
    q: Seq<Seq<QueryStampPart<T>>>,
    m: nat,
    n: nat,
    x: usize,
    y: usize,
)
    requires
        x < n,
        y < m,
        matches_at(g, q, x as int, y as int),
    ensures
        grid_hits(g, q, m, n).contains((x, y)),
    decreases m,
{
    let before = grid_hits(g, q, (m - 1) as nat, n);
    let last = row_hits(g, q, (m - 1) as nat, n);
    if y == m - 1 {
        lemma_row_hits_contains(g, q, y as nat, n, x);
        let k = choose|k: int| 0 <= k < last.len() && last[k] == (x, y);
        assert((before + last)[before.len() + k] == (x, y));
    } else {
        lemma_grid_hits_contains(g, q, (m - 1) as nat, n, x, y);
        let k = choose|k: int| 0 <= k < before.len() && before[k] == (x, y);
        assert((before + last)[k] == (x, y));
    }
}

/// Searching a grid for the exact values of one of its own windows, all of
/// them occupied, finds that window's anchor, given an equality on `T` under
/// which every value equals itself.
pub proof fn lemma_find_own_window<T: PartialEq>(
    g: Seq<Seq<StampPart<T>>>,
    q: Seq<Seq<QueryStampPart<T>>>,
    x0: usize,
    y0: usize,
)
    requires
        forall|v: T| #[trigger] v.eq_spec(&v),
        is_rect(g),
        is_rect(q),
        !degenerate(q),
        fits(g, height_of(q), width_of(q), x0 as int, y0 as int),
        exact_query_at(g, q, x0 as int, y0 as int),
    ensures
        found(g, q).contains((x0, y0)),
{
    assert forall|j: int, i: int| 0 <= j < height_of(q) && 0 <= i < width_of(q) implies accepts(
        #[trigger] q[j][i],
        g[y0 + j][x0 + i],
    ) by {
        if let QueryStampPart::Is(set) = q[j][i] {
            if let StampPart::Use(v) = g[y0 + j][x0 + i] {
                assert(set@[0].eq_spec(&v));
                assert(listed(set@, v));
            }
        }
    }
    assert(matches_at(g, q, x0 as int, y0 as int));
    lemma_grid_hits_contains(
        g,
        q,
        (height_of(g) - height_of(q) + 1) as nat,
        (width_of(g) - width_of(q) + 1) as nat,
        x0,
        y0,
    );
}

/// A query taller or wider than the grid is found nowhere.
pub proof fn lemma_oversized_query<T: PartialEq>(
    g: Seq<Seq<StampPart<T>>>,
    q: Seq<Seq<QueryStampPart<T>>>,
)
    requires
        height_of(q) > height_of(g) || width_of(q) > width_of(g),
    ensures
        found(g, q) == Seq::<(usize, usize)>::empty(),
{
}

} // verus!
