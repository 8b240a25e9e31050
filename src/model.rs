use vstd::prelude::*;
use crate::cell::{accepts, QueryStampPart, StampPart};

verus! {

/// The rows of a row-major array of vectors, as sequences.
pub open spec fn rows_of<T>(p: Seq<Vec<T>>) -> Seq<Seq<T>> {
    p.map_values(|r: Vec<T>| r@)
}

/// Number of rows.
pub open spec fn height_of<T>(g: Seq<Seq<T>>) -> nat {
    g.len()
}

/// Length of the first row, or 0 when there is no row.
pub open spec fn width_of<T>(g: Seq<Seq<T>>) -> nat {
    if g.len() == 0 {
        0
    } else {
        g[0].len()
    }
}

/// Every row is as long as the first.
pub open spec fn is_rect<T>(g: Seq<Seq<T>>) -> bool {
    forall|y: int| 0 <= y < g.len() ==> (#[trigger] g[y]).len() == width_of(g)
}

/// Row `i` of the result is column `i` of `g`, read from top to bottom.
pub open spec fn transposed<T>(g: Seq<Seq<T>>) -> Seq<Seq<T>> {
    Seq::new(width_of(g), |i: int| Seq::new(g.len(), |j: int| g[j][i]))
}

/// `g` turned a quarter clockwise: row `i` of the result is column `i` of
/// `g`, read from bottom to top.
pub open spec fn rotated_cw<T>(g: Seq<Seq<T>>) -> Seq<Seq<T>> {
    Seq::new(width_of(g), |i: int| Seq::new(g.len(), |j: int| g[g.len() - 1 - j][i]))
}

/// `g` turned a quarter counter-clockwise: row `i` of the result is column
/// `width - 1 - i` of `g`, read from top to bottom.
pub open spec fn rotated_ccw<T>(g: Seq<Seq<T>>) -> Seq<Seq<T>> {
    Seq::new(width_of(g), |i: int| Seq::new(g.len(), |j: int| g[j][width_of(g) - 1 - i]))
}

/// `g` with each row reversed (mirrored across the vertical axis).
pub open spec fn mirrored<T>(g: Seq<Seq<T>>) -> Seq<Seq<T>> {
    g.map_values(|r: Seq<T>| r.reverse())
}

/// `g` with the order of its rows reversed (mirrored across the horizontal axis).
pub open spec fn upended<T>(g: Seq<Seq<T>>) -> Seq<Seq<T>> {
    g.reverse()
}

/// A footprint of `fh` rows and `fw` columns placed with its top-left corner
/// at column `x`, row `y` lies inside `g`.
pub open spec fn fits<T>(g: Seq<Seq<T>>, fh: nat, fw: nat, x: int, y: int) -> bool {
    0 <= x && 0 <= y && x + fw <= width_of(g) && y + fh <= height_of(g)
}

/// `dst` was written from `src`: both hold a value, the second a clone of the
/// first.
pub open spec fn copied<T: Clone>(src: StampPart<T>, dst: StampPart<T>) -> bool {
    match (src, dst) {
        (StampPart::Use(v), StampPart::Use(c)) => cloned(v, c),
        _ => false,
    }
}

/// What the cell at column `x`, row `y` of `g` may hold once `s` has been laid
/// over `g` at column `ax`, row `ay`: a copy of the cell of `s` above it where
/// that one holds a value, and its old content everywhere else.
pub open spec fn overlaid_cell<T: Clone>(
    g: Seq<Seq<StampPart<T>>>,
    s: Seq<Seq<StampPart<T>>>,
    ax: int,
    ay: int,
    x: int,
    y: int,
    c: StampPart<T>,
) -> bool {
    if ay <= y < ay + height_of(s) && ax <= x < ax + width_of(s) && s[y - ay][x - ax] is Use {
        copied(s[y - ay][x - ax], c)
    } else {
        c == g[y][x]
    }
}

/// `r` is `g` with `s` laid over it at column `ax`, row `ay`.
pub open spec fn overlaid<T: Clone>(
    g: Seq<Seq<StampPart<T>>>,
    s: Seq<Seq<StampPart<T>>>,
    ax: int,
    ay: int,
    r: Seq<Seq<StampPart<T>>>,
) -> bool {
    &&& r.len() == g.len()
    &&& forall|y: int| 0 <= y < g.len() ==> (#[trigger] r[y]).len() == g[y].len()
    &&& forall|y: int, x: int|
        0 <= y < g.len() && 0 <= x < g[y].len() ==> overlaid_cell(g, s, ax, ay, x, y, #[trigger] r[y][x])
}

/// Every cell of the query `q`, placed with its top-left corner at column `x`,
/// row `y` of `g`, accepts the cell of `g` beneath it.
pub open spec fn matches_at<T: PartialEq>(
    g: Seq<Seq<StampPart<T>>>,
    q: Seq<Seq<QueryStampPart<T>>>,
    x: int,
    y: int,
) -> bool {
    forall|j: int, i: int|
        0 <= j < height_of(q) && 0 <= i < width_of(q) ==> accepts(#[trigger] q[j][i], g[y + j][x + i])
}

/// A query without rows, or whose rows are empty: it is found nowhere.
pub open spec fn degenerate<T>(q: Seq<Seq<T>>) -> bool {
    height_of(q) == 0 || width_of(q) == 0
}

/// The anchors `(x, y)` with `x < n` at which `q` matches `g`, by increasing `x`.
pub open spec fn row_hits<T: PartialEq>(
    g: Seq<Seq<StampPart<T>>>,
    q: Seq<Seq<QueryStampPart<T>>>,
    y: nat,
    n: nat,
) -> Seq<(usize, usize)>
    decreases n,
{
    if n == 0 {
        Seq::empty()
    } else {
        let before = row_hits(g, q, y, (n - 1) as nat);
        if matches_at(g, q, n - 1, y as int) {
            before.push(((n - 1) as usize, y as usize))
        } else {
            before
        }
    }
}

/// The anchors `(x, y)` with `y < n` at which `q` matches `g`, by increasing `y`.
pub open spec fn col_hits<T: PartialEq>(
    g: Seq<Seq<StampPart<T>>>,
    q: Seq<Seq<QueryStampPart<T>>>,
    x: nat,
    n: nat,
) -> Seq<(usize, usize)>
    decreases n,
{
    if n == 0 {
        Seq::empty()
    } else {
        let before = col_hits(g, q, x, (n - 1) as nat);
        if matches_at(g, q, x as int, n - 1) {
            before.push((x as usize, (n - 1) as usize))
        } else {
            before
        }
    }
}

/// The anchors `(x, y)` with `y < m` and `x < n` at which `q` matches `g`, in
/// row-major order.
pub open spec fn grid_hits<T: PartialEq>(
    g: Seq<Seq<StampPart<T>>>,
    q: Seq<Seq<QueryStampPart<T>>>,
    m: nat,
    n: nat,
) -> Seq<(usize, usize)>
    decreases m,
{
    if m == 0 {
        Seq::empty()
    } else {
        grid_hits(g, q, (m - 1) as nat, n) + row_hits(g, q, (m - 1) as nat, n)
    }
}

/// Every anchor at which `q` fits inside `g` and matches it, in row-major
/// order; none for a degenerate query or one larger than `g`.
pub open spec fn found<T: PartialEq>(
    g: Seq<Seq<StampPart<T>>>,
    q: Seq<Seq<QueryStampPart<T>>>,
) -> Seq<(usize, usize)> {
    if degenerate(q) || height_of(q) > height_of(g) || width_of(q) > width_of(g) {
        Seq::empty()
    } else {
        grid_hits(
            g,
            q,
            (height_of(g) - height_of(q) + 1) as nat,
            (width_of(g) - width_of(q) + 1) as nat,
        )
    }
}

/// The anchors in row `y` at which `q` fits inside `g` and matches it, by
/// increasing column.
pub open spec fn found_in_row<T: PartialEq>(
    g: Seq<Seq<StampPart<T>>>,
    q: Seq<Seq<QueryStampPart<T>>>,
    y: nat,
) -> Seq<(usize, usize)> {
    if degenerate(q) || width_of(q) > width_of(g) {
        Seq::empty()
    } else {
        row_hits(g, q, y, (width_of(g) - width_of(q) + 1) as nat)
    }
}

/// The anchors in column `x` at which `q` fits inside `g` and matches it, by
/// increasing row.
pub open spec fn found_in_col<T: PartialEq>(
    g: Seq<Seq<StampPart<T>>>,
    q: Seq<Seq<QueryStampPart<T>>>,
    x: nat,
) -> Seq<(usize, usize)> {
    if degenerate(q) || height_of(q) > height_of(g) {
        Seq::empty()
    } else {
        col_hits(g, q, x, (height_of(g) - height_of(q) + 1) as nat)
    }
}

} // verus!
