use vstd::prelude::*;
use vstd::std_specs::cmp::PartialEqSpec;
use crate::cell::{accepts, cell_accepts, QueryStampPart, StampError, StampPart};
use crate::model::{
    col_hits, degenerate, fits, found, found_in_col, found_in_row, grid_hits, height_of, is_rect,
    matches_at, row_hits, rows_of, width_of,
};
use crate::stamp::Stamp;

verus! {

impl<T: Clone + PartialEq> Stamp<StampPart<T>> {
    /// Whether `query`, placed with its top-left corner at column `pos_x`, row
    /// `pos_y`, matches this grid; the cells are tested row by row and the
    /// test stops at the first one that the query refuses.
    fn find_at_position(
        &self,
        query: &Stamp<QueryStampPart<T>>,
        pos_x: usize,
        pos_y: usize,
    ) -> (r: bool)
        requires
            T::obeys_eq_spec(),
            fits(self@, height_of(query@), width_of(query@), pos_x as int, pos_y as int),
        ensures
            r == matches_at(self@, query@, pos_x as int, pos_y as int),
    {
        let rows = self.rows();
        let qrows = query.rows();
        let qh = query.height();
        let qw = query.width();
        let h = self.height();
        let w = self.width();
        let ghost g = self@;
        let ghost q = query@;
        let mut j: usize = 0;
        while j < qh
            invariant
                T::obeys_eq_spec(),
                g == self@,
                q == query@,
                g == rows_of(rows@),
                q == rows_of(qrows@),
                is_rect(g),
                is_rect(q),
                qh == height_of(q),
                qw == width_of(q),
                fits(g, height_of(q), width_of(q), pos_x as int, pos_y as int),
                h == height_of(g),
                w == width_of(g),
                j <= qh,
                forall|jj: int, i: int|
                    0 <= jj < j && 0 <= i < qw ==> accepts(
                        #[trigger] q[jj][i],
                        g[pos_y + jj][pos_x + i],
                    ),
            decreases qh - j,
        {
            assert(q[j as int].len() == qw);
            assert(g[pos_y + j].len() == width_of(g));
            assert(qrows@[j as int]@ == q[j as int]);
            assert(rows@[pos_y + j]@ == g[pos_y + j]);
            let mut i: usize = 0;
            while i < qw
                invariant
                    T::obeys_eq_spec(),
                    g == self@,
                    q == query@,
                    g == rows_of(rows@),
                    q == rows_of(qrows@),
                    is_rect(g),
                    is_rect(q),
                    qh == height_of(q),
                    qw == width_of(q),
                    fits(g, height_of(q), width_of(q), pos_x as int, pos_y as int),
                    h == height_of(g),
                    w == width_of(g),
                    j < qh,
                    i <= qw,
                    q[j as int].len() == qw,
                    g[pos_y + j].len() == width_of(g),
                    qrows@[j as int]@ == q[j as int],
                    rows@[pos_y + j]@ == g[pos_y + j],
                    forall|jj: int, ii: int|
                        0 <= jj < j && 0 <= ii < qw ==> accepts(
                            #[trigger] q[jj][ii],
                            g[pos_y + jj][pos_x + ii],
                        ),
                    forall|ii: int|
                        0 <= ii < i ==> accepts(
                            #[trigger] q[j as int][ii],
                            g[pos_y + j][pos_x + ii],
                        ),
                decreases qw - i,
            {
                if !cell_accepts(&qrows[j][i], &rows[pos_y + j][pos_x + i]) {
                    assert(!accepts(q[j as int][i as int], g[pos_y + j][pos_x + i]));
                    return false;
                }
                i += 1;
            }
            j += 1;
        }
        true
    }

    /// Every anchor `(x, y)` at which `query` fits inside this grid and
    /// matches it, in row-major order: by row, then by column. Empty for a
    /// query without cells, or one taller or wider than the grid.
    pub fn find(&self, query: &Stamp<QueryStampPart<T>>) -> (r: Vec<(usize, usize)>)
        requires
            T::obeys_eq_spec(),
        ensures
            r@ == found(self@, query@),
    {
        let mut matches: Vec<(usize, usize)> = Vec::new();
        let h = self.height();
        let w = self.width();
        let qh = query.height();
        let qw = query.width();
        if qh == 0 || qw == 0 || qh > h || qw > w {
            return matches;
        }
        let ny = h - qh + 1;
        let nx = w - qw + 1;
        let mut y: usize = 0;
        while y < ny
            invariant
                T::obeys_eq_spec(),
                h == height_of(self@),
                w == width_of(self@),
                qh == height_of(query@),
                qw == width_of(query@),
                0 < qh <= h,
                0 < qw <= w,
                ny == h - qh + 1,
                nx == w - qw + 1,
                y <= ny,
                matches@ == grid_hits(self@, query@, y as nat, nx as nat),
            decreases ny - y,
        {
            let mut x: usize = 0;
            while x < nx
                invariant
                    T::obeys_eq_spec(),
                    h == height_of(self@),
                    w == width_of(self@),
                    qh == height_of(query@),
                    qw == width_of(query@),
                    0 < qh <= h,
                    0 < qw <= w,
                    ny == h - qh + 1,
                    nx == w - qw + 1,
                    y < ny,
                    x <= nx,
                    matches@ == grid_hits(self@, query@, y as nat, nx as nat) + row_hits(
                        self@,
                        query@,
                        y as nat,
                        x as nat,
                    ),
                decreases nx - x,
            {
                if self.find_at_position(query, x, y) {
                    matches.push((x, y));
                }
                assert(matches@ =~= grid_hits(self@, query@, y as nat, nx as nat) + row_hits(
                    self@,
                    query@,
                    y as nat,
                    (x + 1) as nat,
                ));
                x += 1;
            }
            y += 1;
        }
        matches
    }

    /// Whether `query` matches with its top-left corner at column `pos_x`,
    /// row `pos_y`; a query without cells matches nowhere. Refused where the
    /// query placed there would reach outside the grid.
    pub fn find_at_xy(
        &self,
        query: &Stamp<QueryStampPart<T>>,
        pos_x: usize,
        pos_y: usize,
    ) -> (r: Result<bool, StampError>)
        requires
            T::obeys_eq_spec(),
        ensures
            r is Ok <==> fits(self@, height_of(query@), width_of(query@), pos_x as int, pos_y as int),
            r matches Ok(b) ==> b == (!degenerate(query@) && matches_at(
                self@,
                query@,
                pos_x as int,
                pos_y as int,
            )),
            r matches Err(e) ==> e == StampError::OutOfBounds,
    {
        let h = self.height();
        let w = self.width();
        let qh = query.height();
        let qw = query.width();
        if qh > h || qw > w || pos_y > h - qh || pos_x > w - qw {
            return Err(StampError::OutOfBounds);
        }
        if qh == 0 || qw == 0 {
            return Ok(false);
        }
        Ok(self.find_at_position(query, pos_x, pos_y))
    }

    /// Every anchor in row `pos_y` at which `query` fits inside this grid and
    /// matches it, by increasing column; none for a query without cells.
    /// Refused where a query with cells placed in that row would reach below
    /// the grid.
    pub fn find_at_y(
        &self,
        query: &Stamp<QueryStampPart<T>>,
        pos_y: usize,
    ) -> (r: Result<Vec<(usize, usize)>, StampError>)
        requires
            T::obeys_eq_spec(),
        ensures
            r is Ok <==> (degenerate(query@) || pos_y + height_of(query@) <= height_of(self@)),
            r matches Ok(v) ==> v@ == found_in_row(self@, query@, pos_y as nat),
            r matches Err(e) ==> e == StampError::OutOfBounds,
    {
        let h = self.height();
        let w = self.width();
        let qh = query.height();
        let qw = query.width();
        let mut matches: Vec<(usize, usize)> = Vec::new();
        if qh == 0 || qw == 0 {
            return Ok(matches);
        }
        if qh > h || pos_y > h - qh {
            return Err(StampError::OutOfBounds);
        }
        if qw > w {
            return Ok(matches);
        }
        let nx = w - qw + 1;
        let mut x: usize = 0;
        while x < nx
            invariant
                T::obeys_eq_spec(),
                h == height_of(self@),
                w == width_of(self@),
                qh == height_of(query@),
                qw == width_of(query@),
                0 < qh,
                pos_y + qh <= h,
                0 < qw <= w,
                nx == w - qw + 1,
                x <= nx,
                matches@ == row_hits(self@, query@, pos_y as nat, x as nat),
            decreases nx - x,
        {
            if self.find_at_position(query, x, pos_y) {
                matches.push((x, pos_y));
            }
            x += 1;
        }
        Ok(matches)
    }

    /// Every anchor in column `pos_x` at which `query` fits inside this grid
    /// and matches it, by increasing row; none for a query without cells.
    /// Refused where a query with cells placed in that column would reach past
    /// the right edge of the grid.
    pub fn find_at_x(
        &self,
        query: &Stamp<QueryStampPart<T>>,
        pos_x: usize,
    ) -> (r: Result<Vec<(usize, usize)>, StampError>)
        requires
            T::obeys_eq_spec(),
        ensures
            r is Ok <==> (degenerate(query@) || pos_x + width_of(query@) <= width_of(self@)),
            r matches Ok(v) ==> v@ == found_in_col(self@, query@, pos_x as nat),
            r matches Err(e) ==> e == StampError::OutOfBounds,
    {
        let h = self.height();
        let w = self.width();
        let qh = query.height();
        let qw = query.width();
        let mut matches: Vec<(usize, usize)> = Vec::new();
        if qh == 0 || qw == 0 {
            return Ok(matches);
        }
        if qw > w || pos_x > w - qw {
            return Err(StampError::OutOfBounds);
        }
        if qh > h {
            return Ok(matches);
        }
        let ny = h - qh + 1;
        let mut y: usize = 0;
        while y < ny
            invariant
                T::obeys_eq_spec(),
                h == height_of(self@),
                w == width_of(self@),
                qh == height_of(query@),
                qw == width_of(query@),
                0 < qw,
                pos_x + qw <= w,
                0 < qh <= h,
                ny == h - qh + 1,
                y <= ny,
                matches@ == col_hits(self@, query@, pos_x as nat, y as nat),
            decreases ny - y,
        {
            if self.find_at_position(query, pos_x, y) {
                matches.push((pos_x, y));
            }
            y += 1;
        }
        Ok(matches)
    }
}

} // verus!
