use vstd::prelude::*;
use crate::cell::StampError;
use crate::model::{
    height_of, is_rect, mirrored, rotated_ccw, rotated_cw, rows_of, transposed, upended, width_of,
};
use crate::transform::{reverse_cols, reverse_rows, transpose};

verus! {

/// Rows of cells, each row a vector; the first index is the row (`y`), the
/// second the column (`x`).
pub type Pattern<T> = Vec<Vec<T>>;

/// A rectangular grid of cells.
#[derive(Debug, PartialEq)]
pub struct Stamp<T> {
    pattern: Pattern<T>,
}

impl<T> View for Stamp<T> {
    type V = Seq<Seq<T>>;

    closed spec fn view(&self) -> Seq<Seq<T>> {
        rows_of(self.pattern@)
    }
}

impl<T> Stamp<T> {
    /// All rows have one length.
    #[verifier::type_invariant]
    closed spec fn rectangular(&self) -> bool {
        is_rect(rows_of(self.pattern@))
    }

    /// Builds a grid from its rows; refused unless every row has the length
    /// of the first.
    pub fn new(pattern: Pattern<T>) -> (r: Result<Self, StampError>)
        ensures
            is_rect(rows_of(pattern@)) <==> r is Ok,
            r matches Ok(s) ==> s@ == rows_of(pattern@),
            r matches Err(e) ==> e == StampError::IrregularShape,
    {
        let h = pattern.len();
        if h > 0 {
            let w = pattern[0].len();
            let mut y: usize = 1;
            while y < h
                invariant
                    h == pattern@.len(),
                    h > 0,
                    w == pattern@[0]@.len(),
                    1 <= y <= h,
                    forall|k: int| 0 <= k < y ==> (#[trigger] pattern@[k])@.len() == w,
                decreases h - y,
            {
                if pattern[y].len() != w {
                    assert(rows_of(pattern@)[y as int].len() != width_of(rows_of(pattern@)));
                    return Err(StampError::IrregularShape);
                }
                y += 1;
            }
        }
        assert(is_rect(rows_of(pattern@)));
        Ok(Stamp { pattern })
    }

    /// The rows, from top to bottom.
    pub fn rows(&self) -> (r: &Pattern<T>)
        ensures
            rows_of(r@) == self@,
            is_rect(self@),
    {
        proof {
            use_type_invariant(self);
        }
        &self.pattern
    }

    /// Replaces the rows with the rectangular `rows`.
    pub(crate) fn put_rows(&mut self, rows: Pattern<T>)
        requires
            is_rect(rows_of(rows@)),
        ensures
            final(self)@ == rows_of(rows@),
    {
        self.pattern = rows;
    }

    /// Moves the rows out, leaving the grid without rows.
    pub(crate) fn take_rows(&mut self) -> (r: Pattern<T>)
        ensures
            rows_of(r@) == old(self)@,
            is_rect(rows_of(r@)),
            final(self)@.len() == 0,
    {
        proof {
            use_type_invariant(&*self);
        }
        let mut rows: Pattern<T> = Vec::new();
        std::mem::swap(&mut self.pattern, &mut rows);
        rows
    }

    /// Number of rows.
    pub fn height(&self) -> (r: usize)
        ensures
            r == height_of(self@),
    {
        self.pattern.len()
    }

    /// Length of the rows, 0 for a grid without rows.
    pub fn width(&self) -> (r: usize)
        ensures
            r == width_of(self@),
    {
        if self.pattern.len() > 0 {
            self.pattern[0].len()
        } else {
            0
        }
    }

    /// The cell at column `coord.0` of row `coord.1`, or `None` where either
    /// coordinate is outside the grid.
    pub fn get_at(&self, coord: (usize, usize)) -> (r: Option<&T>)
        ensures
            r is Some <==> (coord.1 < height_of(self@) && coord.0 < width_of(self@)),
            r matches Some(c) ==> *c == self@[coord.1 as int][coord.0 as int],
    {
        proof {
            use_type_invariant(self);
        }
        let (x, y) = coord;
        if y < self.pattern.len() {
            assert(self@[y as int] == self.pattern@[y as int]@);
        }
        if y < self.pattern.len() && x < self.pattern[y].len() {
            Some(&self.pattern[y][x])
        } else {
            None
        }
    }

    /// Replaces the cell at column `coord.0` of row `coord.1`; refused, with
    /// the grid unchanged, where either coordinate is outside the grid.
    pub fn set_at(&mut self, coord: (usize, usize), element: T) -> (r: Result<(), StampError>)
        ensures
            r is Ok <==> (coord.1 < height_of(old(self)@) && coord.0 < width_of(old(self)@)),
            r is Ok ==> final(self)@ == old(self)@.update(
                coord.1 as int,
                old(self)@[coord.1 as int].update(coord.0 as int, element),
            ),
            r matches Err(e) ==> e == StampError::OutOfBounds && final(self)@ == old(self)@,
    {
        proof {
            use_type_invariant(&*self);
        }
        let (x, y) = coord;
        if y < self.pattern.len() {
            assert(self@[y as int] == self.pattern@[y as int]@);
        }
        if y < self.pattern.len() && x < self.pattern[y].len() {
            let ghost g = self@;
            let mut rows = self.take_rows();
            assert(rows@[y as int]@ == g[y as int]);
            rows[y][x] = element;
            assert(rows_of(rows@) =~= g.update(y as int, g[y as int].update(x as int, element)));
            self.pattern = rows;
            Ok(())
        } else {
            Err(StampError::OutOfBounds)
        }
    }

    /// Turns the grid a quarter clockwise.
    pub fn rotate_90(&mut self)
        ensures
            final(self)@ == rotated_cw(old(self)@),
    {
        proof {
            use_type_invariant(&*self);
        }
        let ghost g = self@;
        let mut rows = self.take_rows();
        let mut pattern = transpose(&mut rows);
        reverse_rows(&mut pattern);
        proof {
            lemma_mirrored_transposed(g);
        }
        self.pattern = pattern;
    }

    /// Turns the grid a quarter counter-clockwise.
    pub fn rotate_n90(&mut self)
        ensures
            final(self)@ == rotated_ccw(old(self)@),
    {
        proof {
            use_type_invariant(&*self);
        }
        let ghost g = self@;
        let mut rows = self.take_rows();
        let mut pattern = transpose(&mut rows);
        reverse_cols(&mut pattern);
        proof {
            lemma_upended_transposed(g);
        }
        self.pattern = pattern;
    }

    /// Turns the grid half a turn, as two quarter turns clockwise.
    pub fn rotate_180(&mut self)
        ensures
            final(self)@ == rotated_cw(rotated_cw(old(self)@)),
    {
        self.rotate_90();
        self.rotate_90();
    }

    /// Reverses each row (mirror across the vertical axis).
    pub fn flip_horizontal(&mut self)
        ensures
            final(self)@ == mirrored(old(self)@),
    {
        proof {
            use_type_invariant(&*self);
        }
        let mut rows = self.take_rows();
        reverse_rows(&mut rows);
        self.pattern = rows;
    }

    /// Reverses the order of the rows (mirror across the horizontal axis).
    pub fn flip_vertical(&mut self)
        ensures
            final(self)@ == upended(old(self)@),
    {
        proof {
            use_type_invariant(&*self);
        }
        let mut rows = self.take_rows();
        reverse_cols(&mut rows);
        self.pattern = rows;
    }
}

/// Reversing each row of the transpose turns a rectangular grid clockwise,
/// and the result is rectangular.
proof fn lemma_mirrored_transposed<T>(g: Seq<Seq<T>>)
    requires
        is_rect(g),
    ensures
        mirrored(transposed(g)) == rotated_cw(g),
        is_rect(rotated_cw(g)),
{
    let a = mirrored(transposed(g));
    let b = rotated_cw(g);
    assert forall|i: int| 0 <= i < b.len() implies a[i] =~= b[i] by {}
    assert(a =~= b);
}

/// Reversing the row order of the transpose turns a rectangular grid
/// counter-clockwise, and the result is rectangular.
proof fn lemma_upended_transposed<T>(g: Seq<Seq<T>>)
    requires
        is_rect(g),
    ensures
        upended(transposed(g)) == rotated_ccw(g),
        is_rect(rotated_ccw(g)),
{
    let a = upended(transposed(g));
    let b = rotated_ccw(g);
    assert forall|i: int| 0 <= i < b.len() implies a[i] =~= b[i] by {}
    assert(a =~= b);
}

impl<T: Clone> Clone for Stamp<T> {
    /// A grid of the same shape whose every cell is a clone of the cell in
    /// the same place.
    fn clone(&self) -> (r: Self)
        ensures
            r@.len() == self@.len(),
            forall|y: int| 0 <= y < self@.len() ==> (#[trigger] r@[y]).len() == self@[y].len(),
            forall|y: int, x: int|
                0 <= y < self@.len() && 0 <= x < self@[y].len() ==> cloned(
                    self@[y][x],
                    #[trigger] r@[y][x],
                ),
    {
        proof {
            use_type_invariant(self);
        }
        let ghost g = self@;
        let h = self.pattern.len();
        let mut rows: Vec<Vec<T>> = Vec::new();
        let mut y: usize = 0;
        while y < h
            invariant
                g == rows_of(self.pattern@),
                h == g.len(),
                y <= h,
                rows@.len() == y,
                forall|k: int| 0 <= k < y ==> (#[trigger] rows@[k])@.len() == g[k].len(),
                forall|k: int, x: int|
                    0 <= k < y && 0 <= x < g[k].len() ==> cloned(g[k][x], #[trigger] rows@[k]@[x]),
            decreases h - y,
        {
            let w = self.pattern[y].len();
            let mut row: Vec<T> = Vec::new();
            let mut x: usize = 0;
            while x < w
                invariant
                    g == rows_of(self.pattern@),
                    h == g.len(),
                    y < h,
                    w == g[y as int].len(),
                    x <= w,
                    row@.len() == x,
                    forall|i: int| 0 <= i < x ==> cloned(g[y as int][i], #[trigger] row@[i]),
                decreases w - x,
            {
                let c = self.pattern[y][x].clone();
                row.push(c);
                x += 1;
            }
            rows.push(row);
            y += 1;
        }
        Stamp { pattern: rows }
    }
}

} // verus!
