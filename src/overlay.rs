use vstd::prelude::*;
use crate::cell::{StampError, StampPart};
use crate::model::{fits, height_of, is_rect, overlaid, overlaid_cell, rows_of, width_of};
use crate::stamp::Stamp;

verus! {

impl<T: Clone> Stamp<StampPart<T>> {
    /// Lays `stamp` over this grid with its top-left corner at column `pos_x`,
    /// row `pos_y`: each cell of `stamp` that holds a value is copied into the
    /// cell beneath it, and each transparent one leaves that cell as it was.
    /// Refused, with the grid unchanged, where `stamp` does not fit there.
    pub fn stamp(
        &mut self,
        stamp: &Stamp<StampPart<T>>,
        pos_x: usize,
        pos_y: usize,
    ) -> (r: Result<(), StampError>)
        ensures
            r is Ok <==> fits(old(self)@, height_of(stamp@), width_of(stamp@), pos_x as int, pos_y as int),
            r is Ok ==> overlaid(old(self)@, stamp@, pos_x as int, pos_y as int, final(self)@),
            r matches Err(e) ==> e == StampError::OutOfBounds && final(self)@ == old(self)@,
    {
        let sh = stamp.height();
        let sw = stamp.width();
        let h = self.height();
        let w = self.width();
        if sh > h || sw > w || pos_y > h - sh || pos_x > w - sw {
            return Err(StampError::OutOfBounds);
        }
        let source = stamp.rows();
        let ghost g = self@;
        let ghost s = stamp@;
        let mut rows = self.take_rows();
        let mut y: usize = 0;
        while y < sh
            invariant
                g.len() == h,
                is_rect(g),
                w == width_of(g),
                s == stamp@,
                s == rows_of(source@),
                is_rect(s),
                sh == height_of(s),
                sw == width_of(s),
                pos_y + sh <= h,
                pos_x + sw <= w,
                y <= sh,
                rows_of(rows@).len() == h,
                forall|gy: int| 0 <= gy < h ==> (#[trigger] rows_of(rows@)[gy]).len() == w,
                forall|gy: int, gx: int|
                    0 <= gy < h && 0 <= gx < w ==> {
                        let c = #[trigger] rows_of(rows@)[gy][gx];
                        if gy < pos_y + y {
                            overlaid_cell(g, s, pos_x as int, pos_y as int, gx, gy, c)
                        } else {
                            c == g[gy][gx]
                        }
                    },
            decreases sh - y,
        {
            let mut x: usize = 0;
            while x < sw
                invariant
                    g.len() == h,
                    is_rect(g),
                    w == width_of(g),
                    s == stamp@,
                    s == rows_of(source@),
                    is_rect(s),
                    sh == height_of(s),
                    sw == width_of(s),
                    pos_y + sh <= h,
                    pos_x + sw <= w,
                    y < sh,
                    x <= sw,
                    rows_of(rows@).len() == h,
                    forall|gy: int| 0 <= gy < h ==> (#[trigger] rows_of(rows@)[gy]).len() == w,
                    forall|gy: int, gx: int|
                        0 <= gy < h && 0 <= gx < w ==> {
                            let c = #[trigger] rows_of(rows@)[gy][gx];
                            if gy < pos_y + y || (gy == pos_y + y && pos_x <= gx < pos_x + x) {
                                overlaid_cell(g, s, pos_x as int, pos_y as int, gx, gy, c)
                            } else {
                                c == g[gy][gx]
                            }
                        },
                decreases sw - x,
            {
                assert(s[y as int].len() == sw);
                assert(source@[y as int]@ == s[y as int]);
                match &source[y][x] {
                    StampPart::Use(v) => {
                        let c = v.clone();
                        assert(cloned(*v, c));
                        let ghost before = rows_of(rows@);
                        assert(before[(pos_y + y) as int].len() == w);
                        rows[pos_y + y][pos_x + x] = StampPart::Use(c);
                        proof {
                            let ty = (pos_y + y) as int;
                            let tx = (pos_x + x) as int;
                            assert(rows_of(rows@) =~= before.update(
                                ty,
                                before[ty].update(tx, StampPart::Use(c)),
                            ));
                        }
                    },
                    StampPart::Transparent => {},
                }
                x += 1;
            }
            y += 1;
        }
        proof {
            assert forall|gy: int, gx: int|
                0 <= gy < g.len() && 0 <= gx < g[gy].len() implies overlaid_cell(
                g,
                s,
                pos_x as int,
                pos_y as int,
                gx,
                gy,
                #[trigger] rows_of(rows@)[gy][gx],
            ) by {
                assert(g[gy].len() == w);
            }
        }
        assert(is_rect(rows_of(rows@)));
        self.put_rows(rows);
        Ok(())
    }
}

} // verus!
