//! The settling pass: one step of gravity, read from the committed cells and
//! written into the buffer.

use vstd::prelude::*;
use crate::board::Board;
use crate::cell::Cell;
use crate::grid::Grid;

verus! {

/// Whether a pass that visits the rows from the top, and each row from the
/// left, comes to `(x, y)` before it comes to `(stop_x, stop_y)`.
spec fn visited(x: int, y: int, stop_x: int, stop_y: int) -> bool {
    y < stop_y || (y == stop_y && x < stop_x)
}

/// Whether the grain at `(sx, sy)` has been moved to `(x, y)` by the time the
/// pass comes to `(stop_x, stop_y)`.
spec fn arrived(b: Board, stop_x: int, stop_y: int, sx: int, sy: int, x: int, y: int) -> bool {
    visited(sx, sy, stop_x, stop_y) && b.fall_target(sx, sy) == Some((x, y))
}

/// The buffer's cell at `(x, y)` when the pass over `b` has come to
/// `(stop_x, stop_y)`.
spec fn cell_in_pass(b: Board, stop_x: int, stop_y: int, x: int, y: int) -> Cell {
    if arrived(b, stop_x, stop_y, x + 1, y - 1, x, y) {
        b.at(x + 1, y - 1)
    } else if arrived(b, stop_x, stop_y, x, y - 1, x, y) {
        b.at(x, y - 1)
    } else if arrived(b, stop_x, stop_y, x - 1, y - 1, x, y) {
        b.at(x - 1, y - 1)
    } else if visited(x, y, stop_x, stop_y) && b.fall_target(x, y) is Some {
        Cell::Empty
    } else {
        b.at(x, y)
    }
}

/// Whether the buffer of `g` is what the pass over the committed cells has
/// written when it comes to `(stop_x, stop_y)`.
spec fn pass_reached(g: Grid, stop_x: int, stop_y: int) -> bool {
    forall|u: int, v: int|
        g@.current.contains(u, v) ==> #[trigger] g@.next.at(u, v) == cell_in_pass(
            g@.current,
            stop_x,
            stop_y,
            u,
            v,
        )
}

impl Grid {
    /// Where the committed grain at `(x, y)` falls to, if there is a grain
    /// and it can fall.
    pub fn fall_target(&self, x: usize, y: usize) -> (r: Option<(usize, usize)>)
        requires
            self.wf(),
        ensures
            match r {
                Some((tx, ty)) => self@.current.fall_target(x as int, y as int) == Some(
                    (tx as int, ty as int),
                ),
                None => self@.current.fall_target(x as int, y as int) is None,
            },
    {
        let w = self.width();
        let h = self.height();
        if x >= w || y >= h {
            return None;
        }
        if self.cell(x, y).is_empty() {
            return None;
        }
        if y + 1 >= h {
            return None;
        }
        if self.cell(x, y + 1).is_empty() {
            Some((x, y + 1))
        } else if x >= 1 && self.cell(x - 1, y + 1).is_empty() {
            Some((x - 1, y + 1))
        } else if x + 1 < w && self.cell(x + 1, y + 1).is_empty() {
            Some((x + 1, y + 1))
        } else {
            None
        }
    }

    /// Moves the grain at `(x, y)`, if it falls: in the buffer its target
    /// takes the grain and its own position takes what the target held.
    fn fall(&mut self, x: usize, y: usize)
        requires
            old(self).wf(),
            old(self)@.current.contains(x as int, y as int),
            pass_reached(*old(self), x as int, y as int),
        ensures
            final(self).wf(),
            final(self)@.current == old(self)@.current,
            pass_reached(*final(self), x + 1, y as int),
    {
        let ghost b = self@.current;
        match self.fall_target(x, y) {
            Some((tx, ty)) => {
                let grain = self.cell(x, y);
                let hole = self.cell(tx, ty);
                self.put(tx, ty, grain);
                let ghost mid = self@.next;
                self.put(x, y, hole);
                proof {
                    assert forall|u: int, v: int| b.contains(u, v)
                        implies #[trigger] self@.next.at(u, v)
                        == cell_in_pass(b, x + 1, y as int, u, v) by {
                        if u == x && v == y {
                        } else if u == tx && v == ty {
                            assert(self@.next.at(u, v) == mid.at(u, v));
                        } else {
                            assert(self@.next.at(u, v) == mid.at(u, v));
                            assert(mid.at(u, v) == old(self)@.next.at(u, v));
                        }
                    }
                }
            },
            None => {
                proof {
                    assert forall|u: int, v: int| b.contains(u, v)
                        implies #[trigger] self@.next.at(u, v)
                        == cell_in_pass(b, x + 1, y as int, u, v) by {}
                }
            },
        }
    }

    /// One settling pass over the rows above `limit`, from the committed
    /// cells into the buffer. Whatever the buffer held is overwritten; the
    /// committed cells stay as they are until the next commit.
    pub fn settle_rows(&mut self, limit: usize)
        requires
            old(self).wf(),
        ensures
            final(self).wf(),
            final(self)@.current == old(self)@.current,
            final(self)@.next == old(self)@.current.settled_rows(limit as int),
    {
        self.reseed();
        let w = self.width();
        let h = self.height();
        let rows = if limit < h {
            limit
        } else {
            h
        };
        let mut y: usize = 0;
        while y < rows
            invariant
                self.wf(),
                self@.current == old(self)@.current,
                w == self@.current.width,
                h == self@.current.height,
                rows <= h,
                y <= rows,
                pass_reached(*self, 0, y as int),
            decreases rows - y,
        {
            let mut x: usize = 0;
            while x < w
                invariant
                    self.wf(),
                    self@.current == old(self)@.current,
                    w == self@.current.width,
                    h == self@.current.height,
                    y < rows <= h,
                    x <= w,
                    pass_reached(*self, x as int, y as int),
                decreases w - x,
            {
                self.fall(x, y);
                x += 1;
            }
            proof {
                let b = self@.current;
                assert forall|u: int, v: int| b.contains(u, v)
                    implies #[trigger] self@.next.at(u, v) == cell_in_pass(b, 0, y + 1, u, v) by {
                    assert(self@.next.at(u, v) == cell_in_pass(b, w as int, y as int, u, v));
                }
            }
            y += 1;
        }
        proof {
            let b = self@.current;
            let s = b.settled_rows(limit as int);
            b.lemma_settled_rows(limit as int);
            assert forall|i: int| 0 <= i < b.cells.len() implies self@.next.cells[i]
                == s.cells[i] by {
                b.lemma_position_of_index(i);
                let u = i % (b.width as int);
                let v = i / (b.width as int);
                assert(self@.next.at(u, v) == cell_in_pass(b, 0, rows as int, u, v));
            }
            assert(self@.next.cells =~= s.cells);
        }
    }

    /// One settling pass over all rows, from the committed cells into the
    /// buffer.
    pub fn settle(&mut self)
        requires
            old(self).wf(),
        ensures
            final(self).wf(),
            final(self)@.current == old(self)@.current,
            final(self)@.next == old(self)@.current.settled(),
    {
        let h = self.height();
        self.settle_rows(h);
    }
}

} // verus!
