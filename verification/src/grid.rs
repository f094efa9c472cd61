//! The grid store: the committed cells, the buffer that the next frame is
//! written into, and the commit that makes the buffer the committed state.

use vstd::prelude::*;
use crate::board::Board;
use crate::cell::{Cell, SandError};

verus! {

/// What a grid holds: the committed board and the board being written.
pub struct GridView {
    pub current: Board,
    pub next: Board,
}

impl GridView {
    /// Both boards are well formed and have the same dimensions.
    pub open spec fn wf(self) -> bool {
        &&& self.current.wf()
        &&& self.next.wf()
        &&& self.current.same_shape(self.next)
    }
}

/// A grid of fixed size with two buffers. Reads see `current`; writes go to
/// `next`, and `commit` copies `next` over `current`.
pub struct Grid {
    width: usize,
    height: usize,
    current: Vec<Cell>,
    next: Vec<Cell>,
}

impl View for Grid {
    type V = GridView;

    closed spec fn view(&self) -> GridView {
        GridView {
            current: Board {
                width: self.width as nat,
                height: self.height as nat,
                cells: self.current@,
            },
            next: Board { width: self.width as nat, height: self.height as nat, cells: self.next@ },
        }
    }
}

impl Grid {
    /// The invariant of the grid, which every operation keeps.
    pub open spec fn wf(&self) -> bool {
        self@.wf()
    }

    /// A grid of `width` by `height` empty cells. There is none with a zero
    /// dimension, nor with more cells than can be addressed.
    pub fn new(width: usize, height: usize) -> (r: Option<Grid>)
        ensures
            r is None <==> width == 0 || height == 0 || width * height > usize::MAX,
            r matches Some(g) ==> {
                &&& g.wf()
                &&& g@.current.width == width
                &&& g@.current.height == height
                &&& g@.next == g@.current
                &&& forall|i: int| 0 <= i < width * height ==> g@.current.cells[i] == Cell::Empty
            },
    {
        if width == 0 || height == 0 {
            return None;
        }
        match width.checked_mul(height) {
            None => None,
            Some(n) => {
                let current = vec![Cell::Empty; n];
                let next = vec![Cell::Empty; n];
                assert(current@ =~= next@);
                Some(Grid { width, height, current, next })
            },
        }
    }

    /// The number of columns.
    pub fn width(&self) -> (w: usize)
        ensures
            w == self@.current.width,
            w == self@.next.width,
    {
        self.width
    }

    /// The number of rows.
    pub fn height(&self) -> (h: usize)
        ensures
            h == self@.current.height,
            h == self@.next.height,
    {
        self.height
    }

    /// The place of `(x, y)` in the buffers.
    fn offset(&self, x: usize, y: usize) -> (i: usize)
        requires
            self.wf(),
            self@.current.contains(x as int, y as int),
        ensures
            i == self@.current.index(x as int, y as int),
            i == self@.next.index(x as int, y as int),
            i < self.current@.len(),
            i < self.next@.len(),
    {
        proof {
            self@.current.lemma_index_in_range(x as int, y as int);
            self@.next.lemma_index_in_range(x as int, y as int);
            assert(self.current@.len() == self.current.len());
            assert(0 <= y * self.width) by (nonlinear_arith)
                requires
                    0 <= y,
                    0 <= self.width,
            ;
        }
        y * self.width + x
    }

    /// The committed cell at `(x, y)`, which must lie on the grid.
    pub(crate) fn cell(&self, x: usize, y: usize) -> (c: Cell)
        requires
            self.wf(),
            self@.current.contains(x as int, y as int),
        ensures
            c == self@.current.at(x as int, y as int),
    {
        let i = self.offset(x, y);
        self.current[i]
    }

    /// The cell at `(x, y)` of the buffer, which must lie on the grid.
    pub(crate) fn next_cell(&self, x: usize, y: usize) -> (c: Cell)
        requires
            self.wf(),
            self@.next.contains(x as int, y as int),
        ensures
            c == self@.next.at(x as int, y as int),
    {
        let i = self.offset(x, y);
        self.next[i]
    }

    /// Writes `cell` at `(x, y)` of the buffer, which must lie on the grid.
    pub(crate) fn put(&mut self, x: usize, y: usize, cell: Cell)
        requires
            old(self).wf(),
            old(self)@.next.contains(x as int, y as int),
        ensures
            final(self).wf(),
            final(self)@.current == old(self)@.current,
            final(self)@.next.same_shape(old(self)@.next),
            final(self)@.next.at(x as int, y as int) == cell,
            forall|u: int, v: int|
                old(self)@.next.contains(u, v) && (u != x || v != y)
                    ==> #[trigger] final(self)@.next.at(u, v) == old(self)@.next.at(u, v),
    {
        let i = self.offset(x, y);
        self.next[i] = cell;
        proof {
            assert forall|u: int, v: int|
                old(self)@.next.contains(u, v) && (u != x || v != y)
                implies #[trigger] self@.next.at(u, v) == old(self)@.next.at(u, v) by {
                old(self)@.next.lemma_index_in_range(u, v);
                old(self)@.next.lemma_index_distinct(u, v, x as int, y as int);
            }
        }
    }

    /// Whether every committed cell of row `y`, which must be a row of the
    /// grid, holds a grain.
    pub(crate) fn row_is_full(&self, y: usize) -> (full: bool)
        requires
            self.wf(),
            y < self@.current.height,
        ensures
            full == self@.current.row_full(y as int),
    {
        let mut x: usize = 0;
        while x < self.width
            invariant
                self.wf(),
                y < self@.current.height,
                x <= self.width,
                forall|u: int| 0 <= u < x ==> #[trigger] self@.current.at(u, y as int) is Occupied,
            decreases self.width - x,
        {
            if self.cell(x, y).is_empty() {
                return false;
            }
            x += 1;
        }
        true
    }

    /// The number of committed grains.
    pub fn count_occupied(&self) -> (n: usize)
        requires
            self.wf(),
        ensures
            n == self@.current.occupied_count(),
    {
        let len = self.current.len();
        let mut n: usize = 0;
        let mut i: usize = 0;
        while i < len
            invariant
                len == self.current@.len(),
                i <= len,
                n <= i,
                n == self@.current.occupied_among(i as int),
            decreases len - i,
        {
            if self.current[i].is_occupied() {
                n += 1;
            }
            i += 1;
        }
        n
    }

    /// The committed cell at `(x, y)`.
    pub fn get(&self, x: usize, y: usize) -> (r: Result<Cell, SandError>)
        requires
            self.wf(),
        ensures
            self@.current.contains(x as int, y as int) ==> r == Ok::<Cell, SandError>(
                self@.current.at(x as int, y as int),
            ),
            !self@.current.contains(x as int, y as int) ==> r == Err::<Cell, SandError>(
                SandError::IndexOutOfBounds,
            ),
    {
        if x < self.width && y < self.height {
            Ok(self.cell(x, y))
        } else {
            Err(SandError::IndexOutOfBounds)
        }
    }

    /// The cell at `(x, y)` of the buffer, as written so far.
    pub fn get_next(&self, x: usize, y: usize) -> (r: Result<Cell, SandError>)
        requires
            self.wf(),
        ensures
            self@.next.contains(x as int, y as int) ==> r == Ok::<Cell, SandError>(
                self@.next.at(x as int, y as int),
            ),
            !self@.next.contains(x as int, y as int) ==> r == Err::<Cell, SandError>(
                SandError::IndexOutOfBounds,
            ),
    {
        if x < self.width && y < self.height {
            Ok(self.next_cell(x, y))
        } else {
            Err(SandError::IndexOutOfBounds)
        }
    }

    /// Writes `cell` at `(x, y)` of the buffer. The committed cells stay as
    /// they are, and so does the rest of the buffer. A position off the grid
    /// is refused, and then nothing is written.
    pub fn set_next(&mut self, x: usize, y: usize, cell: Cell) -> (r: Result<(), SandError>)
        requires
            old(self).wf(),
        ensures
            final(self).wf(),
            final(self)@.current == old(self)@.current,
            final(self)@.next.same_shape(old(self)@.next),
            old(self)@.next.contains(x as int, y as int) ==> {
                &&& r == Ok::<(), SandError>(())
                &&& final(self)@.next.cells == old(self)@.next.cells.update(
                    old(self)@.next.index(x as int, y as int),
                    cell,
                )
            },
            !old(self)@.next.contains(x as int, y as int) ==> {
                &&& r == Err::<(), SandError>(SandError::IndexOutOfBounds)
                &&& final(self)@ == old(self)@
            },
    {
        if x < self.width && y < self.height {
            let i = self.offset(x, y);
            self.next[i] = cell;
            Ok(())
        } else {
            Err(SandError::IndexOutOfBounds)
        }
    }

    /// Makes the buffer the committed state: afterwards both boards are what
    /// the buffer was.
    pub fn commit(&mut self)
        requires
            old(self).wf(),
        ensures
            final(self).wf(),
            final(self)@.current == old(self)@.next,
            final(self)@.next == old(self)@.next,
    {
        let n = self.next.len();
        let mut i: usize = 0;
        while i < n
            invariant
                self.wf(),
                n == self.next@.len(),
                n == self.current@.len(),
                i <= n,
                self@.next == old(self)@.next,
                self@.current.same_shape(old(self)@.current),
                forall|k: int| 0 <= k < i ==> self.current@[k] == self.next@[k],
            decreases n - i,
        {
            self.current[i] = self.next[i];
            i += 1;
        }
        assert(self.current@ =~= self.next@);
    }

    /// Makes the buffer a copy of the committed state.
    pub fn reseed(&mut self)
        requires
            old(self).wf(),
        ensures
            final(self).wf(),
            final(self)@.current == old(self)@.current,
            final(self)@.next == old(self)@.current,
    {
        let n = self.next.len();
        let mut i: usize = 0;
        while i < n
            invariant
                self.wf(),
                n == self.next@.len(),
                n == self.current@.len(),
                i <= n,
                self@.current == old(self)@.current,
                self@.next.same_shape(old(self)@.next),
                forall|k: int| 0 <= k < i ==> self.next@[k] == self.current@[k],
            decreases n - i,
        {
            self.next[i] = self.current[i];
            i += 1;
        }
        assert(self.next@ =~= self.current@);
    }
}

} // verus!
