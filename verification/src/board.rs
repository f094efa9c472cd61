//! The mathematical model of one buffer of the grid, and of the settling rule
//! on it.

use vstd::prelude::*;
use crate::cell::Cell;

verus! {

/// A rectangle of cells, stored row by row: the cell at column `x` of row `y`
/// has index `y * width + x`. Row 0 is the top; grains fall towards higher rows.
pub struct Board {
    pub width: nat,
    pub height: nat,
    pub cells: Seq<Cell>,
}

impl Board {
    /// The board has at least one cell, and exactly `width * height` of them.
    pub open spec fn wf(self) -> bool {
        &&& self.width > 0
        &&& self.height > 0
        &&& self.cells.len() == self.width * self.height
    }

    /// Whether `(x, y)` is a position of the board.
    pub open spec fn contains(self, x: int, y: int) -> bool {
        0 <= x < self.width && 0 <= y < self.height
    }

    /// The place of `(x, y)` in `cells`.
    pub open spec fn index(self, x: int, y: int) -> int {
        y * self.width + x
    }

    /// The cell at column `x` of row `y`.
    pub open spec fn at(self, x: int, y: int) -> Cell {
        self.cells[self.index(x, y)]
    }

    /// Whether `(x, y)` is a position of the board that holds no grain.
    pub open spec fn vacant(self, x: int, y: int) -> bool {
        self.contains(x, y) && self.at(x, y) is Empty
    }

    /// Whether two boards have the same dimensions.
    pub open spec fn same_shape(self, other: Board) -> bool {
        self.width == other.width && self.height == other.height
    }

    /// Where the grain at `(x, y)` falls to, if it falls: the first vacant
    /// position among straight down, down-left and down-right, in that order.
    /// A position without a grain, or off the board, has no target; nor has a
    /// grain in the last row, below which there is no position.
    pub open spec fn fall_target(self, x: int, y: int) -> Option<(int, int)> {
        if !self.contains(x, y) || !(self.at(x, y) is Occupied) {
            None
        } else if self.vacant(x, y + 1) {
            Some((x, y + 1))
        } else if self.vacant(x - 1, y + 1) {
            Some((x - 1, y + 1))
        } else if self.vacant(x + 1, y + 1) {
            Some((x + 1, y + 1))
        } else {
            None
        }
    }

    /// Whether a pass over the rows above `limit` moves the grain at
    /// `(sx, sy)` to `(x, y)`.
    pub open spec fn falls_into(self, limit: int, sx: int, sy: int, x: int, y: int) -> bool {
        sy < limit && self.fall_target(sx, sy) == Some((x, y))
    }

    /// Whether a pass over the rows above `limit` moves the grain at `(x, y)`
    /// away.
    pub open spec fn leaves(self, limit: int, x: int, y: int) -> bool {
        y < limit && self.fall_target(x, y) is Some
    }

    /// The cell at `(x, y)` after one pass over the rows above `limit`.
    ///
    /// Every grain in those rows moves to its fall target, all targets being
    /// chosen on the board as it was before the pass. The pass visits each
    /// row from left to right, so where several grains fall into one
    /// position, the one that started furthest right is the one that stays.
    /// A position that a grain left and none entered is empty.
    pub open spec fn settled_cell(self, limit: int, x: int, y: int) -> Cell {
        if self.falls_into(limit, x + 1, y - 1, x, y) {
            self.at(x + 1, y - 1)
        } else if self.falls_into(limit, x, y - 1, x, y) {
            self.at(x, y - 1)
        } else if self.falls_into(limit, x - 1, y - 1, x, y) {
            self.at(x - 1, y - 1)
        } else if self.leaves(limit, x, y) {
            Cell::Empty
        } else {
            self.at(x, y)
        }
    }

    /// The board after one pass over the rows above `limit`.
    pub open spec fn settled_rows(self, limit: int) -> Board {
        Board {
            width: self.width,
            height: self.height,
            cells: Seq::new(
                self.cells.len(),
                |i: int| self.settled_cell(limit, i % (self.width as int), i / (self.width as int)),
            ),
        }
    }

    /// The board after one pass over all rows.
    pub open spec fn settled(self) -> Board {
        self.settled_rows(self.height as int)
    }

    /// The board after `n` passes over all rows.
    pub open spec fn settled_times(self, n: nat) -> Board
        decreases n,
    {
        if n == 0 {
            self
        } else {
            self.settled_times((n - 1) as nat).settled()
        }
    }

    /// Whether every cell of row `y` holds a grain.
    pub open spec fn row_full(self, y: int) -> bool {
        forall|x: int| 0 <= x < self.width ==> #[trigger] self.at(x, y) is Occupied
    }

    /// Whether every row of the board from `from` down to the last is full.
    pub open spec fn full_from(self, from: int) -> bool {
        forall|y: int| 0 <= y && from <= y < self.height ==> #[trigger] self.row_full(y)
    }

    /// The settling front after its maintenance: starting from `front`, it
    /// moves up over each full row directly above it, and stops below the
    /// first row that is not full, or at the top.
    pub open spec fn advanced_front(self, front: int) -> int
        decreases front,
    {
        if front > 0 && self.row_full(front - 1) {
            self.advanced_front(front - 1)
        } else {
            front
        }
    }

    /// The number of grains among the first `n` cells, taken row by row.
    pub open spec fn occupied_among(self, n: int) -> nat
        decreases n,
    {
        if n <= 0 {
            0
        } else {
            let rest = self.occupied_among(n - 1);
            if self.cells[n - 1] is Occupied {
                rest + 1
            } else {
                rest
            }
        }
    }

    /// The number of grains on the board.
    pub open spec fn occupied_count(self) -> nat {
        self.occupied_among(self.cells.len() as int)
    }

    /// Whether no two grains in the rows above `limit` fall into the same
    /// position.
    pub open spec fn collision_free(self, limit: int) -> bool {
        forall|x1: int, y1: int, x2: int, y2: int|
            #![trigger self.fall_target(x1, y1), self.fall_target(x2, y2)]
            y1 < limit && y2 < limit && self.fall_target(x1, y1) is Some && self.fall_target(
                x1,
                y1,
            ) == self.fall_target(x2, y2) ==> x1 == x2 && y1 == y2
    }

    /// Every position of the board has a place in `cells`.
    pub proof fn lemma_index_in_range(self, x: int, y: int)
        requires
            self.wf(),
            self.contains(x, y),
        ensures
            0 <= self.index(x, y) < self.cells.len(),
    {
        let w = self.width as int;
        let h = self.height as int;
        assert(0 <= y * w + x < w * h) by (nonlinear_arith)
            requires
                0 <= x < w,
                0 <= y < h,
        ;
    }

    /// Different positions have different places in `cells`.
    pub proof fn lemma_index_distinct(self, x1: int, y1: int, x2: int, y2: int)
        requires
            0 <= x1 < self.width,
            0 <= x2 < self.width,
            x1 != x2 || y1 != y2,
        ensures
            self.index(x1, y1) != self.index(x2, y2),
    {
        let w = self.width as int;
        assert(y1 * w + x1 != y2 * w + x2) by (nonlinear_arith)
            requires
                0 <= x1 < w,
                0 <= x2 < w,
                x1 != x2 || y1 != y2,
        ;
    }

    /// A place in `cells` belongs to exactly one position of the board.
    pub proof fn lemma_position_of_index(self, i: int)
        requires
            self.wf(),
            0 <= i < self.cells.len(),
        ensures
            self.contains(i % (self.width as int), i / (self.width as int)),
            self.index(i % (self.width as int), i / (self.width as int)) == i,
    {
        let w = self.width as int;
        let h = self.height as int;
        vstd::arithmetic::div_mod::lemma_fundamental_div_mod(i, w);
        vstd::arithmetic::div_mod::lemma_mod_bound(i, w);
        assert(w * (i / w) == (i / w) * w) by (nonlinear_arith);
        assert(0 <= i / w < h) by (nonlinear_arith)
            requires
                0 <= i < w * h,
                0 < w,
                i == (i / w) * w + i % w,
                0 <= i % w < w,
        ;
    }

    /// The position of a place in `cells`, computed back from the position.
    pub proof fn lemma_index_of_position(self, x: int, y: int)
        requires
            self.width > 0,
            0 <= x < self.width,
        ensures
            self.index(x, y) % (self.width as int) == x,
            self.index(x, y) / (self.width as int) == y,
    {
        vstd::arithmetic::div_mod::lemma_fundamental_div_mod_converse(
            self.index(x, y),
            self.width as int,
            y,
            x,
        );
    }

    /// A pass keeps the dimensions, and its cells are those that
    /// `settled_cell` names.
    pub proof fn lemma_settled_rows(self, limit: int)
        requires
            self.wf(),
        ensures
            self.settled_rows(limit).wf(),
            self.settled_rows(limit).same_shape(self),
            forall|x: int, y: int|
                self.contains(x, y) ==> #[trigger] self.settled_rows(limit).at(x, y)
                    == self.settled_cell(limit, x, y),
    {
        assert forall|x: int, y: int| self.contains(x, y) implies #[trigger] self.settled_rows(
            limit,
        ).at(x, y) == self.settled_cell(limit, x, y) by {
            self.lemma_index_in_range(x, y);
            self.lemma_index_of_position(x, y);
        }
    }
}

} // verus!
