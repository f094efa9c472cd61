//! What holds of the settling rule on every board.

use vstd::prelude::*;
use crate::board::Board;

verus! {

/// One if `p` holds, and zero if not.
spec fn one_if(p: bool) -> int {
    if p {
        1
    } else {
        0
    }
}

/// The number of grains among the first `k` cells of row `y`.
spec fn row_grains(b: Board, y: int, k: int) -> int
    decreases k,
{
    if k <= 0 {
        0
    } else {
        row_grains(b, y, k - 1) + one_if(b.at(k - 1, y) is Occupied)
    }
}

/// The number of grains in the rows above `r`.
spec fn grains_above(b: Board, r: int) -> int
    decreases r,
{
    if r <= 0 {
        0
    } else {
        grains_above(b, r - 1) + row_grains(b, r - 1, b.width as int)
    }
}

/// The number of grains among the first `k` cells of row `y` that a pass
/// moves away.
spec fn row_leavers(b: Board, limit: int, y: int, k: int) -> int
    decreases k,
{
    if k <= 0 {
        0
    } else {
        row_leavers(b, limit, y, k - 1) + one_if(b.leaves(limit, k - 1, y))
    }
}

/// Whether a pass moves some grain to `(x, y)`.
spec fn entered(b: Board, limit: int, x: int, y: int) -> bool {
    ||| b.falls_into(limit, x + 1, y - 1, x, y)
    ||| b.falls_into(limit, x, y - 1, x, y)
    ||| b.falls_into(limit, x - 1, y - 1, x, y)
}

/// The number of positions among the first `k` of row `y` that a pass moves
/// a grain to.
spec fn row_arrivals(b: Board, limit: int, y: int, k: int) -> int
    decreases k,
{
    if k <= 0 {
        0
    } else {
        row_arrivals(b, limit, y, k - 1) + one_if(entered(b, limit, k - 1, y))
    }
}

/// Counting cell by cell and counting row by row give the same number.
proof fn lemma_count_by_rows(b: Board, y: int, k: int)
    requires
        b.wf(),
        0 <= y < b.height,
        0 <= k <= b.width,
    ensures
        b.occupied_among(y * b.width + k) == grains_above(b, y) + row_grains(b, y, k),
    decreases y, k,
{
    let w = b.width as int;
    if k > 0 {
        lemma_count_by_rows(b, y, k - 1);
        b.lemma_index_in_range(k - 1, y);
        assert(b.at(k - 1, y) == b.cells[y * w + k - 1]);
    } else if y > 0 {
        lemma_count_by_rows(b, y - 1, w);
        assert(y * w == (y - 1) * w + w) by (nonlinear_arith);
    } else {
        assert(y * w == 0) by (nonlinear_arith)
            requires
                y == 0,
        ;
    }
}

/// The number of grains on a board is the sum over its rows.
proof fn lemma_count_all_rows(b: Board)
    requires
        b.wf(),
    ensures
        b.occupied_count() == grains_above(b, b.height as int),
{
    let w = b.width as int;
    let h = b.height as int;
    lemma_count_by_rows(b, h - 1, w);
    assert((h - 1) * w + w == w * h) by (nonlinear_arith);
}

/// In each row, a pass takes away the grains that leave and adds one for
/// each position that a grain is moved to.
proof fn lemma_row_change(b: Board, limit: int, y: int, k: int)
    requires
        b.wf(),
        0 <= y < b.height,
        0 <= k <= b.width,
    ensures
        row_grains(b.settled_rows(limit), y, k) == row_grains(b, y, k) - row_leavers(
            b,
            limit,
            y,
            k,
        ) + row_arrivals(b, limit, y, k),
    decreases k,
{
    if k > 0 {
        lemma_row_change(b, limit, y, k - 1);
        b.lemma_settled_rows(limit);
        assert(b.settled_rows(limit).at(k - 1, y) == b.settled_cell(limit, k - 1, y));
    }
}

/// Whether the grain at `(x, y)` falls into a position that a grain to its
/// left falls into too. Of the grains that fall into one position all but
/// the leftmost are in this case, and all but one are lost.
spec fn crowded_out(b: Board, limit: int, x: int, y: int) -> bool {
    ||| b.falls_into(limit, x, y, x - 1, y + 1) && (b.falls_into(limit, x - 1, y, x - 1, y + 1)
        || b.falls_into(limit, x - 2, y, x - 1, y + 1))
    ||| b.falls_into(limit, x, y, x, y + 1) && b.falls_into(limit, x - 1, y, x, y + 1)
}

/// The number of grains among the first `k` of row `y` that are crowded out.
spec fn row_crowded(b: Board, limit: int, y: int, k: int) -> int
    decreases k,
{
    if k <= 0 {
        0
    } else {
        row_crowded(b, limit, y, k - 1) + one_if(crowded_out(b, limit, k - 1, y))
    }
}

/// The number of grains in the rows above `r` that are crowded out.
spec fn crowded_above(b: Board, limit: int, r: int) -> int
    decreases r,
{
    if r <= 0 {
        0
    } else {
        crowded_above(b, limit, r - 1) + row_crowded(b, limit, r - 1, b.width as int)
    }
}

/// Whether the grain at `(k, y)` is the leftmost of those that fall into the
/// position down-left of it.
spec fn first_down_left(b: Board, limit: int, y: int, k: int) -> bool {
    &&& b.falls_into(limit, k, y, k - 1, y + 1)
    &&& !b.falls_into(limit, k - 1, y, k - 1, y + 1)
    &&& !b.falls_into(limit, k - 2, y, k - 1, y + 1)
}

/// The grains that leave a row and are not crowded out match the positions
/// entered in the row below one to one. Counted over the first `k` columns,
/// the two numbers differ by the two moves that cross the line between the
/// counted and the uncounted columns.
proof fn lemma_row_flow(b: Board, limit: int, y: int, k: int)
    requires
        b.wf(),
        0 <= y,
        y + 1 < b.height,
        0 <= k <= b.width,
    ensures
        row_leavers(b, limit, y, k) - row_crowded(b, limit, y, k) == row_arrivals(
            b,
            limit,
            y + 1,
            k,
        ) + one_if(b.falls_into(limit, k - 1, y, k, y + 1)) - one_if(
            first_down_left(b, limit, y, k),
        ),
    decreases k,
{
    if k > 0 {
        lemma_row_flow(b, limit, y, k - 1);
    }
}

/// No grain is moved into the top row, and none leaves the last row.
proof fn lemma_edge_rows(b: Board, limit: int, k: int)
    requires
        b.wf(),
        0 <= k <= b.width,
    ensures
        row_arrivals(b, limit, 0, k) == 0,
        row_leavers(b, limit, b.height - 1, k) == 0,
    decreases k,
{
    if k > 0 {
        lemma_edge_rows(b, limit, k - 1);
    }
}

/// Over the rows above `r`, a pass changes the number of grains by those
/// that left row `r - 1` for row `r` and by those that were crowded out
/// further up.
proof fn lemma_rows_change(b: Board, limit: int, r: int)
    requires
        b.wf(),
        1 <= r <= b.height,
    ensures
        grains_above(b.settled_rows(limit), r) == grains_above(b, r) - row_leavers(
            b,
            limit,
            r - 1,
            b.width as int,
        ) - crowded_above(b, limit, r - 1),
    decreases r,
{
    let w = b.width as int;
    lemma_row_change(b, limit, r - 1, w);
    b.lemma_settled_rows(limit);
    if r > 1 {
        lemma_rows_change(b, limit, r - 1);
        lemma_row_flow(b, limit, r - 2, w);
    } else {
        lemma_edge_rows(b, limit, w);
        assert(grains_above(b, 0) == 0);
        assert(grains_above(b.settled_rows(limit), 0) == 0);
    }
}

/// A pass lowers the number of grains by the number of those crowded out.
proof fn lemma_count_after_pass(b: Board, limit: int)
    requires
        b.wf(),
    ensures
        b.settled_rows(limit).occupied_count() == b.occupied_count() - crowded_above(
            b,
            limit,
            b.height - 1,
        ),
{
    let h = b.height as int;
    b.lemma_settled_rows(limit);
    lemma_count_all_rows(b);
    lemma_count_all_rows(b.settled_rows(limit));
    lemma_rows_change(b, limit, h);
    lemma_edge_rows(b, limit, b.width as int);
}

/// A count of crowded grains is never negative, and not zero once one such
/// grain is among those counted.
proof fn lemma_row_crowded_counts(b: Board, limit: int, y: int, k: int, x: int)
    ensures
        row_crowded(b, limit, y, k) >= 0,
        0 <= x < k && crowded_out(b, limit, x, y) ==> row_crowded(b, limit, y, k) >= 1,
    decreases k,
{
    if k > 0 {
        lemma_row_crowded_counts(b, limit, y, k - 1, x);
    }
}

/// The same over several rows.
proof fn lemma_crowded_above_counts(b: Board, limit: int, r: int, x: int, y: int)
    ensures
        crowded_above(b, limit, r) >= 0,
        0 <= y < r && 0 <= x < b.width && crowded_out(b, limit, x, y) ==> crowded_above(
            b,
            limit,
            r,
        ) >= 1,
    decreases r,
{
    if r > 0 {
        lemma_crowded_above_counts(b, limit, r - 1, x, y);
        lemma_row_crowded_counts(b, limit, r - 1, b.width as int, x);
    }
}

/// Where no two grains fall into one position, none is crowded out.
proof fn lemma_none_crowded_in_row(b: Board, limit: int, y: int, k: int)
    requires
        b.collision_free(limit),
    ensures
        row_crowded(b, limit, y, k) == 0,
    decreases k,
{
    if k > 0 {
        lemma_none_crowded_in_row(b, limit, y, k - 1);
    }
}

/// The same over several rows.
proof fn lemma_none_crowded(b: Board, limit: int, r: int)
    requires
        b.collision_free(limit),
    ensures
        crowded_above(b, limit, r) == 0,
    decreases r,
{
    if r > 0 {
        lemma_none_crowded(b, limit, r - 1);
        lemma_none_crowded_in_row(b, limit, r - 1, b.width as int);
    }
}

/// Settling never makes a grain: a pass leaves at most as many as there
/// were.
pub proof fn lemma_settle_never_adds(b: Board, limit: int)
    requires
        b.wf(),
    ensures
        b.settled_rows(limit).occupied_count() <= b.occupied_count(),
{
    lemma_count_after_pass(b, limit);
    lemma_crowded_above_counts(b, limit, b.height - 1, 0, 0);
}

/// Settling moves grains and never destroys one as long as no two grains
/// fall into the same position: then a pass leaves the number of grains as
/// it was.
pub proof fn lemma_settle_conserves(b: Board, limit: int)
    requires
        b.wf(),
        b.collision_free(limit),
    ensures
        b.settled_rows(limit).occupied_count() == b.occupied_count(),
{
    lemma_count_after_pass(b, limit);
    lemma_none_crowded(b, limit, b.height - 1);
}

/// Where two grains fall into the same position, only one of them is left
/// after the pass: the number of grains goes down.
pub proof fn lemma_collision_loses_grains(b: Board, limit: int)
    requires
        b.wf(),
        !b.collision_free(limit),
    ensures
        b.settled_rows(limit).occupied_count() < b.occupied_count(),
{
    let (x1, y1, x2, y2) = choose|x1: int, y1: int, x2: int, y2: int|
        #![trigger b.fall_target(x1, y1), b.fall_target(x2, y2)]
        y1 < limit && y2 < limit && b.fall_target(x1, y1) is Some && b.fall_target(x1, y1)
            == b.fall_target(x2, y2) && !(x1 == x2 && y1 == y2);
    let x = if x1 < x2 {
        x2
    } else {
        x1
    };
    assert(crowded_out(b, limit, x, y1));
    lemma_count_after_pass(b, limit);
    lemma_crowded_above_counts(b, limit, b.height - 1, x, y1);
}

/// A grain moves one row per pass at most: a grain that is at `(x, y)` after
/// a pass was there before it, or in the row above and at most one column
/// away.
pub proof fn lemma_grain_moves_one_row(b: Board, limit: int, x: int, y: int)
    requires
        b.wf(),
        b.contains(x, y),
        b.settled_rows(limit).at(x, y) is Occupied,
    ensures
        ({
            let grain = b.settled_rows(limit).at(x, y);
            ||| b.at(x, y) == grain
            ||| b.contains(x - 1, y - 1) && b.at(x - 1, y - 1) == grain
            ||| b.contains(x, y - 1) && b.at(x, y - 1) == grain
            ||| b.contains(x + 1, y - 1) && b.at(x + 1, y - 1) == grain
        }),
{
    b.lemma_settled_rows(limit);
}

/// A pass leaves a grain in the last row where it is.
pub proof fn lemma_floor_grain_stays(b: Board, limit: int, x: int)
    requires
        b.wf(),
        0 <= x < b.width,
        b.at(x, b.height - 1) is Occupied,
    ensures
        b.settled_rows(limit).at(x, b.height - 1) == b.at(x, b.height - 1),
{
    b.lemma_settled_rows(limit);
}

/// Any number of passes keeps the dimensions of the board.
pub proof fn lemma_settled_times_shape(b: Board, n: nat)
    requires
        b.wf(),
    ensures
        b.settled_times(n).wf(),
        b.settled_times(n).same_shape(b),
    decreases n,
{
    if n > 0 {
        lemma_settled_times_shape(b, (n - 1) as nat);
        b.settled_times((n - 1) as nat).lemma_settled_rows(b.height as int);
    }
}

/// A grain in the last row never moves, however many passes follow.
pub proof fn lemma_floor_grain_never_moves(b: Board, x: int, n: nat)
    requires
        b.wf(),
        0 <= x < b.width,
        b.at(x, b.height - 1) is Occupied,
    ensures
        b.settled_times(n).at(x, b.height - 1) == b.at(x, b.height - 1),
    decreases n,
{
    if n > 0 {
        let prev = b.settled_times((n - 1) as nat);
        lemma_settled_times_shape(b, (n - 1) as nat);
        lemma_floor_grain_never_moves(b, x, (n - 1) as nat);
        lemma_floor_grain_stays(prev, prev.height as int, x);
    }
}

/// Where every row from `from` down is full, a pass changes nothing in those
/// rows.
pub proof fn lemma_full_rows_stay(b: Board, limit: int, from: int)
    requires
        b.wf(),
        b.full_from(from),
    ensures
        forall|x: int, y: int|
            b.contains(x, y) && from <= y
                ==> #[trigger] b.settled_rows(limit).at(x, y) == b.at(x, y),
        b.settled_rows(limit).full_from(from),
{
    b.lemma_settled_rows(limit);
    let s = b.settled_rows(limit);
    assert forall|x: int, y: int| b.contains(x, y) && from <= y implies #[trigger] s.at(x, y)
        == b.at(x, y) by {
        assert(b.row_full(y));
        assert(b.at(x, y) is Occupied);
        if y + 1 < b.height {
            assert(b.row_full(y + 1));
            if x >= 1 {
                assert(b.at(x - 1, y + 1) is Occupied);
            }
            assert(b.at(x, y + 1) is Occupied);
            if x + 1 < b.width {
                assert(b.at(x + 1, y + 1) is Occupied);
            }
        }
    }
    assert forall|y: int| 0 <= y && from <= y < s.height implies #[trigger] s.row_full(y) by {
        assert(b.row_full(y));
        assert forall|x: int| 0 <= x < s.width implies #[trigger] s.at(x, y) is Occupied by {
            assert(b.at(x, y) is Occupied);
            assert(s.at(x, y) == b.at(x, y));
        }
    }
}

/// Once every row from `from` down is full, those rows stay exactly as they
/// are, however many passes follow.
pub proof fn lemma_full_rows_never_change(b: Board, from: int, n: nat)
    requires
        b.wf(),
        b.full_from(from),
    ensures
        forall|x: int, y: int|
            b.contains(x, y) && from <= y
                ==> #[trigger] b.settled_times(n).at(x, y) == b.at(x, y),
        b.settled_times(n).full_from(from),
    decreases n,
{
    if n > 0 {
        let prev = b.settled_times((n - 1) as nat);
        lemma_settled_times_shape(b, (n - 1) as nat);
        lemma_full_rows_never_change(b, from, (n - 1) as nat);
        lemma_full_rows_stay(prev, prev.height as int, from);
        assert forall|x: int, y: int| b.contains(x, y) && from <= y
            implies #[trigger] b.settled_times(n).at(x, y) == b.at(x, y) by {
            assert(prev.settled().at(x, y) == prev.at(x, y));
        }
    }
}

/// The maintenance of the front never moves it down. It passes over full
/// rows only, and it stops only at the top or below a row that is not full.
pub proof fn lemma_advanced_front(b: Board, front: int)
    ensures
        b.advanced_front(front) <= front,
        0 <= front ==> 0 <= b.advanced_front(front),
        forall|y: int| b.advanced_front(front) <= y < front ==> #[trigger] b.row_full(y),
        b.advanced_front(front) > 0 ==> !b.row_full(b.advanced_front(front) - 1),
    decreases front,
{
    if front > 0 && b.row_full(front - 1) {
        lemma_advanced_front(b, front - 1);
    }
}

/// Rows that are full need not be visited: where every row from `limit` down
/// is full, a pass over the rows above `limit` gives what a pass over all
/// rows gives.
pub proof fn lemma_full_rows_can_be_skipped(b: Board, limit: int)
    requires
        b.wf(),
        b.full_from(limit),
    ensures
        b.settled_rows(limit) == b.settled(),
{
    let h = b.height as int;
    let w = b.width as int;
    assert forall|i: int| 0 <= i < b.cells.len() implies b.settled_rows(limit).cells[i]
        == b.settled_rows(h).cells[i] by {
        b.lemma_position_of_index(i);
        let x = i % w;
        let y = i / w;
        lemma_skipped_cell(b, limit, x, y);
    }
    assert(b.settled_rows(limit).cells =~= b.settled_rows(h).cells);
}

/// A grain in or below a full row cannot fall if the rows below are full
/// too, so leaving those rows out of a pass changes no cell.
proof fn lemma_skipped_cell(b: Board, limit: int, x: int, y: int)
    requires
        b.wf(),
        b.full_from(limit),
        b.contains(x, y),
    ensures
        b.settled_cell(limit, x, y) == b.settled_cell(b.height as int, x, y),
{
    assert forall|sx: int, sy: int| limit <= sy + 1 implies #[trigger] b.fall_target(sx, sy)
        is None by {
        if b.contains(sx, sy) && sy + 1 < b.height {
            assert(b.row_full(sy + 1));
            if sx >= 1 {
                assert(b.at(sx - 1, sy + 1) is Occupied);
            }
            assert(b.at(sx, sy + 1) is Occupied);
            if sx + 1 < b.width {
                assert(b.at(sx + 1, sy + 1) is Occupied);
            }
        }
    }
}

} // verus!
