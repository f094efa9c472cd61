//! The brush editor: disc-shaped strokes that add grains to the buffer or
//! remove them from it.

use vstd::prelude::*;
use crate::board::Board;
use crate::cell::{Cell, Color, SandError};
use crate::grid::Grid;

verus! {

/// Whether the offset `(dx, dy)` from the centre of a brush of radius `r`
/// lies inside the brush. The brush is the open disc: the distance
/// `sqrt(dx² + dy²)` is less than `r`, which for whole numbers and a radius
/// that is not negative says the same as `dx² + dy² < r²`.
pub open spec fn in_disc(dx: int, dy: int, r: int) -> bool {
    dx * dx + dy * dy < r * r
}

/// Whether a stroke that goes through its offsets row by row, each row from
/// the left, has come to `(dx, dy)` before it comes to `(stop_dx, stop_dy)`.
spec fn passed(dx: int, dy: int, stop_dx: int, stop_dy: int) -> bool {
    dy < stop_dy || (dy == stop_dy && dx < stop_dx)
}

/// The buffer's cell at `(x, y)` when a stroke that removes, made on
/// `before` with its centre at `(cx, cy)`, has come to the offset
/// `(stop_dx, stop_dy)`.
spec fn cell_in_stroke(
    before: Board,
    cx: int,
    cy: int,
    r: int,
    stop_dx: int,
    stop_dy: int,
    x: int,
    y: int,
) -> Cell {
    if in_disc(x - cx, y - cy, r) && passed(x - cx, y - cy, stop_dx, stop_dy) {
        Cell::Empty
    } else {
        before.at(x, y)
    }
}

/// An offset inside the disc is less than the radius in each direction.
proof fn lemma_disc_in_square(dx: int, dy: int, r: int)
    requires
        0 <= r,
        in_disc(dx, dy, r),
    ensures
        -r < dx < r,
        -r < dy < r,
{
    assert(-r < dx < r && -r < dy < r) by (nonlinear_arith)
        requires
            0 <= r,
            dx * dx + dy * dy < r * r,
    ;
}

/// Whether `(dx, dy)` lies inside the disc of radius `r`, for offsets that
/// the strokes try.
fn offset_in_disc(dx: i64, dy: i64, r: i64) -> (b: bool)
    requires
        0 <= r <= i32::MAX,
        -r <= dx <= r,
        -r <= dy <= r,
    ensures
        b == in_disc(dx as int, dy as int, r as int),
{
    assert(dx * dx <= 0x3fff_ffff_0000_0001 && dy * dy <= 0x3fff_ffff_0000_0001 && 0 <= dx * dx
        && 0 <= dy * dy && 0 <= r * r <= 0x3fff_ffff_0000_0001) by (nonlinear_arith)
        requires
            0 <= r <= 0x7fff_ffff,
            -r <= dx <= r,
            -r <= dy <= r,
    ;
    dx * dx + dy * dy < r * r
}

/// Draws a whole number with `macroquad::rand::gen_range`, which is
/// `quad_rand::gen_range` on the generator that the whole process shares.
/// That function scales a 32-bit draw into the range in floating point and
/// truncates. For bounds as small as those admitted here every step of that
/// is exact, so the number lies in the range, `low` included and `high` not.
/// Which number comes is not stated: it depends on the draws made before.
#[verifier::external_body]
fn draw(low: i32, high: i32) -> (n: i32)
    requires
        0 <= low < high <= 0x10000,
    ensures
        low <= n < high,
{
    macroquad::rand::gen_range(low, high)
}

impl Grid {
    /// Writes a grain of `color` at `(x, y)` of the buffer if `roll` is not
    /// zero, and nothing if it is. A position off the grid is refused.
    pub fn drop_grain(&mut self, x: usize, y: usize, color: Color, roll: i32) -> (res: Result<
        (),
        SandError,
    >)
        requires
            old(self).wf(),
        ensures
            final(self).wf(),
            final(self)@.current == old(self)@.current,
            final(self)@.next.same_shape(old(self)@.next),
            !old(self)@.next.contains(x as int, y as int) ==> {
                &&& res == Err::<(), SandError>(SandError::IndexOutOfBounds)
                &&& final(self)@ == old(self)@
            },
            old(self)@.next.contains(x as int, y as int) ==> {
                &&& res == Ok::<(), SandError>(())
                &&& roll == 0 ==> final(self)@ == old(self)@
                &&& roll != 0 ==> final(self)@.next.at(x as int, y as int) == (Cell::Occupied {
                    color,
                })
            },
            forall|u: int, v: int|
                old(self)@.next.contains(u, v) && (u != x || v != y)
                    ==> #[trigger] final(self)@.next.at(u, v) == old(self)@.next.at(u, v),
    {
        if x < self.width() && y < self.height() {
            if roll != 0 {
                self.put(x, y, Cell::Occupied { color });
            }
            Ok(())
        } else {
            Err(SandError::IndexOutOfBounds)
        }
    }

    /// Removes every grain under the brush from the buffer: each position of
    /// the grid whose offset from `(cx, cy)` lies inside the disc of radius
    /// `r` becomes empty, and no other position is touched. A negative radius
    /// is refused, and then nothing is written.
    pub fn remove_stroke(&mut self, cx: i32, cy: i32, r: i32) -> (res: Result<(), SandError>)
        requires
            old(self).wf(),
        ensures
            final(self).wf(),
            final(self)@.current == old(self)@.current,
            final(self)@.next.same_shape(old(self)@.next),
            r < 0 ==> res == Err::<(), SandError>(SandError::InvalidRadius),
            r < 0 ==> final(self)@ == old(self)@,
            r >= 0 ==> res == Ok::<(), SandError>(()),
            r >= 0 ==> forall|x: int, y: int|
                old(self)@.next.contains(x, y) ==> #[trigger] final(self)@.next.at(x, y) == (
                if in_disc(x - cx, y - cy, r as int) {
                    Cell::Empty
                } else {
                    old(self)@.next.at(x, y)
                }),
    {
        if r < 0 {
            return Err(SandError::InvalidRadius);
        }
        let ghost before = self@.next;
        let w = self.width();
        let h = self.height();
        let radius = r as i64;
        let mut j: i64 = -radius;
        proof {
            assert forall|x: int, y: int| before.contains(x, y) implies before.at(x, y)
                == cell_in_stroke(before, cx as int, cy as int, r as int, -r, -r, x, y) by {
                if in_disc(x - cx, y - cy, r as int) {
                    lemma_disc_in_square(x - cx, y - cy, r as int);
                }
            }
        }
        while j <= radius
            invariant
                self.wf(),
                before == old(self)@.next,
                self@.current == old(self)@.current,
                self@.next.same_shape(before),
                w == before.width,
                h == before.height,
                0 <= radius == r,
                -radius <= j <= radius + 1,
                forall|x: int, y: int|
                    before.contains(x, y) ==> #[trigger] self@.next.at(x, y) == cell_in_stroke(
                        before,
                        cx as int,
                        cy as int,
                        r as int,
                        -r,
                        j as int,
                        x,
                        y,
                    ),
            decreases radius + 1 - j,
        {
            let mut i: i64 = -radius;
            while i <= radius
                invariant
                    self.wf(),
                    before == old(self)@.next,
                    self@.current == old(self)@.current,
                    self@.next.same_shape(before),
                    w == before.width,
                    h == before.height,
                    0 <= radius == r,
                    -radius <= j <= radius,
                    -radius <= i <= radius + 1,
                    forall|x: int, y: int|
                        before.contains(x, y) ==> #[trigger] self@.next.at(x, y) == cell_in_stroke(
                            before,
                            cx as int,
                            cy as int,
                            r as int,
                            i as int,
                            j as int,
                            x,
                            y,
                        ),
                decreases radius + 1 - i,
            {
                if offset_in_disc(i, j, radius) {
                    let px = cx as i64 + i;
                    let py = cy as i64 + j;
                    if 0 <= px && 0 <= py && (px as u64) < (w as u64) && (py as u64) < (h as u64) {
                        self.put(px as usize, py as usize, Cell::Empty);
                    }
                }
                i += 1;
            }
            proof {
                assert forall|x: int, y: int| before.contains(x, y) implies cell_in_stroke(
                    before,
                    cx as int,
                    cy as int,
                    r as int,
                    r + 1,
                    j as int,
                    x,
                    y,
                ) == cell_in_stroke(before, cx as int, cy as int, r as int, -r, j + 1, x, y) by {
                    if in_disc(x - cx, y - cy, r as int) {
                        lemma_disc_in_square(x - cx, y - cy, r as int);
                    }
                }
            }
            j += 1;
        }
        proof {
            assert forall|x: int, y: int| before.contains(x, y)
                implies #[trigger] self@.next.at(x, y) == (if in_disc(x - cx, y - cy, r as int) {
                Cell::Empty
            } else {
                before.at(x, y)
            }) by {
                if in_disc(x - cx, y - cy, r as int) {
                    lemma_disc_in_square(x - cx, y - cy, r as int);
                }
            }
        }
        Ok(())
    }

    /// Sprinkles grains of `color` under the brush: for each position of the
    /// grid whose offset from `(cx, cy)` lies inside the disc of radius `r`,
    /// a coin is tossed, and on one of its two sides the position takes a
    /// grain of `color` in the buffer. So each position under the brush ends
    /// as it was or with such a grain, and no other position is touched. A
    /// negative radius is refused, and then nothing is written.
    pub fn add_stroke(&mut self, cx: i32, cy: i32, r: i32, color: Color) -> (res: Result<
        (),
        SandError,
    >)
        requires
            old(self).wf(),
        ensures
            final(self).wf(),
            final(self)@.current == old(self)@.current,
            final(self)@.next.same_shape(old(self)@.next),
            r < 0 ==> res == Err::<(), SandError>(SandError::InvalidRadius),
            r < 0 ==> final(self)@ == old(self)@,
            r >= 0 ==> res == Ok::<(), SandError>(()),
            forall|x: int, y: int|
                old(self)@.next.contains(x, y) ==> {
                    ||| #[trigger] final(self)@.next.at(x, y) == old(self)@.next.at(x, y)
                    ||| in_disc(x - cx, y - cy, r as int) && final(self)@.next.at(x, y)
                        == (Cell::Occupied { color })
                },
    {
        if r < 0 {
            return Err(SandError::InvalidRadius);
        }
        let w = self.width();
        let h = self.height();
        let radius = r as i64;
        let mut j: i64 = -radius;
        while j <= radius
            invariant
                self.wf(),
                self@.current == old(self)@.current,
                self@.next.same_shape(old(self)@.next),
                w == self@.next.width,
                h == self@.next.height,
                0 <= radius == r,
                -radius <= j <= radius + 1,
                forall|x: int, y: int|
                    old(self)@.next.contains(x, y) ==> {
                        ||| #[trigger] self@.next.at(x, y) == old(self)@.next.at(x, y)
                        ||| in_disc(x - cx, y - cy, r as int) && self@.next.at(x, y)
                            == (Cell::Occupied { color })
                    },
            decreases radius + 1 - j,
        {
            let mut i: i64 = -radius;
            while i <= radius
                invariant
                    self.wf(),
                    self@.current == old(self)@.current,
                    self@.next.same_shape(old(self)@.next),
                    w == self@.next.width,
                    h == self@.next.height,
                    0 <= radius == r,
                    -radius <= j <= radius,
                    -radius <= i <= radius + 1,
                    forall|x: int, y: int|
                        old(self)@.next.contains(x, y) ==> {
                            ||| #[trigger] self@.next.at(x, y) == old(self)@.next.at(x, y)
                            ||| in_disc(x - cx, y - cy, r as int) && self@.next.at(x, y)
                                == (Cell::Occupied { color })
                        },
                decreases radius + 1 - i,
            {
                if offset_in_disc(i, j, radius) {
                    let px = cx as i64 + i;
                    let py = cy as i64 + j;
                    if 0 <= px && 0 <= py && (px as u64) < (w as u64) && (py as u64) < (h as u64) {
                        let roll = draw(0, 2);
                        match self.drop_grain(px as usize, py as usize, color, roll) {
                            Ok(()) => {},
                            Err(_) => {},
                        }
                    }
                }
                i += 1;
            }
            j += 1;
        }
        Ok(())
    }
}

} // verus!
