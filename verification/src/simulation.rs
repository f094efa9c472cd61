//! The state that the simulation carries from frame to frame, and the step
//! that one frame makes: settle, edit with the brush, commit.

use vstd::prelude::*;
use crate::brush::in_disc;
use crate::cell::Cell;
use crate::grid::{Grid, GridView};
use crate::laws::{lemma_full_rows_can_be_skipped, lemma_full_rows_stay};
use crate::palette::{Palette, PaletteView};

verus! {

/// What the input devices report for one frame.
#[derive(Clone, Copy, Debug)]
pub struct FrameInput {
    /// The pointer's column, in grid coordinates.
    pub pointer_x: i32,
    /// The pointer's row, in grid coordinates.
    pub pointer_y: i32,
    /// Whether the button that adds sand is down.
    pub add: bool,
    /// Whether the button that removes sand is down.
    pub remove: bool,
    /// How far the wheel was turned, in notches; up is positive.
    pub wheel: i32,
    /// Whether the wheel picks colours instead of sizing the brush.
    pub pick_color: bool,
    /// Whether the key for the next colour was pressed.
    pub next_color: bool,
    /// Whether the key for the previous colour was pressed.
    pub previous_color: bool,
    /// Whether the key that grows the brush is held.
    pub grow: bool,
    /// Whether the key that shrinks the brush is held.
    pub shrink: bool,
}

/// Which hints the renderer shows over the grid in one frame.
#[derive(Clone, Copy, Debug, PartialEq, Eq, Structural)]
pub struct Overlay {
    /// The hints on adding sand, removing sand and sizing the brush.
    pub brush_hints: bool,
    /// The hint on picking colours, which stays a little longer.
    pub color_hint: bool,
}

/// The number of frames by which the hint on colours outlasts the others.
pub const COLOR_HINT_EXTRA: i32 = 70;

/// How far the wheel moves the radius per notch.
pub const WHEEL_STEP: i32 = 5;

/// The largest radius of the brush on a grid of `height` rows: a third of the
/// height, as far as the radius' type can hold it.
pub open spec fn radius_limit(height: int) -> int {
    if height / 3 > i32::MAX {
        i32::MAX as int
    } else {
        height / 3
    }
}

/// `value`, brought into the range from `low` to `high`.
pub open spec fn clamped(value: int, low: int, high: int) -> int {
    if value < low {
        low
    } else if value > high {
        high
    } else {
        value
    }
}

/// The radius after the input of one frame: first the keys, one step each,
/// then the wheel, unless the wheel picks colours.
pub open spec fn adjusted_radius(radius: int, limit: int, input: FrameInput) -> int {
    let grown = if input.grow && radius < limit {
        radius + 1
    } else {
        radius
    };
    let shrunk = if input.shrink && grown > 0 {
        grown - 1
    } else {
        grown
    };
    if input.pick_color {
        shrunk
    } else {
        clamped(shrunk + WHEEL_STEP * input.wheel, 0, limit)
    }
}

/// The palette after the input of one frame: first the keys, then the wheel,
/// if the wheel picks colours.
pub open spec fn adjusted_palette(palette: PaletteView, input: FrameInput) -> PaletteView {
    let keyed_on = if input.next_color {
        palette.advanced()
    } else {
        palette
    };
    let keyed = if input.previous_color {
        keyed_on.retreated()
    } else {
        keyed_on
    };
    if input.pick_color && input.wheel < 0 {
        keyed.retreated()
    } else if input.pick_color && input.wheel > 0 {
        keyed.advanced()
    } else {
        keyed
    }
}

/// What a simulation holds.
pub struct SimulationView {
    pub grid: GridView,
    /// The settling front: every row from here down is full.
    pub stable_from: int,
    /// The radius of the brush.
    pub radius: int,
    pub palette: PaletteView,
    /// The frames left until the hints on the brush go away; it goes on
    /// below zero until the hint on colours has gone too.
    pub help_timer: int,
}

impl SimulationView {
    /// The grid and the palette are well formed, the front lies on the grid
    /// or just below it, every row from the front down is full in both
    /// boards, and the radius is within its limit.
    pub open spec fn wf(self) -> bool {
        &&& self.grid.wf()
        &&& self.palette.wf()
        &&& 0 <= self.stable_from <= self.grid.current.height
        &&& self.grid.current.full_from(self.stable_from)
        &&& self.grid.next.full_from(self.stable_from)
        &&& 0 <= self.radius <= radius_limit(self.grid.current.height as int)
    }

    /// Whether `other` has the same brush, palette and hints.
    pub open spec fn same_tools(self, other: SimulationView) -> bool {
        &&& self.radius == other.radius
        &&& self.palette == other.palette
        &&& self.help_timer == other.help_timer
    }

    /// The radius that the strokes of a frame with `input` use.
    pub open spec fn frame_radius(self, input: FrameInput) -> int {
        adjusted_radius(self.radius, radius_limit(self.grid.current.height as int), input)
    }

    /// Whether a frame with `input` may leave `cell` at `(x, y)`. The cell is
    /// what the settling pass gives, unless the brush is over it: a stroke
    /// that removes empties it, and a stroke that adds leaves it or puts a
    /// grain of the chosen colour there, as its coin falls. Where both
    /// strokes are made, the removing one is the later.
    pub open spec fn frame_allows(self, input: FrameInput, x: int, y: int, cell: Cell) -> bool {
        let settled = self.grid.current.settled().at(x, y);
        let color = adjusted_palette(self.palette, input).current();
        let under = in_disc(x - input.pointer_x, y - input.pointer_y, self.frame_radius(input));
        if input.remove && under {
            cell == Cell::Empty
        } else if input.add && under {
            cell == settled || cell == (Cell::Occupied { color })
        } else {
            cell == settled
        }
    }

    /// The hints that a frame shows.
    pub open spec fn overlay(self) -> Overlay {
        Overlay {
            brush_hints: self.help_timer > 0,
            color_hint: self.help_timer > -COLOR_HINT_EXTRA,
        }
    }

    /// The help timer after a frame: one less, until the last hint has gone.
    pub open spec fn ticked(self) -> int {
        if self.help_timer > -COLOR_HINT_EXTRA {
            self.help_timer - 1
        } else {
            self.help_timer
        }
    }
}

/// A grid with its settling front, the brush, the palette and the timer of
/// the hints.
pub struct Simulation {
    grid: Grid,
    stable_from: usize,
    radius: i32,
    palette: Palette,
    help_timer: i32,
}

impl View for Simulation {
    type V = SimulationView;

    closed spec fn view(&self) -> SimulationView {
        SimulationView {
            grid: self.grid@,
            stable_from: self.stable_from as int,
            radius: self.radius as int,
            palette: self.palette@,
            help_timer: self.help_timer as int,
        }
    }
}

/// The largest radius of the brush on a grid of `height` rows.
fn radius_limit_of(height: usize) -> (limit: i32)
    ensures
        limit == radius_limit(height as int),
{
    let third = height / 3;
    if third > 0x7fff_ffff {
        i32::MAX
    } else {
        third as i32
    }
}

impl Simulation {
    /// The invariant of the simulation, which every operation keeps.
    pub open spec fn wf(&self) -> bool {
        self@.wf()
    }

    /// A simulation on `grid`, with every row still to be scanned, a brush of
    /// `radius` brought into its limits, and `help_frames` frames of hints.
    pub fn new(grid: Grid, palette: Palette, radius: i32, help_frames: i32) -> (s: Simulation)
        requires
            grid.wf(),
            palette.wf(),
        ensures
            s.wf(),
            s@.grid == grid@,
            s@.palette == palette@,
            s@.stable_from == grid@.current.height,
            s@.radius == clamped(radius as int, 0, radius_limit(grid@.current.height as int)),
            s@.help_timer == help_frames,
    {
        let height = grid.height();
        let limit = radius_limit_of(height);
        let radius = if radius < 0 {
            0
        } else if radius > limit {
            limit
        } else {
            radius
        };
        Simulation { grid, stable_from: height, radius, palette, help_timer: help_frames }
    }

    /// The grid, for reading.
    pub fn grid(&self) -> (g: &Grid)
        ensures
            g@ == self@.grid,
    {
        &self.grid
    }

    /// The palette, for reading.
    pub fn palette(&self) -> (p: &Palette)
        ensures
            p@ == self@.palette,
    {
        &self.palette
    }

    /// The settling front.
    pub fn stable_from(&self) -> (front: usize)
        ensures
            front == self@.stable_from,
    {
        self.stable_from
    }

    /// The radius of the brush.
    pub fn radius(&self) -> (r: i32)
        ensures
            r == self@.radius,
    {
        self.radius
    }

    /// The hints to show now.
    pub fn overlay(&self) -> (o: Overlay)
        ensures
            o == self@.overlay(),
    {
        Overlay {
            brush_hints: self.help_timer > 0,
            color_hint: self.help_timer > -COLOR_HINT_EXTRA,
        }
    }

    /// The front after its maintenance on the committed cells.
    fn advance_front(&self) -> (front: usize)
        requires
            self.wf(),
        ensures
            front == self@.grid.current.advanced_front(self@.stable_from),
            front <= self@.stable_from,
            self@.grid.current.full_from(front as int),
    {
        let mut front = self.stable_from;
        while front > 0 && self.grid.row_is_full(front - 1)
            invariant
                self.wf(),
                front <= self.stable_from,
                self@.grid.current.full_from(front as int),
                self@.grid.current.advanced_front(front as int)
                    == self@.grid.current.advanced_front(self@.stable_from),
            decreases front,
        {
            front -= 1;
        }
        front
    }

    /// The settling step of a frame. First the front moves up over the full
    /// rows directly above it; then the grains in the rows above the front
    /// fall, from the committed cells into the buffer. Because the rows that
    /// are skipped are full, the buffer ends as a pass over all rows would
    /// leave it. The rows from the old front down are in the buffer as they
    /// are committed.
    pub fn settle(&mut self)
        requires
            old(self).wf(),
        ensures
            final(self).wf(),
            final(self)@.same_tools(old(self)@),
            final(self)@.grid.current == old(self)@.grid.current,
            final(self)@.grid.next == old(self)@.grid.current.settled(),
            final(self)@.stable_from == old(self)@.grid.current.advanced_front(
                old(self)@.stable_from,
            ),
            final(self)@.stable_from <= old(self)@.stable_from,
            forall|x: int, y: int|
                old(self)@.grid.current.contains(x, y) && old(self)@.stable_from <= y
                    ==> #[trigger] final(self)@.grid.next.at(x, y)
                    == old(self)@.grid.current.at(x, y),
    {
        let front = self.advance_front();
        self.stable_from = front;
        self.grid.settle_rows(front);
        proof {
            let b = old(self)@.grid.current;
            lemma_full_rows_can_be_skipped(b, front as int);
            lemma_full_rows_stay(b, front as int, front as int);
        }
    }

    /// Takes the input of one frame for the brush and the palette: the keys
    /// move the cursor and the radius by one step, the wheel moves the
    /// cursor, if it picks colours, and else the radius.
    pub fn adjust_brush(&mut self, input: &FrameInput)
        requires
            old(self).wf(),
        ensures
            final(self).wf(),
            final(self)@.grid == old(self)@.grid,
            final(self)@.stable_from == old(self)@.stable_from,
            final(self)@.help_timer == old(self)@.help_timer,
            final(self)@.radius == old(self)@.frame_radius(*input),
            final(self)@.palette == adjusted_palette(old(self)@.palette, *input),
    {
        let limit = radius_limit_of(self.grid.height());
        if input.next_color {
            self.palette.advance();
        }
        if input.previous_color {
            self.palette.retreat();
        }
        if input.grow && self.radius < limit {
            self.radius = self.radius + 1;
        }
        if input.shrink && self.radius > 0 {
            self.radius = self.radius - 1;
        }
        if input.pick_color {
            if input.wheel < 0 {
                self.palette.retreat();
            } else if input.wheel > 0 {
                self.palette.advance();
            }
        } else {
            let moved: i64 = self.radius as i64 + (WHEEL_STEP as i64) * (input.wheel as i64);
            if moved < 0 {
                self.radius = 0;
            } else if moved > limit as i64 {
                self.radius = limit;
            } else {
                self.radius = moved as i32;
            }
        }
    }

    /// A stroke that adds sand of the palette's colour under the brush at
    /// `(cx, cy)`. The front stays where it is: adding leaves full rows full.
    pub fn add_stroke(&mut self, cx: i32, cy: i32)
        requires
            old(self).wf(),
        ensures
            final(self).wf(),
            final(self)@.same_tools(old(self)@),
            final(self)@.stable_from == old(self)@.stable_from,
            final(self)@.grid.current == old(self)@.grid.current,
            forall|x: int, y: int|
                old(self)@.grid.next.contains(x, y) ==> {
                    ||| #[trigger] final(self)@.grid.next.at(x, y) == old(self)@.grid.next.at(x, y)
                    ||| in_disc(x - cx, y - cy, old(self)@.radius)
                        && final(self)@.grid.next.at(x, y)
                        == (Cell::Occupied { color: old(self)@.palette.current() })
                },
    {
        let color = self.palette.current();
        // the radius is never negative, so the stroke is not refused
        let _ = self.grid.add_stroke(cx, cy, self.radius, color);
        proof {
            let before = old(self)@.grid.next;
            let after = self@.grid.next;
            let front = self@.stable_from;
            assert forall|y: int| 0 <= y && front <= y < after.height
                implies #[trigger] after.row_full(y) by {
                assert(before.row_full(y));
                assert forall|x: int| 0 <= x < after.width implies #[trigger] after.at(x, y)
                    is Occupied by {
                    assert(before.at(x, y) is Occupied);
                }
            }
        }
    }

    /// A stroke that removes the sand under the brush at `(cx, cy)`. It
    /// sends the front back below the last row, since rows that were full
    /// may no longer be.
    pub fn remove_stroke(&mut self, cx: i32, cy: i32)
        requires
            old(self).wf(),
        ensures
            final(self).wf(),
            final(self)@.same_tools(old(self)@),
            final(self)@.stable_from == old(self)@.grid.current.height,
            final(self)@.grid.current == old(self)@.grid.current,
            forall|x: int, y: int|
                old(self)@.grid.next.contains(x, y) ==> #[trigger] final(self)@.grid.next.at(x, y)
                    == (if in_disc(x - cx, y - cy, old(self)@.radius) {
                    Cell::Empty
                } else {
                    old(self)@.grid.next.at(x, y)
                }),
    {
        // the radius is never negative, so the stroke is not refused
        let _ = self.grid.remove_stroke(cx, cy, self.radius);
        self.stable_from = self.grid.height();
    }

    /// Commits the buffer: what the frame wrote becomes the state that the
    /// next frame reads.
    pub fn commit(&mut self)
        requires
            old(self).wf(),
        ensures
            final(self).wf(),
            final(self)@.same_tools(old(self)@),
            final(self)@.stable_from == old(self)@.stable_from,
            final(self)@.grid.current == old(self)@.grid.next,
            final(self)@.grid.next == old(self)@.grid.next,
    {
        self.grid.commit();
    }

    /// One frame: the settling step, the input for the brush, the strokes
    /// that the buttons ask for, and the commit. The result says which hints
    /// to draw over the new state.
    ///
    /// The front ends below the last row if sand was removed, and else where
    /// its maintenance moved it, which is never further down than it was.
    pub fn frame(&mut self, input: &FrameInput) -> (overlay: Overlay)
        requires
            old(self).wf(),
        ensures
            final(self).wf(),
            overlay == old(self)@.overlay(),
            final(self)@.help_timer == old(self)@.ticked(),
            final(self)@.radius == old(self)@.frame_radius(*input),
            final(self)@.palette == adjusted_palette(old(self)@.palette, *input),
            input.remove ==> final(self)@.stable_from == old(self)@.grid.current.height,
            !input.remove ==> final(self)@.stable_from
                == old(self)@.grid.current.advanced_front(old(self)@.stable_from),
            !input.remove ==> final(self)@.stable_from <= old(self)@.stable_from,
            final(self)@.grid.next == final(self)@.grid.current,
            final(self)@.grid.current.same_shape(old(self)@.grid.current),
            forall|x: int, y: int|
                old(self)@.grid.current.contains(x, y) ==> old(self)@.frame_allows(
                    *input,
                    x,
                    y,
                    #[trigger] final(self)@.grid.current.at(x, y),
                ),
    {
        let overlay = self.overlay();
        self.settle();
        self.adjust_brush(input);
        let ghost settled = self@.grid.next;
        if input.add {
            self.add_stroke(input.pointer_x, input.pointer_y);
        }
        let ghost added = self@.grid.next;
        if input.remove {
            self.remove_stroke(input.pointer_x, input.pointer_y);
        }
        self.commit();
        if self.help_timer > -COLOR_HINT_EXTRA {
            self.help_timer = self.help_timer - 1;
        }
        proof {
            old(self)@.grid.current.lemma_settled_rows(old(self)@.grid.current.height as int);
            assert forall|x: int, y: int|
                old(self)@.grid.current.contains(x, y) implies old(self)@.frame_allows(
                *input,
                x,
                y,
                #[trigger] self@.grid.current.at(x, y),
            ) by {}
        }
        overlay
    }
}

} // verus!
