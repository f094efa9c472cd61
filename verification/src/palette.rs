//! The palette: a fixed row of colours and a cursor that goes round it.

use vstd::prelude::*;
use crate::cell::Color;

verus! {

/// What a palette holds: its colours in order, and the cursor's place.
pub struct PaletteView {
    pub colors: Seq<Color>,
    pub cursor: int,
}

impl PaletteView {
    /// There is at least one colour, and the cursor is on one.
    pub open spec fn wf(self) -> bool {
        0 <= self.cursor < self.colors.len()
    }

    /// The colour under the cursor.
    pub open spec fn current(self) -> Color {
        self.colors[self.cursor]
    }

    /// The palette with the cursor one colour on, and on the first after the
    /// last.
    pub open spec fn advanced(self) -> PaletteView {
        PaletteView {
            colors: self.colors,
            cursor: if self.cursor + 1 >= self.colors.len() {
                0
            } else {
                self.cursor + 1
            },
        }
    }

    /// The palette with the cursor one colour back, and on the last before
    /// the first.
    pub open spec fn retreated(self) -> PaletteView {
        PaletteView {
            colors: self.colors,
            cursor: if self.cursor <= 0 {
                self.colors.len() - 1
            } else {
                self.cursor - 1
            },
        }
    }
}

/// A row of colours that is never empty and never changes, with a cursor on
/// one of them.
pub struct Palette {
    colors: Vec<Color>,
    cursor: usize,
}

impl View for Palette {
    type V = PaletteView;

    closed spec fn view(&self) -> PaletteView {
        PaletteView { colors: self.colors@, cursor: self.cursor as int }
    }
}

impl Palette {
    /// The invariant of the palette, which every operation keeps.
    pub open spec fn wf(&self) -> bool {
        self@.wf()
    }

    /// A palette of `colors` with the cursor at `cursor`. There is none
    /// without colours, nor with the cursor off them.
    pub fn new(colors: Vec<Color>, cursor: usize) -> (r: Option<Palette>)
        ensures
            r is None <==> cursor >= colors@.len(),
            r matches Some(p) ==> p.wf() && p@.colors == colors@ && p@.cursor == cursor,
    {
        if cursor < colors.len() {
            Some(Palette { colors, cursor })
        } else {
            None
        }
    }

    /// The number of colours.
    pub fn len(&self) -> (n: usize)
        ensures
            n == self@.colors.len(),
    {
        self.colors.len()
    }

    /// The cursor's place.
    pub fn cursor(&self) -> (i: usize)
        ensures
            i == self@.cursor,
    {
        self.cursor
    }

    /// The colour under the cursor.
    pub fn current(&self) -> (c: Color)
        requires
            self.wf(),
        ensures
            c == self@.current(),
    {
        self.colors[self.cursor]
    }

    /// Moves the cursor one colour on, and from the last to the first.
    pub fn advance(&mut self)
        requires
            old(self).wf(),
        ensures
            final(self).wf(),
            final(self)@ == old(self)@.advanced(),
    {
        let n = self.colors.len();
        if self.cursor + 1 >= n {
            self.cursor = 0;
        } else {
            self.cursor = self.cursor + 1;
        }
    }

    /// Moves the cursor one colour back, and from the first to the last.
    pub fn retreat(&mut self)
        requires
            old(self).wf(),
        ensures
            final(self).wf(),
            final(self)@ == old(self)@.retreated(),
    {
        if self.cursor == 0 {
            self.cursor = self.colors.len() - 1;
        } else {
            self.cursor = self.cursor - 1;
        }
    }
}

} // verus!
