//! Colours, cells and the errors of the grid operations.

use vstd::prelude::*;

verus! {

/// An RGBA colour. The simulation only copies colours around.
#[derive(Clone, Copy, Debug, PartialEq, Eq, Structural)]
pub struct Color {
    pub r: u8,
    pub g: u8,
    pub b: u8,
    pub a: u8,
}

/// One position of the grid: a grain of sand with its colour, or nothing.
#[derive(Clone, Copy, Debug, PartialEq, Eq, Structural)]
pub enum Cell {
    Occupied { color: Color },
    Empty,
}

/// What a grid operation can object to.
#[derive(Clone, Copy, Debug, PartialEq, Eq, Structural)]
pub enum SandError {
    /// A coordinate lies outside the grid.
    IndexOutOfBounds,
    /// A brush radius is negative.
    InvalidRadius,
}

impl Color {
    /// Builds a colour from its four channels.
    pub fn new(r: u8, g: u8, b: u8, a: u8) -> (c: Color)
        ensures
            c == (Color { r, g, b, a }),
    {
        Color { r, g, b, a }
    }
}

impl Cell {
    /// Whether the cell holds a grain.
    pub fn is_occupied(&self) -> (b: bool)
        ensures
            b == (*self is Occupied),
    {
        match self {
            Cell::Occupied { .. } => true,
            Cell::Empty => false,
        }
    }

    /// Whether the cell holds nothing.
    pub fn is_empty(&self) -> (b: bool)
        ensures
            b == (*self is Empty),
    {
        match self {
            Cell::Occupied { .. } => false,
            Cell::Empty => true,
        }
    }

    /// The colour a renderer shows for this cell: the grain's own colour, or
    /// `background` where there is no grain.
    pub open spec fn shade(self, background: Color) -> Color {
        match self {
            Cell::Occupied { color } => color,
            Cell::Empty => background,
        }
    }

    /// The colour to draw for this cell over the given background.
    pub fn color_or(&self, background: Color) -> (c: Color)
        ensures
            c == self.shade(background),
    {
        match self {
            Cell::Occupied { color } => *color,
            Cell::Empty => background,
        }
    }
}

} // verus!
