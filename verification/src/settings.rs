//! Setting values applied to cells through the modifier protocol:
//! a cell [`Border`] builder, the border remover [`EmptyBorder`], and a
//! horizontal [`Span`].

use vstd::prelude::*;
use crate::border::GridBorder;

verus! {

/// A builder for the border of a cell.
///
/// Sides are set one by one; a `get_*` accessor may only be called once
/// the corresponding side has been set.
#[derive(Debug, Clone, Copy, PartialEq, Eq)]
pub struct Border {
    pub inner: GridBorder,
}

/// Stands for the removal of any cell border override.
#[derive(Debug, Clone, Copy, PartialEq, Eq)]
pub struct EmptyBorder;

/// A horizontal (column) span setting: the cell it is applied to takes
/// the space of `size` consecutive columns.
#[derive(Debug, Clone, Copy, PartialEq, Eq)]
pub struct Span {
    pub size: usize,
}

impl Span {
    /// Constructs a horizontal (column) span of the given size.
    pub fn column(size: usize) -> (s: Span)
        ensures
            s.size == size,
    {
        Span { size }
    }
}

/// The character held by a border side that is known to be set.
pub fn get_char(c: Option<char>) -> (r: char)
    requires
        (c is Some),
    ensures
        Some(r) == c,
{
    match c {
        Some(ch) => ch,
        None => unreached(),
    }
}

impl Border {
    /// Wraps a grid border into the builder.
    pub fn from_border(inner: GridBorder) -> (b: Border)
        ensures
            b.inner == inner,
    {
        Border { inner }
    }

    /// Creates an empty border.
    pub fn new() -> (b: Border)
        ensures
            b.inner == GridBorder::spec_empty(),
    {
        Border::from_border(GridBorder::empty())
    }

    /// Constructs a cell border with all sides set.
    pub fn full(
        top: char,
        bottom: char,
        left: char,
        right: char,
        top_left: char,
        top_right: char,
        bottom_left: char,
        bottom_right: char,
    ) -> (b: Border)
        ensures
            b.inner == GridBorder::spec_full(
                top,
                bottom,
                left,
                right,
                top_left,
                top_right,
                bottom_left,
                bottom_right,
            ),
    {
        Border::from_border(
            GridBorder::full(top, bottom, left, right, top_left, top_right, bottom_left, bottom_right),
        )
    }

    /// Constructs a cell border with the same character on every side.
    /// It behaves like [`Border::full`] with one character throughout.
    pub fn filled(c: char) -> (b: Border)
        ensures
            b.inner == GridBorder::spec_full(c, c, c, c, c, c, c, c),
    {
        Border::full(c, c, c, c, c, c, c, c)
    }

    /// The setting that deconstructs any existing border.
    pub fn empty() -> (e: EmptyBorder)
        ensures
            e == EmptyBorder,
    {
        EmptyBorder
    }

    /// Set a top border character.
    pub fn set_top(self, c: char) -> (b: Border)
        ensures
            b.inner == (GridBorder { top: Some(c), ..self.inner }),
    {
        let mut inner = self.inner;
        inner.top = Some(c);
        Border::from_border(inner)
    }

    /// Set a bottom border character.
    pub fn set_bottom(self, c: char) -> (b: Border)
        ensures
            b.inner == (GridBorder { bottom: Some(c), ..self.inner }),
    {
        let mut inner = self.inner;
        inner.bottom = Some(c);
        Border::from_border(inner)
    }

    /// Set a left border character.
    pub fn set_left(self, c: char) -> (b: Border)
        ensures
            b.inner == (GridBorder { left: Some(c), ..self.inner }),
    {
        let mut inner = self.inner;
        inner.left = Some(c);
        Border::from_border(inner)
    }

    /// Set a right border character.
    pub fn set_right(self, c: char) -> (b: Border)
        ensures
            b.inner == (GridBorder { right: Some(c), ..self.inner }),
    {
        let mut inner = self.inner;
        inner.right = Some(c);
        Border::from_border(inner)
    }

    /// Converts the builder into the general border structure.
    pub fn into_inner(self) -> (b: GridBorder)
        ensures
            b == self.inner,
    {
        self.inner
    }

    /// Get the right character.
    pub fn get_right(&self) -> (c: char)
        requires
            (self.inner.right is Some),
        ensures
            Some(c) == self.inner.right,
    {
        get_char(self.inner.right)
    }

    /// Get the left character.
    pub fn get_left(&self) -> (c: char)
        requires
            (self.inner.left is Some),
        ensures
            Some(c) == self.inner.left,
    {
        get_char(self.inner.left)
    }

    /// Get the top character.
    pub fn get_top(&self) -> (c: char)
        requires
            (self.inner.top is Some),
        ensures
            Some(c) == self.inner.top,
    {
        get_char(self.inner.top)
    }

    /// Get the bottom character.
    pub fn get_bottom(&self) -> (c: char)
        requires
            (self.inner.bottom is Some),
        ensures
            Some(c) == self.inner.bottom,
    {
        get_char(self.inner.bottom)
    }

    /// Set a top left intersection character.
    pub fn set_corner_top_left(self, c: char) -> (b: Border)
        ensures
            b.inner == (GridBorder { left_top_corner: Some(c), ..self.inner }),
    {
        let mut inner = self.inner;
        inner.left_top_corner = Some(c);
        Border::from_border(inner)
    }

    /// Get the top left intersection character.
    pub fn get_corner_top_left(&self) -> (c: char)
        requires
            (self.inner.left_top_corner is Some),
        ensures
            Some(c) == self.inner.left_top_corner,
    {
        get_char(self.inner.left_top_corner)
    }

    /// Set a top right intersection character.
    pub fn set_corner_top_right(self, c: char) -> (b: Border)
        ensures
            b.inner == (GridBorder { right_top_corner: Some(c), ..self.inner }),
    {
        let mut inner = self.inner;
        inner.right_top_corner = Some(c);
        Border::from_border(inner)
    }

    /// Get the top right intersection character.
    pub fn get_corner_top_right(&self) -> (c: char)
        requires
            (self.inner.right_top_corner is Some),
        ensures
            Some(c) == self.inner.right_top_corner,
    {
        get_char(self.inner.right_top_corner)
    }

    /// Set a bottom left intersection character.
    pub fn set_corner_bottom_left(self, c: char) -> (b: Border)
        ensures
            b.inner == (GridBorder { left_bottom_corner: Some(c), ..self.inner }),
    {
        let mut inner = self.inner;
        inner.left_bottom_corner = Some(c);
        Border::from_border(inner)
    }

    /// Get the bottom left intersection character.
    pub fn get_corner_bottom_left(&self) -> (c: char)
        requires
            (self.inner.left_bottom_corner is Some),
        ensures
            Some(c) == self.inner.left_bottom_corner,
    {
        get_char(self.inner.left_bottom_corner)
    }

    /// Set a bottom right intersection character.
    pub fn set_corner_bottom_right(self, c: char) -> (b: Border)
        ensures
            b.inner == (GridBorder { right_bottom_corner: Some(c), ..self.inner }),
    {
        let mut inner = self.inner;
        inner.right_bottom_corner = Some(c);
        Border::from_border(inner)
    }

    /// Get the bottom right intersection character.
    pub fn get_corner_bottom_right(&self) -> (c: char)
        requires
            (self.inner.right_bottom_corner is Some),
        ensures
            Some(c) == self.inner.right_bottom_corner,
    {
        get_char(self.inner.right_bottom_corner)
    }
}

} // verus!
