//! The grid-level border of a single cell.

use vstd::prelude::*;

verus! {

/// A cell border: up to eight optional characters.
///
/// ```text
///                         top border
///                             |
///                             V
/// corner top left ------> +_______+  <---- corner top right
///                         |       |
/// left border ----------> |  cell |  <---- right border
///                         |       |
/// corner bottom left ---> +_______+  <---- corner bottom right
///                             ^
///                             |
///                        bottom border
/// ```
///
/// An unset side renders as absent. A corner that is set while its
/// adjacent edges are unset only shows where neighbouring lines supply
/// the missing segments; otherwise it is dropped by the renderer.
#[derive(Debug, Clone, Copy, PartialEq, Eq)]
pub struct GridBorder {
    pub top: Option<char>,
    pub bottom: Option<char>,
    pub left: Option<char>,
    pub right: Option<char>,
    pub left_top_corner: Option<char>,
    pub right_top_corner: Option<char>,
    pub left_bottom_corner: Option<char>,
    pub right_bottom_corner: Option<char>,
}

impl GridBorder {
    /// The border with every character unset.
    pub open spec fn spec_empty() -> GridBorder {
        GridBorder {
            top: None,
            bottom: None,
            left: None,
            right: None,
            left_top_corner: None,
            right_top_corner: None,
            left_bottom_corner: None,
            right_bottom_corner: None,
        }
    }

    /// Constructs a border with every character unset.
    pub fn empty() -> (b: GridBorder)
        ensures
            b == GridBorder::spec_empty(),
    {
        GridBorder {
            top: None,
            bottom: None,
            left: None,
            right: None,
            left_top_corner: None,
            right_top_corner: None,
            left_bottom_corner: None,
            right_bottom_corner: None,
        }
    }

    /// The border with all eight characters set.
    pub open spec fn spec_full(
        top: char,
        bottom: char,
        left: char,
        right: char,
        top_left: char,
        top_right: char,
        bottom_left: char,
        bottom_right: char,
    ) -> GridBorder {
        GridBorder {
            top: Some(top),
            bottom: Some(bottom),
            left: Some(left),
            right: Some(right),
            left_top_corner: Some(top_left),
            right_top_corner: Some(top_right),
            left_bottom_corner: Some(bottom_left),
            right_bottom_corner: Some(bottom_right),
        }
    }

    /// Constructs a border with all eight characters set.
    pub fn full(
        top: char,
        bottom: char,
        left: char,
        right: char,
        top_left: char,
        top_right: char,
        bottom_left: char,
        bottom_right: char,
    ) -> (b: GridBorder)
        ensures
            b == GridBorder::spec_full(
                top,
                bottom,
                left,
                right,
                top_left,
                top_right,
                bottom_left,
                bottom_right,
            ),
    {
        GridBorder {
            top: Some(top),
            bottom: Some(bottom),
            left: Some(left),
            right: Some(right),
            left_top_corner: Some(top_left),
            right_top_corner: Some(top_right),
            left_bottom_corner: Some(bottom_left),
            right_bottom_corner: Some(bottom_right),
        }
    }

    /// Constructs a border with the same character on every side and corner.
    pub fn filled(c: char) -> (b: GridBorder)
        ensures
            b == GridBorder::spec_full(c, c, c, c, c, c, c, c),
    {
        GridBorder::full(c, c, c, c, c, c, c, c)
    }
}

} // verus!
