//! Named default border-character sets and the horizontal-line
//! descriptors they are made of.

use vstd::prelude::*;

verus! {

/// The characters of one horizontal border line: the main line
/// character, the character drawn where a vertical border crosses, and
/// the two end characters used where an outer frame exists.
#[derive(Debug, Clone, Copy, PartialEq, Eq)]
pub struct HLineStyle {
    pub main: char,
    pub intersection: char,
    pub left: char,
    pub right: char,
}

impl HLineStyle {
    /// A line with the given main and crossing characters on both ends.
    pub fn new(main: char, intersection: char) -> (l: HLineStyle)
        ensures
            l == (HLineStyle { main, intersection, left: intersection, right: intersection }),
    {
        HLineStyle { main, intersection, left: intersection, right: intersection }
    }
}

/// A global default style: which border lines exist and with which
/// characters, where no per-cell override says otherwise.
///
/// `top` is the line above the first row, `bottom` the one below the
/// last, `horizontal` the line between any two rows, and `header`, when
/// set, replaces `horizontal` between the first and the second row.
/// `left`, `vertical` and `right` are the frame and inner column
/// separators; an unset entry means that the style draws no line there.
#[derive(Debug, Clone, Copy, PartialEq, Eq)]
pub struct Style {
    pub top: Option<HLineStyle>,
    pub bottom: Option<HLineStyle>,
    pub horizontal: Option<HLineStyle>,
    pub header: Option<HLineStyle>,
    pub left: Option<char>,
    pub vertical: Option<char>,
    pub right: Option<char>,
}

impl Style {
    /// The style that draws nothing at all.
    pub open spec fn spec_blank() -> Style {
        Style {
            top: None,
            bottom: None,
            horizontal: None,
            header: None,
            left: None,
            vertical: None,
            right: None,
        }
    }

    /// Constructs the style that draws nothing at all.
    pub fn blank() -> (s: Style)
        ensures
            s == Style::spec_blank(),
    {
        Style {
            top: None,
            bottom: None,
            horizontal: None,
            header: None,
            left: None,
            vertical: None,
            right: None,
        }
    }

    /// The classic style of `-`, `|` and `+` with every line drawn.
    pub open spec fn spec_ascii() -> Style {
        Style {
            top: Some(HLineStyle { main: '-', intersection: '+', left: '+', right: '+' }),
            bottom: Some(HLineStyle { main: '-', intersection: '+', left: '+', right: '+' }),
            horizontal: Some(HLineStyle { main: '-', intersection: '+', left: '+', right: '+' }),
            header: None,
            left: Some('|'),
            vertical: Some('|'),
            right: Some('|'),
        }
    }

    /// Constructs the classic style of `-`, `|` and `+`.
    pub fn ascii() -> (s: Style)
        ensures
            s == Style::spec_ascii(),
    {
        Style {
            top: Some(HLineStyle::new('-', '+')),
            bottom: Some(HLineStyle::new('-', '+')),
            horizontal: Some(HLineStyle::new('-', '+')),
            header: None,
            left: Some('|'),
            vertical: Some('|'),
            right: Some('|'),
        }
    }

    /// The style of database shells: no frame, `|` between columns, and
    /// one `-` line with `+` crossings under the first row.
    pub open spec fn spec_psql() -> Style {
        Style {
            top: None,
            bottom: None,
            horizontal: None,
            header: Some(HLineStyle { main: '-', intersection: '+', left: '+', right: '+' }),
            left: None,
            vertical: Some('|'),
            right: None,
        }
    }

    /// Constructs the style of database shells.
    pub fn psql() -> (s: Style)
        ensures
            s == Style::spec_psql(),
    {
        Style {
            top: None,
            bottom: None,
            horizontal: None,
            header: Some(HLineStyle::new('-', '+')),
            left: None,
            vertical: Some('|'),
            right: None,
        }
    }

    /// Whether the style draws every border line of a table: the frame,
    /// every inner vertical, and a horizontal line at every row boundary.
    pub open spec fn draws_all_lines(self) -> bool {
        &&& self.top is Some
        &&& self.bottom is Some
        &&& self.horizontal is Some
        &&& self.left is Some
        &&& self.vertical is Some
        &&& self.right is Some
    }
}

} // verus!
