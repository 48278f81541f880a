//! The central mutable grid configuration: per-cell border overrides,
//! column spans, padding and alignment, and the global default style.

use vstd::prelude::*;
use crate::border::GridBorder;
use crate::style::{HLineStyle, Style};

verus! {

/// Horizontal alignment of cell content.
#[derive(Debug, Clone, Copy, PartialEq, Eq, Structural)]
pub enum HAlign {
    Left,
    Center,
    Right,
}

/// Vertical alignment of cell content.
#[derive(Debug, Clone, Copy, PartialEq, Eq, Structural)]
pub enum VAlign {
    Top,
    Center,
    Bottom,
}

/// An alignment setting: one of the two axes.
#[derive(Debug, Clone, Copy, PartialEq, Eq, Structural)]
pub enum Alignment {
    Horizontal(HAlign),
    Vertical(VAlign),
}

/// Per-cell padding: a character count on each side and the character
/// the padded area is filled with.
#[derive(Debug, Clone, Copy, PartialEq, Eq)]
pub struct Padding {
    pub top: usize,
    pub bottom: usize,
    pub left: usize,
    pub right: usize,
    pub fill: char,
}

impl Padding {
    /// Space-filled padding of the given counts.
    pub fn new(top: usize, bottom: usize, left: usize, right: usize) -> (p: Padding)
        ensures
            p == (Padding { top, bottom, left, right, fill: ' ' }),
    {
        Padding { top, bottom, left, right, fill: ' ' }
    }

    /// No padding at all.
    pub fn zero() -> (p: Padding)
        ensures
            p == (Padding { top: 0usize, bottom: 0usize, left: 0usize, right: 0usize, fill: ' ' }),
    {
        Padding { top: 0, bottom: 0, left: 0, right: 0, fill: ' ' }
    }

    /// The padding cells start with: one space left and right.
    pub open spec fn spec_default() -> Padding {
        Padding { top: 0usize, bottom: 0usize, left: 1usize, right: 1usize, fill: ' ' }
    }
}

/// The formatting of one cell: padding and both alignments.
#[derive(Debug, Clone, Copy, PartialEq, Eq)]
pub struct CellFormat {
    pub padding: Padding,
    pub halign: HAlign,
    pub valign: VAlign,
}

impl CellFormat {
    /// The format cells start with: default padding, left, top.
    pub open spec fn spec_default() -> CellFormat {
        CellFormat { padding: Padding::spec_default(), halign: HAlign::Left, valign: VAlign::Top }
    }

    /// Constructs the format cells start with.
    pub fn starting() -> (f: CellFormat)
        ensures
            f == CellFormat::spec_default(),
    {
        CellFormat {
            padding: Padding { top: 0, bottom: 0, left: 1, right: 1, fill: ' ' },
            halign: HAlign::Left,
            valign: VAlign::Top,
        }
    }
}

/// Whether a sequence of rows is a `rows` x `cols` matrix.
pub open spec fn matrix_wf<T>(m: Seq<Vec<T>>, rows: int, cols: int) -> bool {
    m.len() == rows && forall|r: int| 0 <= r < rows ==> (#[trigger] m[r])@.len() == cols
}

/// A row of `n` copies of one value.
pub(crate) fn filled_row<T: Copy>(n: usize, x: T) -> (v: Vec<T>)
    ensures
        v@.len() == n,
        forall|i: int| 0 <= i < n ==> v@[i] == x,
{
    let mut v: Vec<T> = Vec::new();
    let mut i: usize = 0;
    while i < n
        invariant
            i <= n,
            v@.len() == i,
            forall|j: int| 0 <= j < i ==> v@[j] == x,
        decreases n - i,
    {
        v.push(x);
        i += 1;
    }
    v
}

/// A `rows` x `cols` matrix of one value.
pub(crate) fn filled_matrix<T: Copy>(rows: usize, cols: usize, x: T) -> (m: Vec<Vec<T>>)
    ensures
        matrix_wf(m@, rows as int, cols as int),
        forall|r: int, c: int|
            #![trigger m@[r]@[c]]
            0 <= r < rows && 0 <= c < cols ==> m@[r]@[c] == x,
{
    let mut m: Vec<Vec<T>> = Vec::new();
    let mut r: usize = 0;
    while r < rows
        invariant
            r <= rows,
            m@.len() == r,
            forall|i: int| 0 <= i < r ==> (#[trigger] m@[i])@.len() == cols,
            forall|i: int, c: int|
                #![trigger m@[i]@[c]]
                0 <= i < r && 0 <= c < cols ==> m@[i]@[c] == x,
        decreases rows - r,
    {
        let row = filled_row(cols, x);
        m.push(row);
        r += 1;
    }
    m
}

/// Whether the column ranges `[a, a + sa)` and `[b, b + sb)` share a column.
pub open spec fn spans_overlap(a: int, sa: int, b: int, sb: int) -> bool {
    a < b + sb && b < a + sa
}

/// The span size actually registered for a request of `size` at column
/// `c` of a `cols`-wide grid: at least 1, and clamped to the remaining
/// column count.
pub open spec fn spec_clamped_span(size: int, c: int, cols: int) -> int {
    let s = if size < 1 { 1int } else { size };
    if s > cols - c {
        cols - c
    } else {
        s
    }
}

/// The aggregate grid configuration of one table shape.
///
/// Spans are stored densely: `spans[r][c]` is the number of columns the
/// cell at (r, c) occupies; `1` means no span. The ranges of distinct
/// span origins in one row never overlap.
#[derive(Debug, Clone, PartialEq, Eq)]
pub struct GridConfig {
    pub rows: usize,
    pub cols: usize,
    pub spans: Vec<Vec<usize>>,
    pub borders: Vec<Vec<Option<GridBorder>>>,
    pub formats: Vec<Vec<CellFormat>>,
    pub col_widths: Vec<Option<usize>>,
    pub row_heights: Vec<Option<usize>>,
    pub style: Style,
    pub correct_spans: bool,
}

impl GridConfig {
    /// The span size registered at (r, c); 1 where there is none.
    pub open spec fn span_at(self, r: int, c: int) -> int {
        self.spans@[r]@[c] as int
    }

    /// The border override at (r, c), if any.
    pub open spec fn border_at(self, r: int, c: int) -> Option<GridBorder> {
        self.borders@[r]@[c]
    }

    /// The formatting of the cell at (r, c).
    pub open spec fn format_at(self, r: int, c: int) -> CellFormat {
        self.formats@[r]@[c]
    }

    /// The explicit width override of column `c`, if one is set.
    pub open spec fn width_override(self, c: int) -> Option<usize> {
        self.col_widths@[c]
    }

    /// The explicit height override of row `r`, if one is set.
    pub open spec fn height_override(self, r: int) -> Option<usize> {
        self.row_heights@[r]
    }

    /// Whether (r, c) lies inside the configured shape.
    pub open spec fn in_bounds(self, r: int, c: int) -> bool {
        0 <= r < self.rows && 0 <= c < self.cols
    }

    /// The span registered at (r, c) is at least 1 and stays inside the
    /// grid.
    pub open spec fn span_ok(self, r: int, c: int) -> bool {
        1 <= self.span_at(r, c) && c + self.span_at(r, c) <= self.cols
    }

    /// The ranges of distinct span origins in one row never overlap: a
    /// cell covered by a span registers no span of its own.
    pub open spec fn spans_disjoint(self) -> bool {
        forall|r: int, c1: int, c2: int|
            #![trigger self.span_at(r, c1), self.span_at(r, c2)]
            0 <= r < self.rows && 0 <= c1 < c2 < self.cols && self.span_at(r, c1) > 1 && c2 < c1
                + self.span_at(r, c1) ==> self.span_at(r, c2) == 1
    }

    /// Well-formedness: all three per-cell stores have the configured
    /// shape, every span stays inside the grid, and spans do not overlap.
    pub open spec fn wf(self) -> bool {
        &&& matrix_wf(self.spans@, self.rows as int, self.cols as int)
        &&& matrix_wf(self.borders@, self.rows as int, self.cols as int)
        &&& matrix_wf(self.formats@, self.rows as int, self.cols as int)
        &&& self.col_widths@.len() == self.cols
        &&& self.row_heights@.len() == self.rows
        &&& forall|r: int, c: int| self.in_bounds(r, c) ==> #[trigger] self.span_ok(r, c)
        &&& self.spans_disjoint()
    }

    /// Whether the cell at (r, c) is covered by the span of a cell to
    /// its left (and so is never rendered on its own). Also meaningful
    /// for `c == cols`, where it says whether the column boundary at `c`
    /// lies strictly inside a span of row `r`.
    pub open spec fn absorbed(self, r: int, c: int) -> bool {
        exists|c0: int| 0 <= c0 < c && #[trigger] self.span_at(r, c0) > c - c0
    }

    /// A fresh configuration for a `rows` x `cols` table: no overrides,
    /// no spans, default formats, and the given style.
    pub fn new(rows: usize, cols: usize, style: Style) -> (cfg: GridConfig)
        ensures
            cfg.wf(),
            cfg.rows == rows,
            cfg.cols == cols,
            cfg.style == style,
            cfg.correct_spans == false,
            forall|r: int, c: int| cfg.in_bounds(r, c) ==> #[trigger] cfg.span_at(r, c) == 1,
            forall|r: int, c: int| cfg.in_bounds(r, c) ==> #[trigger] cfg.border_at(r, c) is None,
            forall|r: int, c: int|
                cfg.in_bounds(r, c) ==> #[trigger] cfg.format_at(r, c) == CellFormat::spec_default(),
            forall|c: int| 0 <= c < cols ==> #[trigger] cfg.width_override(c) is None,
            forall|r: int| 0 <= r < rows ==> #[trigger] cfg.height_override(r) is None,
    {
        let spans = filled_matrix(rows, cols, 1usize);
        let borders = filled_matrix::<Option<GridBorder>>(rows, cols, None);
        let formats = filled_matrix(rows, cols, CellFormat::starting());
        let col_widths = filled_row::<Option<usize>>(cols, None);
        let row_heights = filled_row::<Option<usize>>(rows, None);
        GridConfig {
            rows,
            cols,
            spans,
            borders,
            formats,
            col_widths,
            row_heights,
            style,
            correct_spans: false,
        }
    }

    /// Turns the span normalization mode on or off: when on, the
    /// renderer rewrites intersections whose vertical is absent on both
    /// sides (because a span removed it) to plain horizontals.
    pub fn set_correct_spans(&mut self, on: bool)
        requires
            old(self).wf(),
        ensures
            final(self).wf(),
            *final(self) == (GridConfig { correct_spans: on, ..*old(self) }),
    {
        self.correct_spans = on;
        proof {
            assert forall|r2: int, c2: int| old(self).in_bounds(r2, c2) implies #[trigger] self.span_ok(
                r2,
                c2,
            ) by {
                assert(self.span_at(r2, c2) == old(self).span_at(r2, c2));
                assert(old(self).span_ok(r2, c2));
            }
            assert forall|r2: int, c1: int, c2: int|
                #![trigger self.span_at(r2, c1), self.span_at(r2, c2)]
                0 <= r2 < self.rows && 0 <= c1 < c2 < self.cols && self.span_at(r2, c1) > 1 && c2
                    < c1 + self.span_at(r2, c1) implies self.span_at(r2, c2) == 1 by {
                assert(self.span_at(r2, c1) == old(self).span_at(r2, c1));
                assert(self.span_at(r2, c2) == old(self).span_at(r2, c2));
            }
        }
    }

    /// Replaces the global default style.
    pub fn set_style(&mut self, style: Style)
        requires
            old(self).wf(),
        ensures
            final(self).wf(),
            *final(self) == (GridConfig { style, ..*old(self) }),
    {
        self.style = style;
        proof {
            assert forall|r2: int, c2: int| old(self).in_bounds(r2, c2) implies #[trigger] self.span_ok(
                r2,
                c2,
            ) by {
                assert(self.span_at(r2, c2) == old(self).span_at(r2, c2));
                assert(old(self).span_ok(r2, c2));
            }
            assert forall|r2: int, c1: int, c2: int|
                #![trigger self.span_at(r2, c1), self.span_at(r2, c2)]
                0 <= r2 < self.rows && 0 <= c1 < c2 < self.cols && self.span_at(r2, c1) > 1 && c2
                    < c1 + self.span_at(r2, c1) implies self.span_at(r2, c2) == 1 by {
                assert(self.span_at(r2, c1) == old(self).span_at(r2, c1));
                assert(self.span_at(r2, c2) == old(self).span_at(r2, c2));
            }
        }
    }

    /// Sets or clears the explicit width of one column. A set width
    /// takes precedence over the computed natural width at every
    /// render, padding or truncating content as needed.
    pub fn set_column_width(&mut self, col: usize, width: Option<usize>)
        requires
            old(self).wf(),
            col < old(self).cols,
        ensures
            final(self).wf(),
            *final(self) == (GridConfig { col_widths: final(self).col_widths, ..*old(self) }),
            forall|c: int|
                0 <= c < old(self).cols ==> #[trigger] final(self).width_override(c) == (if c
                    == col {
                    width
                } else {
                    old(self).width_override(c)
                }),
    {
        self.col_widths[col] = width;
        proof {
            assert forall|r2: int, c2: int| old(self).in_bounds(r2, c2) implies #[trigger] self.span_ok(
                r2,
                c2,
            ) by {
                assert(self.span_at(r2, c2) == old(self).span_at(r2, c2));
                assert(old(self).span_ok(r2, c2));
            }
            assert forall|r2: int, c1: int, c2: int|
                #![trigger self.span_at(r2, c1), self.span_at(r2, c2)]
                0 <= r2 < self.rows && 0 <= c1 < c2 < self.cols && self.span_at(r2, c1) > 1 && c2
                    < c1 + self.span_at(r2, c1) implies self.span_at(r2, c2) == 1 by {
                assert(self.span_at(r2, c1) == old(self).span_at(r2, c1));
                assert(self.span_at(r2, c2) == old(self).span_at(r2, c2));
            }
        }
    }

    /// Sets or clears the explicit height of one row. A set height
    /// takes precedence over the computed natural height at every
    /// render.
    pub fn set_row_height(&mut self, row: usize, height: Option<usize>)
        requires
            old(self).wf(),
            row < old(self).rows,
        ensures
            final(self).wf(),
            *final(self) == (GridConfig { row_heights: final(self).row_heights, ..*old(self) }),
            forall|r: int|
                0 <= r < old(self).rows ==> #[trigger] final(self).height_override(r) == (if r
                    == row {
                    height
                } else {
                    old(self).height_override(r)
                }),
    {
        self.row_heights[row] = height;
        proof {
            assert forall|r2: int, c2: int| old(self).in_bounds(r2, c2) implies #[trigger] self.span_ok(
                r2,
                c2,
            ) by {
                assert(self.span_at(r2, c2) == old(self).span_at(r2, c2));
                assert(old(self).span_ok(r2, c2));
            }
            assert forall|r2: int, c1: int, c2: int|
                #![trigger self.span_at(r2, c1), self.span_at(r2, c2)]
                0 <= r2 < self.rows && 0 <= c1 < c2 < self.cols && self.span_at(r2, c1) > 1 && c2
                    < c1 + self.span_at(r2, c1) implies self.span_at(r2, c2) == 1 by {
                assert(self.span_at(r2, c1) == old(self).span_at(r2, c1));
                assert(self.span_at(r2, c2) == old(self).span_at(r2, c2));
            }
        }
    }

    /// Inserts a fresh default row before row `row`: no span, no
    /// border override, default format.
    pub fn insert_row(&mut self, row: usize)
        requires
            old(self).wf(),
            row <= old(self).rows,
            old(self).rows < usize::MAX,
        ensures
            final(self).wf(),
            final(self).rows == old(self).rows + 1,
            final(self).cols == old(self).cols,
            final(self).col_widths == old(self).col_widths,
            final(self).style == old(self).style,
            final(self).correct_spans == old(self).correct_spans,
            final(self).row_heights@ == old(self).row_heights@.insert(row as int, None::<usize>),
            forall|r: int, c: int|
                final(self).in_bounds(r, c) ==> #[trigger] final(self).span_at(r, c) == (if r < row {
                    old(self).span_at(r, c)
                } else if r == row {
                    1int
                } else {
                    old(self).span_at(r - 1, c)
                }),
            forall|r: int, c: int|
                final(self).in_bounds(r, c) ==> #[trigger] final(self).border_at(r, c) == (if r
                    < row {
                    old(self).border_at(r, c)
                } else if r == row {
                    None::<GridBorder>
                } else {
                    old(self).border_at(r - 1, c)
                }),
            forall|r: int, c: int|
                final(self).in_bounds(r, c) ==> #[trigger] final(self).format_at(r, c) == (if r
                    < row {
                    old(self).format_at(r, c)
                } else if r == row {
                    CellFormat::spec_default()
                } else {
                    old(self).format_at(r - 1, c)
                }),
    {
        let cols = self.cols;
        let spans_row = filled_row(cols, 1usize);
        let borders_row = filled_row::<Option<GridBorder>>(cols, None);
        let formats_row = filled_row(cols, CellFormat::starting());
        self.spans.insert(row, spans_row);
        self.borders.insert(row, borders_row);
        self.formats.insert(row, formats_row);
        self.row_heights.insert(row, None);
        self.rows = self.rows + 1;
        proof {
            let pre = *old(self);
            let post = *self;
            let rowi = row as int;
            assert forall|r: int, c: int| post.in_bounds(r, c) implies #[trigger] post.span_at(r, c)
                == (if r < rowi {
                pre.span_at(r, c)
            } else if r == rowi {
                1int
            } else {
                pre.span_at(r - 1, c)
            }) by {
                assert(post.spans@ == pre.spans@.insert(rowi, spans_row));
            }
            assert forall|r: int, c: int| post.in_bounds(r, c) implies #[trigger] post.border_at(
                r,
                c,
            ) == (if r < rowi {
                pre.border_at(r, c)
            } else if r == rowi {
                None::<GridBorder>
            } else {
                pre.border_at(r - 1, c)
            }) by {
                assert(post.borders@ == pre.borders@.insert(rowi, borders_row));
            }
            assert forall|r: int, c: int| post.in_bounds(r, c) implies #[trigger] post.format_at(
                r,
                c,
            ) == (if r < rowi {
                pre.format_at(r, c)
            } else if r == rowi {
                CellFormat::spec_default()
            } else {
                pre.format_at(r - 1, c)
            }) by {
                assert(post.formats@ == pre.formats@.insert(rowi, formats_row));
            }
            assert forall|r2: int, c2: int| post.in_bounds(r2, c2) implies #[trigger] post.span_ok(
                r2,
                c2,
            ) by {
                if r2 < rowi {
                    assert(pre.span_ok(r2, c2));
                } else if r2 > rowi {
                    assert(pre.span_ok(r2 - 1, c2));
                }
            }
            assert forall|r2: int, c1: int, c2: int|
                #![trigger post.span_at(r2, c1), post.span_at(r2, c2)]
                0 <= r2 < post.rows && 0 <= c1 < c2 < post.cols && post.span_at(r2, c1) > 1 && c2
                    < c1 + post.span_at(r2, c1) implies post.span_at(r2, c2) == 1 by {
                if r2 < rowi {
                    assert(pre.span_at(r2, c1) == post.span_at(r2, c1));
                    assert(pre.span_at(r2, c2) == post.span_at(r2, c2));
                } else if r2 > rowi {
                    assert(pre.span_at(r2 - 1, c1) == post.span_at(r2, c1));
                    assert(pre.span_at(r2 - 1, c2) == post.span_at(r2, c2));
                }
            }
        }
    }

    /// Overwrites the border override of one cell. Overwrite replaces
    /// the stored border fully; it does not merge fields.
    pub fn set_border(&mut self, row: usize, col: usize, border: GridBorder)
        requires
            old(self).wf(),
            row < old(self).rows,
            col < old(self).cols,
        ensures
            final(self).wf(),
            *final(self) == (GridConfig { borders: final(self).borders, ..*old(self) }),
            forall|r: int, c: int|
                old(self).in_bounds(r, c) ==> #[trigger] final(self).border_at(r, c) == (if r == row
                    && c == col {
                    Some(border)
                } else {
                    old(self).border_at(r, c)
                }),
    {
        self.borders[row][col] = Some(border);
        proof {
            assert forall|r2: int, c2: int| old(self).in_bounds(r2, c2) implies #[trigger] self.span_ok(
                r2,
                c2,
            ) by {
                assert(self.span_at(r2, c2) == old(self).span_at(r2, c2));
                assert(old(self).span_ok(r2, c2));
            }
            assert forall|r2: int, c1: int, c2: int|
                #![trigger self.span_at(r2, c1), self.span_at(r2, c2)]
                0 <= r2 < self.rows && 0 <= c1 < c2 < self.cols && self.span_at(r2, c1) > 1 && c2
                    < c1 + self.span_at(r2, c1) implies self.span_at(r2, c2) == 1 by {
                assert(self.span_at(r2, c1) == old(self).span_at(r2, c1));
                assert(self.span_at(r2, c2) == old(self).span_at(r2, c2));
            }
        }
    }

    /// Clears any border override of one cell, reverting it to the
    /// style default.
    pub fn remove_border(&mut self, row: usize, col: usize)
        requires
            old(self).wf(),
            row < old(self).rows,
            col < old(self).cols,
        ensures
            final(self).wf(),
            *final(self) == (GridConfig { borders: final(self).borders, ..*old(self) }),
            forall|r: int, c: int|
                old(self).in_bounds(r, c) ==> #[trigger] final(self).border_at(r, c) == (if r == row
                    && c == col {
                    None::<GridBorder>
                } else {
                    old(self).border_at(r, c)
                }),
    {
        self.borders[row][col] = None;
        proof {
            assert forall|r2: int, c2: int| old(self).in_bounds(r2, c2) implies #[trigger] self.span_ok(
                r2,
                c2,
            ) by {
                assert(self.span_at(r2, c2) == old(self).span_at(r2, c2));
                assert(old(self).span_ok(r2, c2));
            }
            assert forall|r2: int, c1: int, c2: int|
                #![trigger self.span_at(r2, c1), self.span_at(r2, c2)]
                0 <= r2 < self.rows && 0 <= c1 < c2 < self.cols && self.span_at(r2, c1) > 1 && c2
                    < c1 + self.span_at(r2, c1) implies self.span_at(r2, c2) == 1 by {
                assert(self.span_at(r2, c1) == old(self).span_at(r2, c1));
                assert(self.span_at(r2, c2) == old(self).span_at(r2, c2));
            }
        }
    }

    /// Overwrites the padding of one cell.
    pub fn set_padding(&mut self, row: usize, col: usize, padding: Padding)
        requires
            old(self).wf(),
            row < old(self).rows,
            col < old(self).cols,
        ensures
            final(self).wf(),
            *final(self) == (GridConfig { formats: final(self).formats, ..*old(self) }),
            forall|r: int, c: int|
                old(self).in_bounds(r, c) ==> #[trigger] final(self).format_at(r, c) == (if r == row
                    && c == col {
                    CellFormat { padding, ..old(self).format_at(r, c) }
                } else {
                    old(self).format_at(r, c)
                }),
    {
        let mut f = self.formats[row][col];
        f.padding = padding;
        self.formats[row][col] = f;
        proof {
            assert forall|r2: int, c2: int| old(self).in_bounds(r2, c2) implies #[trigger] self.span_ok(
                r2,
                c2,
            ) by {
                assert(self.span_at(r2, c2) == old(self).span_at(r2, c2));
                assert(old(self).span_ok(r2, c2));
            }
            assert forall|r2: int, c1: int, c2: int|
                #![trigger self.span_at(r2, c1), self.span_at(r2, c2)]
                0 <= r2 < self.rows && 0 <= c1 < c2 < self.cols && self.span_at(r2, c1) > 1 && c2
                    < c1 + self.span_at(r2, c1) implies self.span_at(r2, c2) == 1 by {
                assert(self.span_at(r2, c1) == old(self).span_at(r2, c1));
                assert(self.span_at(r2, c2) == old(self).span_at(r2, c2));
            }
        }
    }

    /// Overwrites one alignment axis of one cell.
    pub fn set_alignment(&mut self, row: usize, col: usize, alignment: Alignment)
        requires
            old(self).wf(),
            row < old(self).rows,
            col < old(self).cols,
        ensures
            final(self).wf(),
            *final(self) == (GridConfig { formats: final(self).formats, ..*old(self) }),
            forall|r: int, c: int|
                old(self).in_bounds(r, c) ==> #[trigger] final(self).format_at(r, c) == (if r == row
                    && c == col {
                    match alignment {
                        Alignment::Horizontal(h) => CellFormat { halign: h, ..old(self).format_at(r, c) },
                        Alignment::Vertical(v) => CellFormat { valign: v, ..old(self).format_at(r, c) },
                    }
                } else {
                    old(self).format_at(r, c)
                }),
    {
        let mut f = self.formats[row][col];
        match alignment {
            Alignment::Horizontal(h) => {
                f.halign = h;
            }
            Alignment::Vertical(v) => {
                f.valign = v;
            }
        }
        self.formats[row][col] = f;
        proof {
            assert forall|r2: int, c2: int| old(self).in_bounds(r2, c2) implies #[trigger] self.span_ok(
                r2,
                c2,
            ) by {
                assert(self.span_at(r2, c2) == old(self).span_at(r2, c2));
                assert(old(self).span_ok(r2, c2));
            }
            assert forall|r2: int, c1: int, c2: int|
                #![trigger self.span_at(r2, c1), self.span_at(r2, c2)]
                0 <= r2 < self.rows && 0 <= c1 < c2 < self.cols && self.span_at(r2, c1) > 1 && c2
                    < c1 + self.span_at(r2, c1) implies self.span_at(r2, c2) == 1 by {
                assert(self.span_at(r2, c1) == old(self).span_at(r2, c1));
                assert(self.span_at(r2, c2) == old(self).span_at(r2, c2));
            }
        }
    }

    /// Registers a span of `size` columns at (row, col), replacing any
    /// earlier span there, removing any span it would overlap, clamping
    /// the size to the remaining column count, and treating a size below
    /// 2 as the removal of the span.
    pub fn set_span(&mut self, row: usize, col: usize, size: usize)
        requires
            old(self).wf(),
            row < old(self).rows,
            col < old(self).cols,
        ensures
            final(self).wf(),
            set_span_post(*old(self), *final(self), row as int, col as int, size as int),
    {
        let cols = self.cols;
        let s0: usize = if size < 1 { 1 } else { size };
        let rem: usize = cols - col;
        let s: usize = if s0 > rem { rem } else { s0 };
        assert(s == spec_clamped_span(size as int, col as int, cols as int));
        let mut c: usize = 0;
        while c < cols
            invariant
                old(self).wf(),
                c <= cols,
                row < old(self).rows,
                col < cols,
                cols == old(self).cols,
                1 <= s,
                col + s <= cols,
                s == spec_clamped_span(size as int, col as int, cols as int),
                self.rows == old(self).rows,
                self.cols == old(self).cols,
                self.borders == old(self).borders,
                self.formats == old(self).formats,
                self.col_widths == old(self).col_widths,
                self.row_heights == old(self).row_heights,
                self.style == old(self).style,
                self.correct_spans == old(self).correct_spans,
                matrix_wf(self.spans@, self.rows as int, self.cols as int),
                forall|r2: int, c2: int|
                    old(self).in_bounds(r2, c2) && r2 != row ==> #[trigger] self.span_at(r2, c2)
                        == old(self).span_at(r2, c2),
                forall|c2: int|
                    c <= c2 < cols ==> #[trigger] self.span_at(row as int, c2) == old(self).span_at(
                        row as int,
                        c2,
                    ),
                self.span_at(row as int, col as int) == old(self).span_at(row as int, col as int),
                forall|c2: int|
                    0 <= c2 < c && c2 != col ==> #[trigger] self.span_at(row as int, c2) == (
                    if old(self).span_at(row as int, c2) > 1 && spans_overlap(
                        c2,
                        old(self).span_at(row as int, c2),
                        col as int,
                        s as int,
                    ) {
                        1int
                    } else {
                        old(self).span_at(row as int, c2)
                    }),
            decreases cols - c,
        {
            if c != col {
                let sc = self.spans[row][c];
                proof {
                    assert(self.span_at(row as int, c as int) == old(self).span_at(
                        row as int,
                        c as int,
                    ));
                    assert(old(self).span_ok(row as int, c as int));
                }
                if sc > 1 && c < col + s && col < c + sc {
                    let ghost prev = *self;
                    self.spans[row][c] = 1;
                    proof {
                        assert forall|r2: int, c2: int|
                            old(self).in_bounds(r2, c2) && !(r2 == row && c2 == c) implies #[trigger] self.span_at(
                            r2,
                            c2,
                        ) == prev.span_at(r2, c2) by {}
                        assert(self.span_at(row as int, c as int) == 1);
                    }
                }
            }
            c += 1;
        }
        let ghost before_set = *self;
        self.spans[row][col] = s;
        proof {
            let pre = *old(self);
            let post = *self;
            let rowi = row as int;
            let coli = col as int;
            let si = s as int;
            assert forall|r2: int, c2: int|
                pre.in_bounds(r2, c2) && !(r2 == rowi && c2 == coli) implies #[trigger] post.span_at(
                r2,
                c2,
            ) == before_set.span_at(r2, c2) by {}
            assert(post.span_at(rowi, coli) == si);
            assert forall|r2: int, c2: int| pre.in_bounds(r2, c2) implies #[trigger] post.span_at(
                r2,
                c2,
            ) == (if r2 == rowi && c2 == coli {
                si
            } else if r2 == rowi && pre.span_at(r2, c2) > 1 && spans_overlap(
                c2,
                pre.span_at(r2, c2),
                coli,
                si,
            ) {
                1int
            } else {
                pre.span_at(r2, c2)
            }) by {
                if !(r2 == rowi && c2 == coli) {
                    assert(post.span_at(r2, c2) == before_set.span_at(r2, c2));
                    if r2 != rowi {
                        assert(before_set.span_at(r2, c2) == pre.span_at(r2, c2));
                    }
                }
            }
            assert forall|r2: int, c2: int| post.in_bounds(r2, c2) implies #[trigger] post.span_ok(
                r2,
                c2,
            ) by {
                assert(pre.span_ok(r2, c2));
            }
            assert forall|r2: int, c1: int, c2: int|
                #![trigger post.span_at(r2, c1), post.span_at(r2, c2)]
                0 <= r2 < post.rows && 0 <= c1 < c2 < post.cols && post.span_at(r2, c1) > 1 && c2
                    < c1 + post.span_at(r2, c1) implies post.span_at(r2, c2) == 1 by {
                assert(pre.span_ok(r2, c1));
                assert(pre.span_ok(r2, c2));
                if r2 == rowi {
                    if c1 == coli {
                        if pre.span_at(r2, c2) > 1 {
                            assert(spans_overlap(c2, pre.span_at(r2, c2), coli, si));
                        }
                    } else {
                        if pre.span_at(r2, c1) > 1 && spans_overlap(
                            c1,
                            pre.span_at(r2, c1),
                            coli,
                            si,
                        ) {
                            assert(post.span_at(r2, c1) == 1);
                        }
                        assert(post.span_at(r2, c1) == pre.span_at(r2, c1));
                        assert(!spans_overlap(c1, pre.span_at(r2, c1), coli, si));
                        if c2 == coli {
                            assert(spans_overlap(c1, pre.span_at(r2, c1), coli, si));
                        } else {
                            assert(pre.span_at(r2, c2) == 1);
                        }
                    }
                } else {
                    assert(post.span_at(r2, c1) == pre.span_at(r2, c1));
                    assert(post.span_at(r2, c2) == pre.span_at(r2, c2));
                    assert(pre.span_at(r2, c2) == 1);
                }
            }
        }
    }
}

/// How one `set_span` call relates the configuration after it to the
/// one before it: the clamped size stands at the origin, overlapped
/// spans are gone, and everything else is unchanged.
pub open spec fn set_span_post(pre: GridConfig, post: GridConfig, row: int, col: int, size: int) -> bool {
    let s = spec_clamped_span(size, col, pre.cols as int);
    &&& post.rows == pre.rows
    &&& post.cols == pre.cols
    &&& post.borders == pre.borders
    &&& post.formats == pre.formats
    &&& post.col_widths == pre.col_widths
    &&& post.row_heights == pre.row_heights
    &&& post.style == pre.style
    &&& post.correct_spans == pre.correct_spans
    &&& forall|r: int, c: int|
        pre.in_bounds(r, c) ==> #[trigger] post.span_at(r, c) == (if r == row && c == col {
            s
        } else if r == row && pre.span_at(r, c) > 1 && spans_overlap(
            c,
            pre.span_at(r, c),
            col,
            s,
        ) {
            1int
        } else {
            pre.span_at(r, c)
        })
}

/// Law: registering a span and then registering size 1 at the same
/// origin restores the configuration, as if the span had never been
/// applied — provided no span overlapped the registered range before.
pub proof fn lemma_span_roundtrip(
    c0: GridConfig,
    c1: GridConfig,
    c2: GridConfig,
    row: int,
    col: int,
    size: int,
)
    requires
        c0.wf(),
        0 <= row < c0.rows,
        0 <= col < c0.cols,
        forall|c: int|
            0 <= c < c0.cols && #[trigger] c0.span_at(row, c) > 1 ==> !spans_overlap(
                c,
                c0.span_at(row, c),
                col,
                spec_clamped_span(size, col, c0.cols as int),
            ),
        set_span_post(c0, c1, row, col, size),
        set_span_post(c1, c2, row, col, 1),
    ensures
        forall|r: int, c: int|
            c0.in_bounds(r, c) ==> #[trigger] c2.span_at(r, c) == c0.span_at(r, c),
        c2.rows == c0.rows,
        c2.cols == c0.cols,
        c2.borders == c0.borders,
        c2.formats == c0.formats,
        c2.col_widths == c0.col_widths,
        c2.row_heights == c0.row_heights,
        c2.style == c0.style,
        c2.correct_spans == c0.correct_spans,
{
    let s = spec_clamped_span(size, col, c0.cols as int);
    assert(1 <= s);
    assert(c0.span_at(row, col) == 1) by {
        assert(c0.span_ok(row, col));
        if c0.span_at(row, col) > 1 {
            assert(spans_overlap(col, c0.span_at(row, col), col, s));
        }
    }
    assert forall|r: int, c: int| c0.in_bounds(r, c) implies c2.span_at(r, c) == c0.span_at(r, c) by {
        if r == row {
            if c == col {
                assert(c2.span_at(r, c) == spec_clamped_span(1, col, c0.cols as int));
            } else {
                assert(c1.span_at(r, c) == c0.span_at(r, c)) by {
                    if c0.span_at(row, c) > 1 {
                        assert(!spans_overlap(c, c0.span_at(row, c), col, s));
                    }
                }
                if c1.span_at(r, c) > 1 && spans_overlap(c, c1.span_at(r, c), col, 1) {
                    assert(spans_overlap(c, c0.span_at(row, c), col, s));
                }
            }
        }
    }
}

impl GridConfig {
    /// The character the style draws on vertical boundary `cb`, if any:
    /// the frame characters at the outer boundaries, the inner vertical
    /// between columns.
    pub open spec fn style_vchar(self, cb: int) -> Option<char> {
        if cb == 0 {
            self.style.left
        } else if cb == self.cols {
            self.style.right
        } else {
            self.style.vertical
        }
    }

    /// The character a cell border override supplies on vertical
    /// boundary `cb` in row `r`, if any: the left side of the cell to
    /// the right of the boundary wins over the right side of the cell
    /// to its left.
    pub open spec fn vert_override_at(self, r: int, cb: int) -> Option<char> {
        let from_right_cell = if cb < self.cols {
            match self.border_at(r, cb) {
                Some(b) => b.left,
                None => None,
            }
        } else {
            None
        };
        let from_left_cell = if cb > 0 {
            match self.border_at(r, cb - 1) {
                Some(b) => b.right,
                None => None,
            }
        } else {
            None
        };
        if from_right_cell is Some {
            from_right_cell
        } else {
            from_left_cell
        }
    }

    /// Whether vertical boundary `cb` exists in the grid at all: the
    /// style draws it, or some cell override supplies a character on it.
    pub open spec fn vert_exists(self, cb: int) -> bool {
        self.style_vchar(cb) is Some || exists|r: int|
            0 <= r < self.rows && #[trigger] self.vert_override_at(r, cb) is Some
    }

    /// The style of the horizontal line at row boundary `b` (boundary
    /// `b` lies above row `b`), if the style draws one there: the top
    /// line at 0, the bottom line at `rows`, the header line at 1 when
    /// set, else the general horizontal line.
    pub open spec fn hline_style_at(self, b: int) -> Option<HLineStyle> {
        if b == 0 {
            self.style.top
        } else if b == self.rows {
            self.style.bottom
        } else if b == 1 && self.style.header is Some {
            self.style.header
        } else {
            self.style.horizontal
        }
    }

    /// The character a cell border override supplies on the horizontal
    /// segment of boundary `b` over column `c`, if any: the top side of
    /// the cell below the boundary wins over the bottom side of the
    /// cell above it.
    pub open spec fn horiz_override_at(self, b: int, c: int) -> Option<char> {
        let from_below = if b < self.rows {
            match self.border_at(b, c) {
                Some(br) => br.top,
                None => None,
            }
        } else {
            None
        };
        let from_above = if b > 0 {
            match self.border_at(b - 1, c) {
                Some(br) => br.bottom,
                None => None,
            }
        } else {
            None
        };
        if from_below is Some {
            from_below
        } else {
            from_above
        }
    }

    /// Whether a horizontal border line exists at row boundary `b`: the
    /// style draws one, or some cell override supplies a character on it.
    pub open spec fn hline_exists(self, b: int) -> bool {
        self.hline_style_at(b) is Some || exists|c: int|
            0 <= c < self.cols && #[trigger] self.horiz_override_at(b, c) is Some
    }

    /// The override character on vertical boundary `cb` in row `r`.
    pub fn vert_override_char(&self, r: usize, cb: usize) -> (oc: Option<char>)
        requires
            self.wf(),
            r < self.rows,
            cb <= self.cols,
        ensures
            oc == self.vert_override_at(r as int, cb as int),
    {
        let from_right_cell: Option<char> = if cb < self.cols {
            match self.borders[r][cb] {
                Some(b) => b.left,
                None => None,
            }
        } else {
            None
        };
        let from_left_cell: Option<char> = if cb > 0 {
            match self.borders[r][cb - 1] {
                Some(b) => b.right,
                None => None,
            }
        } else {
            None
        };
        if from_right_cell.is_some() {
            from_right_cell
        } else {
            from_left_cell
        }
    }

    /// Whether vertical boundary `cb` exists in the grid at all.
    pub fn vert_line_exists(&self, cb: usize) -> (b: bool)
        requires
            self.wf(),
            cb <= self.cols,
        ensures
            b == self.vert_exists(cb as int),
    {
        let style_draws: bool = if cb == 0 {
            self.style.left.is_some()
        } else if cb == self.cols {
            self.style.right.is_some()
        } else {
            self.style.vertical.is_some()
        };
        if style_draws {
            return true;
        }
        let mut r: usize = 0;
        while r < self.rows
            invariant
                self.wf(),
                r <= self.rows,
                cb <= self.cols,
                !(self.style_vchar(cb as int) is Some),
                forall|k: int| 0 <= k < r ==> !(#[trigger] self.vert_override_at(k, cb as int) is Some),
            decreases self.rows - r,
        {
            if self.vert_override_char(r, cb).is_some() {
                return true;
            }
            r += 1;
        }
        false
    }

    /// The override character on the horizontal segment of boundary `b`
    /// over column `c`.
    pub fn horiz_override_char(&self, b: usize, c: usize) -> (oc: Option<char>)
        requires
            self.wf(),
            b <= self.rows,
            c < self.cols,
        ensures
            oc == self.horiz_override_at(b as int, c as int),
    {
        let from_below: Option<char> = if b < self.rows {
            match self.borders[b][c] {
                Some(br) => br.top,
                None => None,
            }
        } else {
            None
        };
        let from_above: Option<char> = if b > 0 {
            match self.borders[b - 1][c] {
                Some(br) => br.bottom,
                None => None,
            }
        } else {
            None
        };
        if from_below.is_some() {
            from_below
        } else {
            from_above
        }
    }

    /// The style of the horizontal line at row boundary `b`, if any.
    pub fn hline_style_of(&self, b: usize) -> (l: Option<HLineStyle>)
        requires
            b <= self.rows,
        ensures
            l == self.hline_style_at(b as int),
    {
        if b == 0 {
            self.style.top
        } else if b == self.rows {
            self.style.bottom
        } else if b == 1 && self.style.header.is_some() {
            self.style.header
        } else {
            self.style.horizontal
        }
    }

    /// Whether a horizontal border line exists at row boundary `b`.
    pub fn horiz_line_exists(&self, b: usize) -> (e: bool)
        requires
            self.wf(),
            b <= self.rows,
        ensures
            e == self.hline_exists(b as int),
    {
        if self.hline_style_of(b).is_some() {
            return true;
        }
        let mut c: usize = 0;
        while c < self.cols
            invariant
                self.wf(),
                c <= self.cols,
                b <= self.rows,
                !(self.hline_style_at(b as int) is Some),
                forall|k: int| 0 <= k < c ==> !(#[trigger] self.horiz_override_at(b as int, k) is Some),
            decreases self.cols - c,
        {
            if self.horiz_override_char(b, c).is_some() {
                return true;
            }
            c += 1;
        }
        false
    }

    /// Whether the cell at (r, c) is covered by the span of a cell to
    /// its left; for `c == cols`, whether the column boundary at `c`
    /// lies strictly inside a span of row `r`.
    pub fn is_absorbed(&self, r: usize, c: usize) -> (b: bool)
        requires
            self.wf(),
            r < self.rows,
            c <= self.cols,
        ensures
            b == self.absorbed(r as int, c as int),
    {
        let mut c0: usize = 0;
        let mut found = false;
        while c0 < c
            invariant
                self.wf(),
                r < self.rows,
                c <= self.cols,
                c0 <= c,
                found == exists|k: int| 0 <= k < c0 && #[trigger] self.span_at(r as int, k) > c - k,
            decreases c - c0,
        {
            if self.spans[r][c0] > c - c0 {
                proof {
                    assert(self.span_at(r as int, c0 as int) > c - c0);
                }
                found = true;
            }
            c0 += 1;
        }
        found
    }

    /// The formatting of one cell, read out.
    pub fn format_of(&self, r: usize, c: usize) -> (f: CellFormat)
        requires
            self.wf(),
            r < self.rows,
            c < self.cols,
        ensures
            f == self.format_at(r as int, c as int),
    {
        self.formats[r][c]
    }

    /// The border override of one cell, read out.
    pub fn border_of(&self, r: usize, c: usize) -> (b: Option<GridBorder>)
        requires
            self.wf(),
            r < self.rows,
            c < self.cols,
        ensures
            b == self.border_at(r as int, c as int),
    {
        self.borders[r][c]
    }

    /// The span size at (r, c), read out.
    pub fn span_size(&self, r: usize, c: usize) -> (s: usize)
        requires
            self.wf(),
            r < self.rows,
            c < self.cols,
        ensures
            s == self.span_at(r as int, c as int),
            1 <= s,
            c + s <= self.cols,
    {
        proof {
            assert(self.span_ok(r as int, c as int));
        }
        self.spans[r][c]
    }
}


} // verus!
