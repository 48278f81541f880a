//! The table handle: records and grid configuration of one shape,
//! mutated by (selector, setting) operations and rendered to text.

use vstd::prelude::*;
use crate::border::GridBorder;
use crate::config::{
    set_span_post, Alignment, CellFormat, GridConfig, HAlign, Padding,
};
use crate::dims::dims_fit;
use crate::entity::{entity_matches, selects, Entity};
use crate::records::{GridError, Records};
use crate::render::{render_grid, spec_render};
use crate::settings::{Border, EmptyBorder, Span};
use crate::style::Style;

verus! {

/// A table: the data and the formatting state it is rendered with.
#[derive(Debug, Clone, PartialEq, Eq)]
pub struct Table {
    pub records: Records,
    pub cfg: GridConfig,
}

/// How a border setting relates configurations: the targeted cells'
/// overrides are replaced by `nb`, everything else stands.
pub open spec fn borders_set(pre: GridConfig, post: GridConfig, e: Entity, nb: Option<
    GridBorder,
>) -> bool {
    &&& post.rows == pre.rows
    &&& post.cols == pre.cols
    &&& post.spans == pre.spans
    &&& post.formats == pre.formats
    &&& post.col_widths == pre.col_widths
    &&& post.row_heights == pre.row_heights
    &&& post.style == pre.style
    &&& post.correct_spans == pre.correct_spans
    &&& forall|r: int, c: int|
        pre.in_bounds(r, c) ==> #[trigger] post.border_at(r, c) == (if entity_matches(e, r, c) {
            nb
        } else {
            pre.border_at(r, c)
        })
}

/// How a padding setting relates configurations.
pub open spec fn formats_pad(pre: GridConfig, post: GridConfig, e: Entity, p: Padding) -> bool {
    &&& post.rows == pre.rows
    &&& post.cols == pre.cols
    &&& post.spans == pre.spans
    &&& post.borders == pre.borders
    &&& post.col_widths == pre.col_widths
    &&& post.row_heights == pre.row_heights
    &&& post.style == pre.style
    &&& post.correct_spans == pre.correct_spans
    &&& forall|r: int, c: int|
        pre.in_bounds(r, c) ==> #[trigger] post.format_at(r, c) == (if entity_matches(e, r, c) {
            CellFormat { padding: p, ..pre.format_at(r, c) }
        } else {
            pre.format_at(r, c)
        })
}

/// How an alignment setting relates configurations.
pub open spec fn formats_align(pre: GridConfig, post: GridConfig, e: Entity, a: Alignment) -> bool {
    &&& post.rows == pre.rows
    &&& post.cols == pre.cols
    &&& post.spans == pre.spans
    &&& post.borders == pre.borders
    &&& post.col_widths == pre.col_widths
    &&& post.row_heights == pre.row_heights
    &&& post.style == pre.style
    &&& post.correct_spans == pre.correct_spans
    &&& forall|r: int, c: int|
        pre.in_bounds(r, c) ==> #[trigger] post.format_at(r, c) == (if entity_matches(e, r, c) {
            match a {
                Alignment::Horizontal(h) => CellFormat { halign: h, ..pre.format_at(r, c) },
                Alignment::Vertical(v) => CellFormat { valign: v, ..pre.format_at(r, c) },
            }
        } else {
            pre.format_at(r, c)
        })
}

/// The stored border of a cell, or the empty border where none stands.
pub open spec fn base_border(cfg: GridConfig, r: int, c: int) -> GridBorder {
    match cfg.border_at(r, c) {
        Some(b) => b,
        None => GridBorder::spec_empty(),
    }
}

/// How a highlight writes one selected cell's border: each side facing
/// out of the selection gets the highlight's character; a side facing
/// a selected neighbour keeps what stood there; a corner is written
/// whenever one of its two adjacent sides is.
pub open spec fn highlight_border(
    base: GridBorder,
    hl: GridBorder,
    up: bool,
    down: bool,
    left: bool,
    right: bool,
) -> GridBorder {
    GridBorder {
        top: if up {
            base.top
        } else {
            hl.top
        },
        bottom: if down {
            base.bottom
        } else {
            hl.bottom
        },
        left: if left {
            base.left
        } else {
            hl.left
        },
        right: if right {
            base.right
        } else {
            hl.right
        },
        left_top_corner: if up && left {
            base.left_top_corner
        } else {
            hl.left_top_corner
        },
        right_top_corner: if up && right {
            base.right_top_corner
        } else {
            hl.right_top_corner
        },
        left_bottom_corner: if down && left {
            base.left_bottom_corner
        } else {
            hl.left_bottom_corner
        },
        right_bottom_corner: if down && right {
            base.right_bottom_corner
        } else {
            hl.right_bottom_corner
        },
    }
}

/// A setting applicable to a selector through [`Table::apply`]: the
/// uniform modifier protocol.
#[derive(Debug, Clone, Copy, PartialEq, Eq)]
pub enum Setting {
    /// Register a column span on each targeted cell.
    Span(Span),
    /// Overwrite each targeted cell's border.
    Border(GridBorder),
    /// Clear each targeted cell's border override.
    NoBorder,
    /// Overwrite each targeted cell's padding.
    Pad(Padding),
    /// Overwrite one alignment axis of each targeted cell.
    Align(Alignment),
}

impl Table {
    /// A table is well-formed when its records and configuration agree
    /// on one rectangular shape.
    pub open spec fn wf(self) -> bool {
        &&& self.records.wf()
        &&& self.cfg.wf()
        &&& self.cfg.rows == self.records.spec_rows()
        &&& self.cfg.cols == self.records.cols
    }

    /// A new table over the given records: classic style, no spans, no
    /// overrides, default formats.
    pub fn new(records: Records) -> (t: Table)
        requires
            records.wf(),
        ensures
            t.wf(),
            t.records == records,
            t.cfg.style == Style::spec_ascii(),
            t.cfg.correct_spans == false,
            forall|r: int, c: int| t.cfg.in_bounds(r, c) ==> #[trigger] t.cfg.span_at(r, c) == 1,
            forall|r: int, c: int|
                t.cfg.in_bounds(r, c) ==> #[trigger] t.cfg.border_at(r, c) is None,
            forall|r: int, c: int|
                t.cfg.in_bounds(r, c) ==> #[trigger] t.cfg.format_at(r, c)
                    == CellFormat::spec_default(),
    {
        let rows = records.count_rows();
        let cols = records.count_columns();
        let cfg = GridConfig::new(rows, cols, Style::ascii());
        Table { records, cfg }
    }

    /// The shape of the table: (rows, columns).
    pub fn shape(&self) -> (s: (usize, usize))
        ensures
            s.0 == self.records.spec_rows(),
            s.1 == self.records.cols,
    {
        (self.records.count_rows(), self.records.count_columns())
    }

    /// Replaces the default style.
    pub fn with_style(&mut self, style: Style)
        requires
            old(self).wf(),
        ensures
            final(self).wf(),
            final(self).records == old(self).records,
            final(self).cfg == (GridConfig { style, ..old(self).cfg }),
    {
        self.cfg.set_style(style);
    }

    /// Turns the span normalization mode on or off.
    pub fn correct_spans(&mut self, on: bool)
        requires
            old(self).wf(),
        ensures
            final(self).wf(),
            final(self).records == old(self).records,
            final(self).cfg == (GridConfig { correct_spans: on, ..old(self).cfg }),
    {
        self.cfg.set_correct_spans(on);
    }

    /// Applies one setting to every cell a selector targets: the
    /// uniform (selector, modification) operation all built-in
    /// settings go through.
    pub fn apply(&mut self, setting: &Setting, entity: Entity)
        requires
            old(self).wf(),
        ensures
            final(self).wf(),
            final(self).records == old(self).records,
            final(self).cfg.rows == old(self).cfg.rows,
            final(self).cfg.cols == old(self).cfg.cols,
            final(self).cfg.style == old(self).cfg.style,
            final(self).cfg.correct_spans == old(self).cfg.correct_spans,
            (*setting matches Setting::Border(b) ==> borders_set(
                old(self).cfg,
                final(self).cfg,
                entity,
                Some(b),
            )),
            (*setting matches Setting::NoBorder ==> borders_set(
                old(self).cfg,
                final(self).cfg,
                entity,
                None,
            )),
            (*setting matches Setting::Pad(p) ==> formats_pad(
                old(self).cfg,
                final(self).cfg,
                entity,
                p,
            )),
            (*setting matches Setting::Align(a) ==> formats_align(
                old(self).cfg,
                final(self).cfg,
                entity,
                a,
            )),
            (*setting matches Setting::Span(sp) ==> final(self).cfg.borders == old(
                self,
            ).cfg.borders && final(self).cfg.formats == old(self).cfg.formats && (entity matches
            Entity::Cell(rr, cc) ==> (selects(
                entity,
                old(self).cfg.rows as int,
                old(self).cfg.cols as int,
                rr as int,
                cc as int,
            ) ==> set_span_post(
                old(self).cfg,
                final(self).cfg,
                rr as int,
                cc as int,
                sp.size as int,
            )))),
    {
        match setting {
            Setting::Span(sp) => {
                sp.change_cell(self, entity);
            },
            Setting::Border(b) => {
                b.change(self, entity);
            },
            Setting::NoBorder => {
                let e = EmptyBorder;
                e.change(self, entity);
            },
            Setting::Pad(p) => {
                self.pad_cells(entity, *p);
            },
            Setting::Align(a) => {
                self.align_cells(entity, *a);
            },
        }
    }

    /// Overwrites the padding of every cell the selector targets.
    pub fn pad_cells(&mut self, entity: Entity, padding: Padding)
        requires
            old(self).wf(),
        ensures
            final(self).wf(),
            final(self).records == old(self).records,
            formats_pad(old(self).cfg, final(self).cfg, entity, padding),
    {
        let (rows, cols) = self.shape();
        let mut r: usize = 0;
        while r < rows
            invariant
                self.wf(),
                self.records == old(self).records,
                rows == self.cfg.rows,
                cols == self.cfg.cols,
                r <= rows,
                self.cfg.rows == old(self).cfg.rows,
                self.cfg.cols == old(self).cfg.cols,
                self.cfg.spans == old(self).cfg.spans,
                self.cfg.borders == old(self).cfg.borders,
                self.cfg.col_widths == old(self).cfg.col_widths,
                self.cfg.row_heights == old(self).cfg.row_heights,
                self.cfg.style == old(self).cfg.style,
                self.cfg.correct_spans == old(self).cfg.correct_spans,
                forall|r2: int, c2: int|
                    old(self).cfg.in_bounds(r2, c2) ==> #[trigger] self.cfg.format_at(r2, c2) == (
                    if r2 < r && entity_matches(entity, r2, c2) {
                        CellFormat { padding, ..old(self).cfg.format_at(r2, c2) }
                    } else {
                        old(self).cfg.format_at(r2, c2)
                    }),
            decreases rows - r,
        {
            let mut c: usize = 0;
            while c < cols
                invariant
                    self.wf(),
                    self.records == old(self).records,
                    rows == self.cfg.rows,
                    cols == self.cfg.cols,
                    r < rows,
                    c <= cols,
                    self.cfg.rows == old(self).cfg.rows,
                    self.cfg.cols == old(self).cfg.cols,
                    self.cfg.spans == old(self).cfg.spans,
                    self.cfg.borders == old(self).cfg.borders,
                    self.cfg.col_widths == old(self).cfg.col_widths,
                    self.cfg.row_heights == old(self).cfg.row_heights,
                self.cfg.row_heights == old(self).cfg.row_heights,
                self.cfg.style == old(self).cfg.style,
                    self.cfg.correct_spans == old(self).cfg.correct_spans,
                    forall|r2: int, c2: int|
                        old(self).cfg.in_bounds(r2, c2) ==> #[trigger] self.cfg.format_at(r2, c2)
                            == (if (r2 < r || (r2 == r && c2 < c)) && entity_matches(
                            entity,
                            r2,
                            c2,
                        ) {
                            CellFormat { padding, ..old(self).cfg.format_at(r2, c2) }
                        } else {
                            old(self).cfg.format_at(r2, c2)
                        }),
                decreases cols - c,
            {
                if entity.matches_at(r, c) {
                    self.cfg.set_padding(r, c, padding);
                }
                c += 1;
            }
            r += 1;
        }
    }

    /// Overwrites one alignment axis of every cell the selector
    /// targets.
    pub fn align_cells(&mut self, entity: Entity, alignment: Alignment)
        requires
            old(self).wf(),
        ensures
            final(self).wf(),
            final(self).records == old(self).records,
            formats_align(old(self).cfg, final(self).cfg, entity, alignment),
    {
        let (rows, cols) = self.shape();
        let mut r: usize = 0;
        while r < rows
            invariant
                self.wf(),
                self.records == old(self).records,
                rows == self.cfg.rows,
                cols == self.cfg.cols,
                r <= rows,
                self.cfg.rows == old(self).cfg.rows,
                self.cfg.cols == old(self).cfg.cols,
                self.cfg.spans == old(self).cfg.spans,
                self.cfg.borders == old(self).cfg.borders,
                self.cfg.col_widths == old(self).cfg.col_widths,
                self.cfg.row_heights == old(self).cfg.row_heights,
                self.cfg.style == old(self).cfg.style,
                self.cfg.correct_spans == old(self).cfg.correct_spans,
                forall|r2: int, c2: int|
                    old(self).cfg.in_bounds(r2, c2) ==> #[trigger] self.cfg.format_at(r2, c2) == (
                    if r2 < r && entity_matches(entity, r2, c2) {
                        match alignment {
                            Alignment::Horizontal(h) => CellFormat {
                                halign: h,
                                ..old(self).cfg.format_at(r2, c2)
                            },
                            Alignment::Vertical(v) => CellFormat {
                                valign: v,
                                ..old(self).cfg.format_at(r2, c2)
                            },
                        }
                    } else {
                        old(self).cfg.format_at(r2, c2)
                    }),
            decreases rows - r,
        {
            let mut c: usize = 0;
            while c < cols
                invariant
                    self.wf(),
                    self.records == old(self).records,
                    rows == self.cfg.rows,
                    cols == self.cfg.cols,
                    r < rows,
                    c <= cols,
                    self.cfg.rows == old(self).cfg.rows,
                    self.cfg.cols == old(self).cfg.cols,
                    self.cfg.spans == old(self).cfg.spans,
                    self.cfg.borders == old(self).cfg.borders,
                    self.cfg.col_widths == old(self).cfg.col_widths,
                    self.cfg.row_heights == old(self).cfg.row_heights,
                self.cfg.row_heights == old(self).cfg.row_heights,
                self.cfg.style == old(self).cfg.style,
                    self.cfg.correct_spans == old(self).cfg.correct_spans,
                    forall|r2: int, c2: int|
                        old(self).cfg.in_bounds(r2, c2) ==> #[trigger] self.cfg.format_at(r2, c2)
                            == (if (r2 < r || (r2 == r && c2 < c)) && entity_matches(
                            entity,
                            r2,
                            c2,
                        ) {
                            match alignment {
                                Alignment::Horizontal(h) => CellFormat {
                                    halign: h,
                                    ..old(self).cfg.format_at(r2, c2)
                                },
                                Alignment::Vertical(v) => CellFormat {
                                    valign: v,
                                    ..old(self).cfg.format_at(r2, c2)
                                },
                            }
                        } else {
                            old(self).cfg.format_at(r2, c2)
                        }),
                decreases cols - c,
            {
                if entity.matches_at(r, c) {
                    self.cfg.set_alignment(r, c, alignment);
                }
                c += 1;
            }
            r += 1;
        }
    }

    /// Draws a border around the outer boundary of the cells a
    /// selector targets, and only there: a side between two selected
    /// cells is left exactly as it stood, so the highlight touches the
    /// selection's perimeter and never draws interior divisions.
    pub fn highlight(&mut self, entity: Entity, border: GridBorder)
        requires
            old(self).wf(),
        ensures
            final(self).wf(),
            final(self).records == old(self).records,
            final(self).cfg.rows == old(self).cfg.rows,
            final(self).cfg.cols == old(self).cfg.cols,
            final(self).cfg.spans == old(self).cfg.spans,
            final(self).cfg.formats == old(self).cfg.formats,
            final(self).cfg.col_widths == old(self).cfg.col_widths,
            final(self).cfg.row_heights == old(self).cfg.row_heights,
            final(self).cfg.style == old(self).cfg.style,
            final(self).cfg.correct_spans == old(self).cfg.correct_spans,
            forall|r: int, c: int|
                old(self).cfg.in_bounds(r, c) ==> #[trigger] final(self).cfg.border_at(r, c) == (
                if selects(entity, old(self).cfg.rows as int, old(self).cfg.cols as int, r, c) {
                    Some(
                        highlight_border(
                            base_border(old(self).cfg, r, c),
                            border,
                            selects(
                                entity,
                                old(self).cfg.rows as int,
                                old(self).cfg.cols as int,
                                r - 1,
                                c,
                            ),
                            selects(
                                entity,
                                old(self).cfg.rows as int,
                                old(self).cfg.cols as int,
                                r + 1,
                                c,
                            ),
                            selects(
                                entity,
                                old(self).cfg.rows as int,
                                old(self).cfg.cols as int,
                                r,
                                c - 1,
                            ),
                            selects(
                                entity,
                                old(self).cfg.rows as int,
                                old(self).cfg.cols as int,
                                r,
                                c + 1,
                            ),
                        ),
                    )
                } else {
                    old(self).cfg.border_at(r, c)
                }),
    {
        let (rows, cols) = self.shape();
        let mut r: usize = 0;
        while r < rows
            invariant
                self.wf(),
                self.records == old(self).records,
                rows == self.cfg.rows,
                cols == self.cfg.cols,
                r <= rows,
                self.cfg.rows == old(self).cfg.rows,
                self.cfg.cols == old(self).cfg.cols,
                self.cfg.spans == old(self).cfg.spans,
                self.cfg.formats == old(self).cfg.formats,
                self.cfg.col_widths == old(self).cfg.col_widths,
                self.cfg.row_heights == old(self).cfg.row_heights,
                self.cfg.style == old(self).cfg.style,
                self.cfg.correct_spans == old(self).cfg.correct_spans,
                forall|r2: int, c2: int|
                    old(self).cfg.in_bounds(r2, c2) ==> #[trigger] self.cfg.border_at(r2, c2) == (
                    if r2 < r && selects(entity, rows as int, cols as int, r2, c2) {
                        Some(
                            highlight_border(
                                base_border(old(self).cfg, r2, c2),
                                border,
                                selects(entity, rows as int, cols as int, r2 - 1, c2),
                                selects(entity, rows as int, cols as int, r2 + 1, c2),
                                selects(entity, rows as int, cols as int, r2, c2 - 1),
                                selects(entity, rows as int, cols as int, r2, c2 + 1),
                            ),
                        )
                    } else {
                        old(self).cfg.border_at(r2, c2)
                    }),
            decreases rows - r,
        {
            let mut c: usize = 0;
            while c < cols
                invariant
                    self.wf(),
                    self.records == old(self).records,
                    rows == self.cfg.rows,
                    cols == self.cfg.cols,
                    r < rows,
                    c <= cols,
                    self.cfg.rows == old(self).cfg.rows,
                    self.cfg.cols == old(self).cfg.cols,
                    self.cfg.spans == old(self).cfg.spans,
                    self.cfg.formats == old(self).cfg.formats,
                    self.cfg.col_widths == old(self).cfg.col_widths,
                    self.cfg.row_heights == old(self).cfg.row_heights,
                self.cfg.row_heights == old(self).cfg.row_heights,
                self.cfg.style == old(self).cfg.style,
                    self.cfg.correct_spans == old(self).cfg.correct_spans,
                    forall|r2: int, c2: int|
                        old(self).cfg.in_bounds(r2, c2) ==> #[trigger] self.cfg.border_at(r2, c2)
                            == (if (r2 < r || (r2 == r && c2 < c)) && selects(
                            entity,
                            rows as int,
                            cols as int,
                            r2,
                            c2,
                        ) {
                            Some(
                                highlight_border(
                                    base_border(old(self).cfg, r2, c2),
                                    border,
                                    selects(entity, rows as int, cols as int, r2 - 1, c2),
                                    selects(entity, rows as int, cols as int, r2 + 1, c2),
                                    selects(entity, rows as int, cols as int, r2, c2 - 1),
                                    selects(entity, rows as int, cols as int, r2, c2 + 1),
                                ),
                            )
                        } else {
                            old(self).cfg.border_at(r2, c2)
                        }),
                decreases cols - c,
            {
                if entity.matches_at(r, c) {
                    let up = r > 0 && entity.matches_at(r - 1, c);
                    let down = r + 1 < rows && entity.matches_at(r + 1, c);
                    let left = c > 0 && entity.matches_at(r, c - 1);
                    let right = c + 1 < cols && entity.matches_at(r, c + 1);
                    let base = match self.cfg.border_of(r, c) {
                        Some(b) => b,
                        None => GridBorder::empty(),
                    };
                    let nb = GridBorder {
                        top: if up {
                            base.top
                        } else {
                            border.top
                        },
                        bottom: if down {
                            base.bottom
                        } else {
                            border.bottom
                        },
                        left: if left {
                            base.left
                        } else {
                            border.left
                        },
                        right: if right {
                            base.right
                        } else {
                            border.right
                        },
                        left_top_corner: if up && left {
                            base.left_top_corner
                        } else {
                            border.left_top_corner
                        },
                        right_top_corner: if up && right {
                            base.right_top_corner
                        } else {
                            border.right_top_corner
                        },
                        left_bottom_corner: if down && left {
                            base.left_bottom_corner
                        } else {
                            border.left_bottom_corner
                        },
                        right_bottom_corner: if down && right {
                            base.right_bottom_corner
                        } else {
                            border.right_bottom_corner
                        },
                    };
                    proof {
                        assert(self.cfg.border_at(r as int, c as int) == old(
                            self,
                        ).cfg.border_at(r as int, c as int));
                        assert(nb == highlight_border(
                            base_border(old(self).cfg, r as int, c as int),
                            border,
                            selects(entity, rows as int, cols as int, r as int - 1, c as int),
                            selects(entity, rows as int, cols as int, r as int + 1, c as int),
                            selects(entity, rows as int, cols as int, r as int, c as int - 1),
                            selects(entity, rows as int, cols as int, r as int, c as int + 1),
                        ));
                    }
                    self.cfg.set_border(r, c, nb);
                }
                c += 1;
            }
            r += 1;
        }
    }

    /// Inserts a panel before row `row`: a synthetic full-width row
    /// holding the text in its first cell, immediately spanned across
    /// every column and centered. On a table without columns nothing
    /// happens.
    pub fn insert_panel(&mut self, row: usize, text: String)
        requires
            old(self).wf(),
            row <= old(self).records.spec_rows(),
            old(self).records.spec_rows() < usize::MAX,
        ensures
            final(self).wf(),
            (old(self).cfg.cols == 0 ==> *final(self) == *old(self)),
            final(self).cfg.cols == old(self).cfg.cols,
            final(self).cfg.col_widths == old(self).cfg.col_widths,
            (old(self).cfg.cols > 0 ==> final(self).cfg.row_heights@ == old(
                self,
            ).cfg.row_heights@.insert(row as int, None::<usize>)),
            final(self).cfg.style == old(self).cfg.style,
            final(self).cfg.correct_spans == old(self).cfg.correct_spans,
            (old(self).cfg.cols > 0 ==> final(self).cfg.rows == old(self).cfg.rows + 1),
            (old(self).cfg.cols > 0 ==> forall|r: int, c: int|
                final(self).cfg.in_bounds(r, c) ==> #[trigger] final(self).records.cell(r, c) == (
                if r < row {
                    old(self).records.cell(r, c)
                } else if r == row {
                    if c == 0 {
                        text@
                    } else {
                        Seq::<char>::empty()
                    }
                } else {
                    old(self).records.cell(r - 1, c)
                })),
            (old(self).cfg.cols > 0 ==> forall|r: int, c: int|
                final(self).cfg.in_bounds(r, c) ==> #[trigger] final(self).cfg.span_at(r, c) == (
                if r == row {
                    if c == 0 {
                        old(self).cfg.cols as int
                    } else {
                        1int
                    }
                } else if r < row {
                    old(self).cfg.span_at(r, c)
                } else {
                    old(self).cfg.span_at(r - 1, c)
                })),
            (old(self).cfg.cols > 0 ==> forall|r: int, c: int|
                final(self).cfg.in_bounds(r, c) ==> #[trigger] final(self).cfg.border_at(r, c) == (
                if r == row {
                    None::<GridBorder>
                } else if r < row {
                    old(self).cfg.border_at(r, c)
                } else {
                    old(self).cfg.border_at(r - 1, c)
                })),
            (old(self).cfg.cols > 0 ==> forall|r: int, c: int|
                final(self).cfg.in_bounds(r, c) ==> #[trigger] final(self).cfg.format_at(r, c) == (
                if r == row {
                    if c == 0 {
                        CellFormat { halign: HAlign::Center, ..CellFormat::spec_default() }
                    } else {
                        CellFormat::spec_default()
                    }
                } else if r < row {
                    old(self).cfg.format_at(r, c)
                } else {
                    old(self).cfg.format_at(r - 1, c)
                })),
    {
        let cols = self.records.count_columns();
        if cols == 0 {
            return ;
        }
        let mut cells: Vec<String> = Vec::new();
        cells.push(text);
        let mut k: usize = 1;
        while k < cols
            invariant
                1 <= k <= cols || (cols == 0 && k == 1),
                cells@.len() == k,
                cells@[0]@ == text@,
                forall|i: int| 1 <= i < k ==> (#[trigger] cells@[i])@ == Seq::<char>::empty(),
            decreases cols - k,
        {
            cells.push(String::new());
            k += 1;
        }
        self.records.insert_row(row, cells);
        self.cfg.insert_row(row);
        let ghost after_insert = self.cfg;
        self.cfg.set_span(row, 0, cols);
        let ghost after_span = self.cfg;
        self.cfg.set_alignment(row, 0, Alignment::Horizontal(HAlign::Center));
        proof {
            let pre = *old(self);
            let post = *self;
            let rowi = row as int;
            let colsi = cols as int;
            assert(crate::config::spec_clamped_span(colsi, 0, colsi) == colsi);
            assert forall|r: int, c: int| post.cfg.in_bounds(r, c) implies #[trigger] post.cfg.span_at(
                r,
                c,
            ) == (if r == rowi {
                if c == 0 {
                    colsi
                } else {
                    1int
                }
            } else if r < rowi {
                pre.cfg.span_at(r, c)
            } else {
                pre.cfg.span_at(r - 1, c)
            }) by {
                assert(post.cfg.span_at(r, c) == after_span.span_at(r, c));
                assert(after_insert.span_at(r, c) == (if r < rowi {
                    pre.cfg.span_at(r, c)
                } else if r == rowi {
                    1int
                } else {
                    pre.cfg.span_at(r - 1, c)
                }));
            }
            assert forall|r: int, c: int| post.cfg.in_bounds(r, c) implies #[trigger] post.cfg.border_at(
                r,
                c,
            ) == (if r == rowi {
                None::<GridBorder>
            } else if r < rowi {
                pre.cfg.border_at(r, c)
            } else {
                pre.cfg.border_at(r - 1, c)
            }) by {
                assert(post.cfg.border_at(r, c) == after_span.border_at(r, c));
                assert(after_span.border_at(r, c) == after_insert.border_at(r, c));
            }
            assert forall|r: int, c: int| post.cfg.in_bounds(r, c) implies #[trigger] post.cfg.format_at(
                r,
                c,
            ) == (if r == rowi {
                if c == 0 {
                    CellFormat { halign: HAlign::Center, ..CellFormat::spec_default() }
                } else {
                    CellFormat::spec_default()
                }
            } else if r < rowi {
                pre.cfg.format_at(r, c)
            } else {
                pre.cfg.format_at(r - 1, c)
            }) by {
                assert(after_span.format_at(r, c) == after_insert.format_at(r, c));
                assert(after_insert.format_at(r, c) == (if r < rowi {
                    pre.cfg.format_at(r, c)
                } else if r == rowi {
                    CellFormat::spec_default()
                } else {
                    pre.cfg.format_at(r - 1, c)
                }));
            }
        }
    }

    /// Sets or clears the explicit width of one column: a set width
    /// takes precedence over the computed natural width, padding or
    /// truncating cell content as needed.
    pub fn set_column_width(&mut self, col: usize, width: Option<usize>)
        requires
            old(self).wf(),
            col < old(self).records.cols,
        ensures
            final(self).wf(),
            final(self).records == old(self).records,
            *final(self) == (Table {
                records: old(self).records,
                cfg: GridConfig { col_widths: final(self).cfg.col_widths, ..old(self).cfg },
            }),
            forall|c: int|
                0 <= c < old(self).cfg.cols ==> #[trigger] final(self).cfg.width_override(c) == (
                if c == col {
                    width
                } else {
                    old(self).cfg.width_override(c)
                }),
    {
        self.cfg.set_column_width(col, width);
    }

    /// Sets or clears the explicit height of one row: a set height
    /// takes precedence over the computed natural height.
    pub fn set_row_height(&mut self, row: usize, height: Option<usize>)
        requires
            old(self).wf(),
            row < old(self).records.spec_rows(),
        ensures
            final(self).wf(),
            final(self).records == old(self).records,
            *final(self) == (Table {
                records: old(self).records,
                cfg: GridConfig { row_heights: final(self).cfg.row_heights, ..old(self).cfg },
            }),
            forall|r: int|
                0 <= r < old(self).cfg.rows ==> #[trigger] final(self).cfg.height_override(r) == (
                if r == row {
                    height
                } else {
                    old(self).cfg.height_override(r)
                }),
    {
        self.cfg.set_row_height(row, height);
    }

    /// Renders the table. Succeeds exactly when the resolved
    /// dimensions fit the machine word; the output is fully determined
    /// by the table's state, so re-rendering without mutation yields
    /// byte-identical output.
    pub fn render(&self) -> (res: Result<String, GridError>)
        requires
            self.wf(),
        ensures
            res is Ok <==> dims_fit(self.cfg, self.records),
            (res matches Ok(s) ==> s@ == spec_render(self.cfg, self.records)),
            (res matches Err(e) ==> e == GridError::TooLarge),
    {
        render_grid(&self.cfg, &self.records)
    }
}

impl Span {
    /// Applies the span to every cell the selector targets, by the
    /// grid's span semantics (replace at the origin, clamp, clear
    /// overlaps).
    pub fn change_cell(&self, table: &mut Table, entity: Entity)
        requires
            old(table).wf(),
        ensures
            final(table).wf(),
            final(table).records == old(table).records,
            final(table).cfg.rows == old(table).cfg.rows,
            final(table).cfg.cols == old(table).cfg.cols,
            final(table).cfg.borders == old(table).cfg.borders,
            final(table).cfg.formats == old(table).cfg.formats,
            final(table).cfg.col_widths == old(table).cfg.col_widths,
            final(table).cfg.row_heights == old(table).cfg.row_heights,
            final(table).cfg.style == old(table).cfg.style,
            final(table).cfg.correct_spans == old(table).cfg.correct_spans,
            (entity matches Entity::Cell(rr, cc) ==> (selects(
                entity,
                old(table).cfg.rows as int,
                old(table).cfg.cols as int,
                rr as int,
                cc as int,
            ) ==> set_span_post(
                old(table).cfg,
                final(table).cfg,
                rr as int,
                cc as int,
                self.size as int,
            ))),
            (entity matches Entity::Cell(rr, cc) ==> (!selects(
                entity,
                old(table).cfg.rows as int,
                old(table).cfg.cols as int,
                rr as int,
                cc as int,
            ) ==> *final(table) == *old(table))),
    {
        let (rows, cols) = table.shape();
        match entity {
            Entity::Cell(rr, cc) => {
                if rr < rows && cc < cols {
                    table.cfg.set_span(rr, cc, self.size);
                }
            },
            _ => {
                let ps = entity.resolve(rows, cols);
                let mut i: usize = 0;
                while i < ps.len()
                    invariant
                        table.wf(),
                        table.records == old(table).records,
                        rows == table.cfg.rows,
                        cols == table.cfg.cols,
                        i <= ps@.len(),
                        table.cfg.rows == old(table).cfg.rows,
                        table.cfg.cols == old(table).cfg.cols,
                        table.cfg.borders == old(table).cfg.borders,
                        table.cfg.formats == old(table).cfg.formats,
                        table.cfg.col_widths == old(table).cfg.col_widths,
                    table.cfg.row_heights == old(table).cfg.row_heights,
                table.cfg.row_heights == old(table).cfg.row_heights,
                table.cfg.style == old(table).cfg.style,
                        table.cfg.correct_spans == old(table).cfg.correct_spans,
                        forall|k: int|
                            0 <= k < ps@.len() ==> selects(
                                entity,
                                rows as int,
                                cols as int,
                                (#[trigger] ps@[k]).0 as int,
                                ps@[k].1 as int,
                            ),
                    decreases ps@.len() - i,
                {
                    let p = ps[i];
                    table.cfg.set_span(p.0, p.1, self.size);
                    i += 1;
                }
            },
        }
    }
}

impl GridBorder {
    /// Overwrites the border of every cell the selector targets.
    pub fn change(&self, table: &mut Table, entity: Entity)
        requires
            old(table).wf(),
        ensures
            final(table).wf(),
            final(table).records == old(table).records,
            borders_set(old(table).cfg, final(table).cfg, entity, Some(*self)),
    {
        let (rows, cols) = table.shape();
        let mut r: usize = 0;
        while r < rows
            invariant
                table.wf(),
                table.records == old(table).records,
                rows == table.cfg.rows,
                cols == table.cfg.cols,
                r <= rows,
                table.cfg.rows == old(table).cfg.rows,
                table.cfg.cols == old(table).cfg.cols,
                table.cfg.spans == old(table).cfg.spans,
                table.cfg.formats == old(table).cfg.formats,
                table.cfg.col_widths == old(table).cfg.col_widths,
                table.cfg.row_heights == old(table).cfg.row_heights,
                table.cfg.style == old(table).cfg.style,
                table.cfg.correct_spans == old(table).cfg.correct_spans,
                forall|r2: int, c2: int|
                    old(table).cfg.in_bounds(r2, c2) ==> #[trigger] table.cfg.border_at(r2, c2)
                        == (if r2 < r && entity_matches(entity, r2, c2) {
                        Some(*self)
                    } else {
                        old(table).cfg.border_at(r2, c2)
                    }),
            decreases rows - r,
        {
            let mut c: usize = 0;
            while c < cols
                invariant
                    table.wf(),
                    table.records == old(table).records,
                    rows == table.cfg.rows,
                    cols == table.cfg.cols,
                    r < rows,
                    c <= cols,
                    table.cfg.rows == old(table).cfg.rows,
                    table.cfg.cols == old(table).cfg.cols,
                    table.cfg.spans == old(table).cfg.spans,
                    table.cfg.formats == old(table).cfg.formats,
                    table.cfg.col_widths == old(table).cfg.col_widths,
                    table.cfg.row_heights == old(table).cfg.row_heights,
                table.cfg.row_heights == old(table).cfg.row_heights,
                table.cfg.style == old(table).cfg.style,
                    table.cfg.correct_spans == old(table).cfg.correct_spans,
                    forall|r2: int, c2: int|
                        old(table).cfg.in_bounds(r2, c2) ==> #[trigger] table.cfg.border_at(r2, c2)
                            == (if (r2 < r || (r2 == r && c2 < c)) && entity_matches(
                            entity,
                            r2,
                            c2,
                        ) {
                            Some(*self)
                        } else {
                            old(table).cfg.border_at(r2, c2)
                        }),
                decreases cols - c,
            {
                if entity.matches_at(r, c) {
                    table.cfg.set_border(r, c, *self);
                }
                c += 1;
            }
            r += 1;
        }
    }
}

impl Border {
    /// Overwrites the border of every cell the selector targets.
    pub fn change(&self, table: &mut Table, entity: Entity)
        requires
            old(table).wf(),
        ensures
            final(table).wf(),
            final(table).records == old(table).records,
            borders_set(old(table).cfg, final(table).cfg, entity, Some(self.inner)),
    {
        let inner = self.into_inner();
        inner.change(table, entity);
    }
}

impl EmptyBorder {
    /// Clears the border override of every cell the selector targets.
    pub fn change(&self, table: &mut Table, entity: Entity)
        requires
            old(table).wf(),
        ensures
            final(table).wf(),
            final(table).records == old(table).records,
            borders_set(old(table).cfg, final(table).cfg, entity, None),
    {
        let (rows, cols) = table.shape();
        let mut r: usize = 0;
        while r < rows
            invariant
                table.wf(),
                table.records == old(table).records,
                rows == table.cfg.rows,
                cols == table.cfg.cols,
                r <= rows,
                table.cfg.rows == old(table).cfg.rows,
                table.cfg.cols == old(table).cfg.cols,
                table.cfg.spans == old(table).cfg.spans,
                table.cfg.formats == old(table).cfg.formats,
                table.cfg.col_widths == old(table).cfg.col_widths,
                table.cfg.row_heights == old(table).cfg.row_heights,
                table.cfg.style == old(table).cfg.style,
                table.cfg.correct_spans == old(table).cfg.correct_spans,
                forall|r2: int, c2: int|
                    old(table).cfg.in_bounds(r2, c2) ==> #[trigger] table.cfg.border_at(r2, c2)
                        == (if r2 < r && entity_matches(entity, r2, c2) {
                        None::<GridBorder>
                    } else {
                        old(table).cfg.border_at(r2, c2)
                    }),
            decreases rows - r,
        {
            let mut c: usize = 0;
            while c < cols
                invariant
                    table.wf(),
                    table.records == old(table).records,
                    rows == table.cfg.rows,
                    cols == table.cfg.cols,
                    r < rows,
                    c <= cols,
                    table.cfg.rows == old(table).cfg.rows,
                    table.cfg.cols == old(table).cfg.cols,
                    table.cfg.spans == old(table).cfg.spans,
                    table.cfg.formats == old(table).cfg.formats,
                    table.cfg.col_widths == old(table).cfg.col_widths,
                    table.cfg.row_heights == old(table).cfg.row_heights,
                table.cfg.row_heights == old(table).cfg.row_heights,
                table.cfg.style == old(table).cfg.style,
                    table.cfg.correct_spans == old(table).cfg.correct_spans,
                    forall|r2: int, c2: int|
                        old(table).cfg.in_bounds(r2, c2) ==> #[trigger] table.cfg.border_at(r2, c2)
                            == (if (r2 < r || (r2 == r && c2 < c)) && entity_matches(
                            entity,
                            r2,
                            c2,
                        ) {
                            None::<GridBorder>
                        } else {
                            old(table).cfg.border_at(r2, c2)
                        }),
                decreases cols - c,
            {
                if entity.matches_at(r, c) {
                    table.cfg.remove_border(r, c);
                }
                c += 1;
            }
            r += 1;
        }
    }
}

/// Law: rendering is deterministic. Two renders of one unchanged
/// table are byte-identical.
pub proof fn lemma_render_idempotent(t: Table, out1: Seq<char>, out2: Seq<char>)
    requires
        out1 == spec_render(t.cfg, t.records),
        out2 == spec_render(t.cfg, t.records),
    ensures
        out1 == out2,
{
}

} // verus!
