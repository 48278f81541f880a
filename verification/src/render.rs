//! The grid builder: walks the configured grid and emits the bordered
//! text, merging borders at intersections and skipping cells absorbed
//! by a span.
//!
//! The output is fully determined by the configuration, the records
//! and the width/height plan: every executable function here is proved
//! equal to the specification functions that build the same lines over
//! sequences of characters.

use vstd::prelude::*;
use crate::config::GridConfig;
use crate::dims::{
    adjust_step, adjust_upto, dims_fit, estimate, lemma_avail_le_total, lemma_range_sum_nonneg,
    lemma_range_sum_split, lemma_row_h_pos, lemma_vcount_nonneg, lemma_vcount_snoc,
    lemma_vcount_split, lemma_width_bounds, nat_widths, range_sum, span_area, span_avail,
    spec_heights, spec_height, spec_widths, to_ints, total_width, vcount,
};
use crate::records::{GridError, Records};

verus! {

/// `n` copies of one character (none for a negative count).
pub open spec fn char_rep(ch: char, n: int) -> Seq<char> {
    Seq::new(if n < 0 {
        0nat
    } else {
        n as nat
    }, |i: int| ch)
}

/// The character of the horizontal segment of boundary `b` over column
/// `c`: a cell override wins over the style's line; a segment of a
/// line that exists only through other overrides is a space.
pub open spec fn hseg_char(cfg: GridConfig, b: int, c: int) -> char {
    match cfg.horiz_override_at(b, c) {
        Some(ch) => ch,
        None => match cfg.hline_style_at(b) {
            Some(hl) => hl.main,
            None => ' ',
        },
    }
}

/// The character of vertical boundary `cb` on a content line of row
/// `r`: a cell override wins over the style; a space where only other
/// rows supply the boundary.
pub open spec fn vchar_at(cfg: GridConfig, r: int, cb: int) -> char {
    match cfg.vert_override_at(r, cb) {
        Some(ch) => ch,
        None => match cfg.style_vchar(cb) {
            Some(ch) => ch,
            None => ' ',
        },
    }
}

/// The corner override at the intersection of boundaries (b, cb), if
/// any: of the up to four touching cells, the cell below and to the
/// right wins, then below-left, then above-right, then above-left.
pub open spec fn corner_override_at(cfg: GridConfig, b: int, cb: int) -> Option<char> {
    let c1 = if b < cfg.rows && cb < cfg.cols {
        match cfg.border_at(b, cb) {
            Some(br) => br.left_top_corner,
            None => None,
        }
    } else {
        None
    };
    let c2 = if b < cfg.rows && cb > 0 {
        match cfg.border_at(b, cb - 1) {
            Some(br) => br.right_top_corner,
            None => None,
        }
    } else {
        None
    };
    let c3 = if b > 0 && cb < cfg.cols {
        match cfg.border_at(b - 1, cb) {
            Some(br) => br.left_bottom_corner,
            None => None,
        }
    } else {
        None
    };
    let c4 = if b > 0 && cb > 0 {
        match cfg.border_at(b - 1, cb - 1) {
            Some(br) => br.right_bottom_corner,
            None => None,
        }
    } else {
        None
    };
    if c1 is Some {
        c1
    } else if c2 is Some {
        c2
    } else if c3 is Some {
        c3
    } else {
        c4
    }
}

/// Whether the intersection at (b, cb) is normalized to a plain
/// horizontal: the mode is on and the vertical is absent on both
/// sides, because a span swallowed it (or the table ends there).
pub open spec fn normalized_plain(cfg: GridConfig, b: int, cb: int) -> bool {
    &&& cfg.correct_spans
    &&& (b == 0 || cfg.absorbed(b - 1, cb))
    &&& (b == cfg.rows || cfg.absorbed(b, cb))
}

/// The character at the intersection of horizontal boundary `b` and
/// vertical boundary `cb`: a corner override wins; else the style's
/// line supplies its end, crossing or (under normalization) main
/// character; a space where no line is styled here.
pub open spec fn isec_char(cfg: GridConfig, b: int, cb: int) -> char {
    match corner_override_at(cfg, b, cb) {
        Some(ch) => ch,
        None => match cfg.hline_style_at(b) {
            Some(hl) => if normalized_plain(cfg, b, cb) {
                hl.main
            } else if cb == 0 {
                hl.left
            } else if cb == cfg.cols {
                hl.right
            } else {
                hl.intersection
            },
            None => ' ',
        },
    }
}

/// The intersection slot at vertical boundary `cb` of border line `b`:
/// one character where the boundary exists, nothing where it does not.
pub open spec fn isec_slot(cfg: GridConfig, b: int, cb: int) -> Seq<char> {
    if cfg.vert_exists(cb) {
        seq![isec_char(cfg, b, cb)]
    } else {
        Seq::empty()
    }
}

/// The vertical slot at boundary `cb` of a content line of row `r`.
pub open spec fn vert_slot(cfg: GridConfig, r: int, cb: int) -> Seq<char> {
    if cfg.vert_exists(cb) {
        seq![vchar_at(cfg, r, cb)]
    } else {
        Seq::empty()
    }
}

/// The border line at boundary `b`, built over the columns `[0, c)`:
/// for each column its left intersection slot and its segment.
pub open spec fn border_line_upto(cfg: GridConfig, w: Seq<int>, b: int, c: int) -> Seq<char>
    decreases c,
{
    if c <= 0 {
        Seq::empty()
    } else {
        border_line_upto(cfg, w, b, c - 1) + isec_slot(cfg, b, c - 1) + char_rep(
            hseg_char(cfg, b, c - 1),
            w[c - 1],
        )
    }
}

/// The whole border line at boundary `b`.
pub open spec fn spec_border_line(cfg: GridConfig, w: Seq<int>, b: int) -> Seq<char> {
    border_line_upto(cfg, w, b, cfg.cols as int) + isec_slot(cfg, b, cfg.cols as int)
}

/// One line of one cell's box, rendered into a box `mw` characters
/// wide: the content line carries the text, padded per alignment;
/// vertical-padding lines carry the fill character; slack lines left
/// by vertical alignment carry spaces. Content that does not fit its
/// box (under an explicit narrowing) is truncated, never wrapped.
pub open spec fn aligned_line(
    f: crate::config::CellFormat,
    text: Seq<char>,
    mw: int,
) -> Seq<char> {
    let padl = f.padding.left as int;
    let padr = f.padding.right as int;
    if padl + padr + text.len() <= mw {
        let area = mw - padl - padr;
        let extra = area - text.len();
        let lft = match f.halign {
            crate::config::HAlign::Left => 0int,
            crate::config::HAlign::Center => extra / 2,
            crate::config::HAlign::Right => extra,
        };
        char_rep(f.padding.fill, padl) + char_rep(' ', lft) + text + char_rep(' ', extra - lft)
            + char_rep(f.padding.fill, padr)
    } else {
        let p1 = if padl <= mw {
            padl
        } else {
            mw
        };
        let t1 = if text.len() <= mw - p1 {
            text.len() as int
        } else {
            mw - p1
        };
        let p2 = mw - p1 - t1;
        char_rep(f.padding.fill, p1) + text.take(t1) + char_rep(f.padding.fill, p2)
    }
}

/// Line `ln` (of `hr`) of the cell at (r, c), rendered `mw` wide.
pub open spec fn cell_line(
    cfg: GridConfig,
    rec: Records,
    r: int,
    c: int,
    mw: int,
    hr: int,
    ln: int,
) -> Seq<char> {
    let f = cfg.format_at(r, c);
    let padt = f.padding.top as int;
    let padb = f.padding.bottom as int;
    let slack = hr - padt - padb - 1;
    let avail = if slack < 0 {
        0int
    } else {
        slack
    };
    let off = match f.valign {
        crate::config::VAlign::Top => 0int,
        crate::config::VAlign::Center => avail / 2,
        crate::config::VAlign::Bottom => avail,
    };
    if ln == padt + off {
        aligned_line(f, rec.cell(r, c), mw)
    } else if ln < padt || ln >= hr - padb {
        char_rep(f.padding.fill, mw)
    } else {
        char_rep(' ', mw)
    }
}

/// The content line of row `r` from column `c` rightwards: each
/// reachable cell rendered over its merged box, followed by the
/// vertical slot at its right edge. Boundaries strictly inside a span
/// get no slot; the span's box covers them.
pub open spec fn content_line_from(
    cfg: GridConfig,
    rec: Records,
    w: Seq<int>,
    r: int,
    hr: int,
    ln: int,
    c: int,
) -> Seq<char>
    decreases cfg.cols - c,
{
    if c < 0 || c >= cfg.cols {
        Seq::empty()
    } else {
        let s0 = cfg.span_at(r, c);
        let s1 = if s0 < 1 {
            1int
        } else {
            s0
        };
        let s = if c + s1 > cfg.cols {
            cfg.cols - c
        } else {
            s1
        };
        let mw = span_avail(cfg, w, c, s);
        cell_line(cfg, rec, r, c, mw, hr, ln) + vert_slot(cfg, r, c + s) + content_line_from(
            cfg,
            rec,
            w,
            r,
            hr,
            ln,
            c + s,
        )
    }
}

/// One whole content line of row `r`.
pub open spec fn spec_content_line(
    cfg: GridConfig,
    rec: Records,
    w: Seq<int>,
    r: int,
    hr: int,
    ln: int,
) -> Seq<char> {
    vert_slot(cfg, r, 0) + content_line_from(cfg, rec, w, r, hr, ln, 0)
}

/// The `hr` content lines of row `r`.
pub open spec fn spec_row_lines(
    cfg: GridConfig,
    rec: Records,
    w: Seq<int>,
    r: int,
    hr: int,
) -> Seq<Seq<char>> {
    Seq::new(
        if hr < 0 {
            0nat
        } else {
            hr as nat
        },
        |ln: int| spec_content_line(cfg, rec, w, r, hr, ln),
    )
}

/// The border line at boundary `b` as a (possibly empty) block of
/// lines: one line where the boundary exists, none where it does not.
pub open spec fn hline_block(cfg: GridConfig, w: Seq<int>, b: int) -> Seq<Seq<char>> {
    if cfg.hline_exists(b) {
        seq![spec_border_line(cfg, w, b)]
    } else {
        Seq::empty()
    }
}

/// All lines of the rows `[0, r)`, each preceded by its border line.
pub open spec fn lines_upto(
    cfg: GridConfig,
    rec: Records,
    w: Seq<int>,
    h: Seq<int>,
    r: int,
) -> Seq<Seq<char>>
    decreases r,
{
    if r <= 0 {
        Seq::empty()
    } else {
        lines_upto(cfg, rec, w, h, r - 1) + hline_block(cfg, w, r - 1) + spec_row_lines(
            cfg,
            rec,
            w,
            r - 1,
            h[r - 1],
        )
    }
}

/// Every line of the rendered grid, top to bottom.
pub open spec fn spec_lines(cfg: GridConfig, rec: Records) -> Seq<Seq<char>> {
    let w = spec_widths(cfg, rec);
    let h = spec_heights(cfg);
    lines_upto(cfg, rec, w, h, cfg.rows as int) + hline_block(cfg, w, cfg.rows as int)
}

/// Lines joined by `\n`, with no trailing newline.
pub open spec fn join_lines(ls: Seq<Seq<char>>) -> Seq<char>
    decreases ls.len(),
{
    if ls.len() == 0 {
        Seq::empty()
    } else if ls.len() == 1 {
        ls[0]
    } else {
        join_lines(ls.drop_last()) + seq!['\n'] + ls.last()
    }
}

/// The full rendering of the grid, as one sequence of characters.
pub open spec fn spec_render(cfg: GridConfig, rec: Records) -> Seq<char> {
    join_lines(spec_lines(cfg, rec))
}

/// Joining one more line appends a newline first, except to nothing.
pub proof fn lemma_join_push(ls: Seq<Seq<char>>, l: Seq<char>)
    ensures
        join_lines(ls.push(l)) == if ls.len() == 0 {
            l
        } else {
            join_lines(ls) + seq!['\n'] + l
        },
{
    if ls.len() == 0 {
        assert(ls.push(l)[0] == l);
    } else {
        assert(ls.push(l).drop_last() =~= ls);
        assert(ls.push(l).last() == l);
    }
}

/// Relies on `String`'s `FromIterator` implementation for `char`:
/// collecting characters yields the string of exactly those
/// characters, in order.
#[verifier::external_body]
pub(crate) fn chars_to_string(v: &Vec<char>) -> (s: String)
    ensures
        s@ == v@,
{
    v.iter().collect()
}

/// Appends `n` copies of one character.
fn push_repeat(out: &mut Vec<char>, ch: char, n: usize)
    ensures
        final(out)@ == old(out)@ + char_rep(ch, n as int),
{
    let mut i: usize = 0;
    while i < n
        invariant
            i <= n,
            out@ == old(out)@ + char_rep(ch, i as int),
        decreases n - i,
    {
        out.push(ch);
        proof {
            assert(out@ =~= old(out)@ + char_rep(ch, i as int + 1));
        }
        i += 1;
    }
}

/// Appends the characters of `s` with index in `[from, to)`.
fn push_text(out: &mut Vec<char>, s: &str, from: usize, to: usize)
    requires
        from <= to <= s@.len(),
    ensures
        final(out)@ == old(out)@ + s@.subrange(from as int, to as int),
{
    let mut i: usize = from;
    while i < to
        invariant
            from <= i <= to <= s@.len(),
            out@ == old(out)@ + s@.subrange(from as int, i as int),
        decreases to - i,
    {
        let ch = s.get_char(i);
        out.push(ch);
        proof {
            assert(out@ =~= old(out)@ + s@.subrange(from as int, i as int + 1));
        }
        i += 1;
    }
}

/// The character of the horizontal segment of boundary `b` over
/// column `c`.
fn hseg_char_of(cfg: &GridConfig, b: usize, c: usize) -> (ch: char)
    requires
        cfg.wf(),
        b <= cfg.rows,
        c < cfg.cols,
    ensures
        ch == hseg_char(*cfg, b as int, c as int),
{
    match cfg.horiz_override_char(b, c) {
        Some(ch) => ch,
        None => match cfg.hline_style_of(b) {
            Some(hl) => hl.main,
            None => ' ',
        },
    }
}

/// The character of vertical boundary `cb` on a content line of row
/// `r`.
fn vchar_of(cfg: &GridConfig, r: usize, cb: usize) -> (ch: char)
    requires
        cfg.wf(),
        r < cfg.rows,
        cb <= cfg.cols,
    ensures
        ch == vchar_at(*cfg, r as int, cb as int),
{
    match cfg.vert_override_char(r, cb) {
        Some(ch) => ch,
        None => {
            let sv: Option<char> = if cb == 0 {
                cfg.style.left
            } else if cb == cfg.cols {
                cfg.style.right
            } else {
                cfg.style.vertical
            };
            match sv {
                Some(ch) => ch,
                None => ' ',
            }
        },
    }
}

/// The character at the intersection of boundaries (b, cb).
fn isec_char_of(cfg: &GridConfig, b: usize, cb: usize) -> (ch: char)
    requires
        cfg.wf(),
        b <= cfg.rows,
        cb <= cfg.cols,
    ensures
        ch == isec_char(*cfg, b as int, cb as int),
{
    let c1: Option<char> = if b < cfg.rows && cb < cfg.cols {
        match cfg.border_of(b, cb) {
            Some(br) => br.left_top_corner,
            None => None,
        }
    } else {
        None
    };
    let c2: Option<char> = if b < cfg.rows && cb > 0 {
        match cfg.border_of(b, cb - 1) {
            Some(br) => br.right_top_corner,
            None => None,
        }
    } else {
        None
    };
    let c3: Option<char> = if b > 0 && cb < cfg.cols {
        match cfg.border_of(b - 1, cb) {
            Some(br) => br.left_bottom_corner,
            None => None,
        }
    } else {
        None
    };
    let c4: Option<char> = if b > 0 && cb > 0 {
        match cfg.border_of(b - 1, cb - 1) {
            Some(br) => br.right_bottom_corner,
            None => None,
        }
    } else {
        None
    };
    let corner: Option<char> = if c1.is_some() {
        c1
    } else if c2.is_some() {
        c2
    } else if c3.is_some() {
        c3
    } else {
        c4
    };
    match corner {
        Some(ch) => ch,
        None => match cfg.hline_style_of(b) {
            Some(hl) => {
                let above_gone = b == 0 || cfg.is_absorbed(b - 1, cb);
                let below_gone = b == cfg.rows || cfg.is_absorbed(b, cb);
                if cfg.correct_spans && above_gone && below_gone {
                    hl.main
                } else if cb == 0 {
                    hl.left
                } else if cb == cfg.cols {
                    hl.right
                } else {
                    hl.intersection
                }
            },
            None => ' ',
        },
    }
}

/// Builds the border line at boundary `b`.
fn build_border_line(cfg: &GridConfig, w: &Vec<usize>, b: usize) -> (line: Vec<char>)
    requires
        cfg.wf(),
        w@.len() == cfg.cols,
        b <= cfg.rows,
    ensures
        line@ == spec_border_line(*cfg, to_ints(w@), b as int),
{
    let ghost wi = to_ints(w@);
    let mut line: Vec<char> = Vec::new();
    let mut c: usize = 0;
    while c < cfg.cols
        invariant
            cfg.wf(),
            w@.len() == cfg.cols,
            b <= cfg.rows,
            c <= cfg.cols,
            wi == to_ints(w@),
            line@ == border_line_upto(*cfg, wi, b as int, c as int),
        decreases cfg.cols - c,
    {
        if cfg.vert_line_exists(c) {
            let ch = isec_char_of(cfg, b, c);
            line.push(ch);
        }
        let seg = hseg_char_of(cfg, b, c);
        push_repeat(&mut line, seg, w[c]);
        proof {
            assert(line@ =~= border_line_upto(*cfg, wi, b as int, c as int + 1));
        }
        c += 1;
    }
    if cfg.vert_line_exists(cfg.cols) {
        let ch = isec_char_of(cfg, b, cfg.cols);
        line.push(ch);
    }
    proof {
        assert(line@ =~= spec_border_line(*cfg, wi, b as int));
    }
    line
}

/// Appends line `ln` of the cell at (r, c), rendered `mw` wide.
#[verifier::rlimit(100)]
#[verifier::spinoff_prover]
fn push_cell_line(
    out: &mut Vec<char>,
    cfg: &GridConfig,
    rec: &Records,
    r: usize,
    c: usize,
    mw: usize,
    hr: usize,
    ln: usize,
)
    requires
        cfg.wf(),
        rec.wf(),
        cfg.rows == rec.spec_rows(),
        cfg.cols == rec.cols,
        r < cfg.rows,
        c < cfg.cols,
    ensures
        final(out)@ == old(out)@ + cell_line(
            *cfg,
            *rec,
            r as int,
            c as int,
            mw as int,
            hr as int,
            ln as int,
        ),
{
    let f = cfg.format_of(r, c);
    let padt = f.padding.top;
    let padb = f.padding.bottom;
    let avail: usize = if hr >= 1 && padt <= hr - 1 && padb <= hr - 1 - padt {
        hr - 1 - padt - padb
    } else {
        0
    };
    let off: usize = match f.valign {
        crate::config::VAlign::Top => 0,
        crate::config::VAlign::Center => avail / 2,
        crate::config::VAlign::Bottom => avail,
    };
    proof {
        assert(off <= avail);
    }
    let is_content = ln >= padt && ln - padt == off;
    if is_content {
        let text = rec.get(r, c);
        let len = text.as_str().unicode_len();
        let padl = f.padding.left;
        let padr = f.padding.right;
        if padl <= mw && padr <= mw - padl && len <= mw - padl - padr {
            let area = mw - padl - padr;
            let extra = area - len;
            let lft: usize = match f.halign {
                crate::config::HAlign::Left => 0,
                crate::config::HAlign::Center => extra / 2,
                crate::config::HAlign::Right => extra,
            };
            proof {
                assert(lft <= extra);
            }
            push_repeat(out, f.padding.fill, padl);
            push_repeat(out, ' ', lft);
            push_text(out, text.as_str(), 0, len);
            push_repeat(out, ' ', extra - lft);
            push_repeat(out, f.padding.fill, padr);
            proof {
                assert(text@.subrange(0, len as int) =~= rec.cell(r as int, c as int));
            }
        } else {
            let p1: usize = if padl <= mw {
                padl
            } else {
                mw
            };
            let t1: usize = if len <= mw - p1 {
                len
            } else {
                mw - p1
            };
            let p2: usize = mw - p1 - t1;
            push_repeat(out, f.padding.fill, p1);
            push_text(out, text.as_str(), 0, t1);
            push_repeat(out, f.padding.fill, p2);
            proof {
                assert(text@.subrange(0, t1 as int) =~= rec.cell(r as int, c as int).take(
                    t1 as int,
                ));
            }
        }
    } else if ln < padt || padb > hr || ln > hr - padb || ln == hr - padb {
        push_repeat(out, f.padding.fill, mw);
    } else {
        push_repeat(out, ' ', mw);
    }
}

/// Builds content line `ln` of row `r` of height `hr`.
fn build_content_line(
    cfg: &GridConfig,
    rec: &Records,
    w: &Vec<usize>,
    r: usize,
    hr: usize,
    ln: usize,
) -> (line: Vec<char>)
    requires
        cfg.wf(),
        rec.wf(),
        cfg.rows == rec.spec_rows(),
        cfg.cols == rec.cols,
        r < cfg.rows,
        to_ints(w@) == spec_widths(*cfg, *rec),
        w@.len() == cfg.cols,
        total_width(*cfg, *rec) <= usize::MAX,
    ensures
        line@ == spec_content_line(*cfg, *rec, to_ints(w@), r as int, hr as int, ln as int),
{
    let ghost wi = to_ints(w@);
    let mut line: Vec<char> = Vec::new();
    if cfg.vert_line_exists(0) {
        let ch = vchar_of(cfg, r, 0);
        line.push(ch);
    }
    proof {
        assert(line@ =~= vert_slot(*cfg, r as int, 0));
    }
    let mut c: usize = 0;
    while c < cfg.cols
        invariant
            cfg.wf(),
            rec.wf(),
            cfg.rows == rec.spec_rows(),
            cfg.cols == rec.cols,
            r < cfg.rows,
            wi == to_ints(w@),
            wi == spec_widths(*cfg, *rec),
            w@.len() == cfg.cols,
            total_width(*cfg, *rec) <= usize::MAX,
            c <= cfg.cols,
            line@ + content_line_from(*cfg, *rec, wi, r as int, hr as int, ln as int, c as int)
                == spec_content_line(*cfg, *rec, wi, r as int, hr as int, ln as int),
        decreases cfg.cols - c,
    {
        let s = cfg.span_size(r, c);
        proof {
            lemma_avail_le_total(*cfg, *rec, c as int, s as int);
        }
        let mw = span_area(cfg, w, c, s);
        push_cell_line(&mut line, cfg, rec, r, c, mw, hr, ln);
        let cnext = c + s;
        if cfg.vert_line_exists(cnext) {
            let ch = vchar_of(cfg, r, cnext);
            line.push(ch);
        }
        proof {
            assert(content_line_from(*cfg, *rec, wi, r as int, hr as int, ln as int, c as int)
                == cell_line(
                *cfg,
                *rec,
                r as int,
                c as int,
                span_avail(*cfg, wi, c as int, s as int),
                hr as int,
                ln as int,
            ) + vert_slot(*cfg, r as int, c as int + s as int) + content_line_from(
                *cfg,
                *rec,
                wi,
                r as int,
                hr as int,
                ln as int,
                c as int + s as int,
            ));
        }
        c = cnext;
    }
    line
}

/// Appends one rendered line to the output block, after a newline
/// where a line stands already.
pub(crate) fn append_line(out: &mut Vec<char>, line: &Vec<char>, any: bool)
    ensures
        final(out)@ == (if any {
            old(out)@ + seq!['\n'] + line@
        } else {
            old(out)@ + line@
        }),
{
    if any {
        out.push('\n');
    }
    let mut i: usize = 0;
    while i < line.len()
        invariant
            i <= line@.len(),
            out@ == (if any {
                old(out)@ + seq!['\n'] + line@.subrange(0, i as int)
            } else {
                old(out)@ + line@.subrange(0, i as int)
            }),
        decreases line@.len() - i,
    {
        out.push(line[i]);
        proof {
            assert(line@.subrange(0, i as int + 1) =~= line@.subrange(0, i as int).push(
                line@[i as int],
            ));
        }
        i += 1;
    }
    proof {
        assert(line@.subrange(0, line@.len() as int) =~= line@);
    }
}

/// Renders the grid: the bordered table as `\n`-joined lines with no
/// trailing newline. Succeeds exactly when the records match the
/// configured shape and the resolved dimensions fit the machine word;
/// it never fails otherwise, and the output is fully determined by the
/// configuration and the records.
#[verifier::rlimit(40)]
pub fn render_grid(cfg: &GridConfig, rec: &Records) -> (res: Result<String, GridError>)
    requires
        cfg.wf(),
        rec.wf(),
    ensures
        res is Ok <==> (cfg.rows == rec.spec_rows() && cfg.cols == rec.cols && dims_fit(
            *cfg,
            *rec,
        )),
        (res matches Ok(s) ==> s@ == spec_render(*cfg, *rec)),
        (res matches Err(e) ==> e == (if cfg.rows == rec.spec_rows() && cfg.cols == rec.cols {
            GridError::TooLarge
        } else {
            GridError::InconsistentGeometry
        })),
{
    if rec.count_rows() != cfg.rows || rec.count_columns() != cfg.cols {
        return Err(GridError::InconsistentGeometry);
    }
    let (w, h) = match estimate(cfg, rec) {
        Ok(p) => p,
        Err(e) => {
            return Err(e);
        },
    };
    let ghost wi = to_ints(w@);
    let ghost hi = to_ints(h@);
    proof {
        crate::dims::lemma_width_bounds(*cfg, *rec);
        assert(w@.len() == wi.len());
        assert(h@.len() == hi.len());
        assert(hi.len() == cfg.rows);
    }
    let mut out: Vec<char> = Vec::new();
    let mut any = false;
    let ghost mut built: Seq<Seq<char>> = Seq::empty();
    let mut r: usize = 0;
    while r < cfg.rows
        invariant
            cfg.wf(),
            rec.wf(),
            cfg.rows == rec.spec_rows(),
            cfg.cols == rec.cols,
            dims_fit(*cfg, *rec),
            r <= cfg.rows,
            wi == to_ints(w@),
            hi == to_ints(h@),
            wi == spec_widths(*cfg, *rec),
            hi == spec_heights(*cfg),
            w@.len() == cfg.cols,
            h@.len() == cfg.rows,
            built == lines_upto(*cfg, *rec, wi, hi, r as int),
            any == (built.len() > 0),
            out@ == join_lines(built),
        decreases cfg.rows - r,
    {
        if cfg.horiz_line_exists(r) {
            let line = build_border_line(cfg, &w, r);
            proof {
                lemma_join_push(built, line@);
            }
            append_line(&mut out, &line, any);
            any = true;
            proof {
                built = built.push(line@);
            }
        }
        let ghost after_border = built;
        let hr = h[r];
        proof {
            assert(hi[r as int] == hr as int);
            crate::dims::lemma_row_h_pos(*cfg, r as int, cfg.cols as int);
            assert(after_border == lines_upto(*cfg, *rec, wi, hi, r as int) + hline_block(
                *cfg,
                wi,
                r as int,
            ));
        }
        let mut ln: usize = 0;
        while ln < hr
            invariant
                cfg.wf(),
                rec.wf(),
                cfg.rows == rec.spec_rows(),
                cfg.cols == rec.cols,
                dims_fit(*cfg, *rec),
                r < cfg.rows,
                ln <= hr,
                wi == to_ints(w@),
                wi == spec_widths(*cfg, *rec),
                w@.len() == cfg.cols,
                built == after_border + spec_row_lines(*cfg, *rec, wi, r as int, hr as int).take(
                    ln as int,
                ),
                any == (built.len() > 0),
                out@ == join_lines(built),
            decreases hr - ln,
        {
            let line = build_content_line(cfg, rec, &w, r, hr, ln);
            proof {
                lemma_join_push(built, line@);
                assert(spec_row_lines(*cfg, *rec, wi, r as int, hr as int).take(ln as int + 1)
                    =~= spec_row_lines(*cfg, *rec, wi, r as int, hr as int).take(ln as int).push(
                    line@,
                ));
            }
            append_line(&mut out, &line, any);
            any = true;
            proof {
                built = built.push(line@);
            }
            ln += 1;
        }
        proof {
            assert(spec_row_lines(*cfg, *rec, wi, r as int, hr as int).take(hr as int)
                =~= spec_row_lines(*cfg, *rec, wi, r as int, hr as int));
            assert(built =~= lines_upto(*cfg, *rec, wi, hi, r as int + 1));
        }
        r += 1;
    }
    if cfg.horiz_line_exists(cfg.rows) {
        let line = build_border_line(cfg, &w, cfg.rows);
        proof {
            lemma_join_push(built, line@);
        }
        append_line(&mut out, &line, any);
        proof {
            built = built.push(line@);
        }
    }
    proof {
        assert(built =~= spec_lines(*cfg, *rec));
    }
    let s = chars_to_string(&out);
    Ok(s)
}

/// The number of existing horizontal border lines with boundary index
/// in `[a, b)`.
pub open spec fn hcount(cfg: GridConfig, a: int, b: int) -> int
    decreases b - a,
{
    if a >= b {
        0
    } else {
        (if cfg.hline_exists(a) {
            1int
        } else {
            0int
        }) + hcount(cfg, a + 1, b)
    }
}

/// One cell box line is exactly as long as the box is wide.
pub proof fn lemma_cell_line_len(
    cfg: GridConfig,
    rec: Records,
    r: int,
    c: int,
    mw: int,
    hr: int,
    ln: int,
)
    requires
        mw >= 0,
    ensures
        cell_line(cfg, rec, r, c, mw, hr, ln).len() == mw,
{
    let f = cfg.format_at(r, c);
    let text = rec.cell(r, c);
    let padl = f.padding.left as int;
    let padr = f.padding.right as int;
    if padl + padr + text.len() <= mw {
        let area = mw - padl - padr;
        let extra = area - text.len();
        assert(0 <= extra / 2 <= extra);
    }
}

/// A border line is as long as all column widths plus all existing
/// boundaries it walks.
pub proof fn lemma_border_line_upto_len(cfg: GridConfig, w: Seq<int>, b: int, c: int)
    requires
        forall|i: int| 0 <= i < c ==> #[trigger] w[i] >= 0,
    ensures
        border_line_upto(cfg, w, b, c).len() == range_sum(w, 0, c) + vcount(cfg, 0, c),
    decreases c,
{
    if c > 0 {
        lemma_border_line_upto_len(cfg, w, b, c - 1);
        crate::dims::lemma_range_sum_snoc(w, 0, c - 1);
        lemma_vcount_snoc(cfg, 0, c - 1);
    }
}

/// The whole border line at any boundary has the grid's total width.
pub proof fn lemma_border_line_len(cfg: GridConfig, rec: Records, b: int)
    requires
        cfg.wf(),
    ensures
        spec_border_line(cfg, spec_widths(cfg, rec), b).len() == total_width(cfg, rec),
{
    let w = spec_widths(cfg, rec);
    lemma_width_bounds(cfg, rec);
    lemma_border_line_upto_len(cfg, w, b, cfg.cols as int);
    lemma_vcount_snoc(cfg, 0, cfg.cols as int);
}

/// The content line from column `c` covers the widths of the columns
/// from `c` on and every existing boundary to the right of `c`.
pub proof fn lemma_content_line_from_len(
    cfg: GridConfig,
    rec: Records,
    w: Seq<int>,
    r: int,
    hr: int,
    ln: int,
    c: int,
)
    requires
        cfg.wf(),
        0 <= r < cfg.rows,
        w.len() == cfg.cols,
        forall|i: int| 0 <= i < w.len() ==> #[trigger] w[i] >= 0,
        0 <= c <= cfg.cols,
    ensures
        content_line_from(cfg, rec, w, r, hr, ln, c).len() == range_sum(w, c, cfg.cols as int)
            + vcount(cfg, c + 1, cfg.cols as int + 1),
    decreases cfg.cols - c,
{
    let cols = cfg.cols as int;
    if c < cols {
        assert(cfg.span_ok(r, c));
        let s = cfg.span_at(r, c);
        let mw = span_avail(cfg, w, c, s);
        lemma_range_sum_nonneg(w, c, c + s);
        lemma_vcount_nonneg(cfg, c + 1, c + s);
        lemma_cell_line_len(cfg, rec, r, c, mw, hr, ln);
        lemma_content_line_from_len(cfg, rec, w, r, hr, ln, c + s);
        lemma_range_sum_split(w, c, c + s, cols);
        lemma_vcount_split(cfg, c + 1, c + s, cols + 1);
        lemma_vcount_split(cfg, c + s, c + s + 1, cols + 1);
        assert(vcount(cfg, c + s, c + s + 1) == (if cfg.vert_exists(c + s) {
            1int
        } else {
            0int
        }) + vcount(cfg, c + s + 1, c + s + 1));
    }
}

/// Every content line of a row has the grid's total width.
pub proof fn lemma_content_line_len(cfg: GridConfig, rec: Records, r: int, hr: int, ln: int)
    requires
        cfg.wf(),
        0 <= r < cfg.rows,
    ensures
        spec_content_line(cfg, rec, spec_widths(cfg, rec), r, hr, ln).len() == total_width(
            cfg,
            rec,
        ),
{
    let w = spec_widths(cfg, rec);
    lemma_width_bounds(cfg, rec);
    lemma_content_line_from_len(cfg, rec, w, r, hr, ln, 0);
    assert(vcount(cfg, 0, cfg.cols as int + 1) == (if cfg.vert_exists(0) {
        1int
    } else {
        0int
    }) + vcount(cfg, 1, cfg.cols as int + 1));
}

/// Every line of the rows `[0, r)` has the grid's total width, and
/// there are as many lines as the rows' heights plus their border
/// lines.
pub proof fn lemma_lines_upto_shape(cfg: GridConfig, rec: Records, r: int)
    requires
        cfg.wf(),
        0 <= r <= cfg.rows,
    ensures
        lines_upto(cfg, rec, spec_widths(cfg, rec), spec_heights(cfg), r).len() == hcount(
            cfg,
            0,
            r,
        ) + range_sum(spec_heights(cfg), 0, r),
        forall|i: int|
            0 <= i < lines_upto(cfg, rec, spec_widths(cfg, rec), spec_heights(cfg), r).len()
                ==> (#[trigger] lines_upto(
                cfg,
                rec,
                spec_widths(cfg, rec),
                spec_heights(cfg),
                r,
            )[i]).len() == total_width(cfg, rec),
    decreases r,
{
    let w = spec_widths(cfg, rec);
    let h = spec_heights(cfg);
    if r > 0 {
        lemma_lines_upto_shape(cfg, rec, r - 1);
        assert(spec_height(cfg, r - 1) >= 0) by {
            lemma_row_h_pos(cfg, r - 1, cfg.cols as int);
        }
        crate::dims::lemma_range_sum_snoc(h, 0, r - 1);
        assert(hcount(cfg, 0, r) == hcount(cfg, 0, r - 1) + (if cfg.hline_exists(r - 1) {
            1int
        } else {
            0int
        })) by {
            lemma_hcount_snoc(cfg, 0, r - 1);
        }
        if cfg.hline_exists(r - 1) {
            lemma_border_line_len(cfg, rec, r - 1);
        }
        let hr = h[r - 1];
        assert(hr == spec_height(cfg, r - 1));
        assert forall|ln: int| 0 <= ln < hr implies #[trigger] spec_row_lines(
            cfg,
            rec,
            w,
            r - 1,
            hr,
        )[ln].len() == total_width(cfg, rec) by {
            lemma_content_line_len(cfg, rec, r - 1, hr, ln);
        }
    }
}

/// Extending a border-line count by one boundary on the right.
pub proof fn lemma_hcount_snoc(cfg: GridConfig, a: int, b: int)
    requires
        a <= b,
    ensures
        hcount(cfg, a, b + 1) == hcount(cfg, a, b) + (if cfg.hline_exists(b) {
            1int
        } else {
            0int
        }),
    decreases b - a,
{
    assert(hcount(cfg, b, b + 1) == (if cfg.hline_exists(b) {
        1int
    } else {
        0int
    }) + hcount(cfg, b + 1, b + 1));
    if a < b {
        lemma_hcount_snoc(cfg, a + 1, b);
    }
}

/// Law: every rendered line has the same width, the grid's total
/// width — the sum of the resolved column widths plus one character
/// for each existing vertical boundary.
pub proof fn lemma_lines_equal_width(cfg: GridConfig, rec: Records)
    requires
        cfg.wf(),
    ensures
        forall|i: int|
            0 <= i < spec_lines(cfg, rec).len() ==> #[trigger] spec_lines(cfg, rec)[i].len()
                == total_width(cfg, rec),
        spec_lines(cfg, rec).len() == hcount(cfg, 0, cfg.rows as int + 1) + range_sum(
            spec_heights(cfg),
            0,
            cfg.rows as int,
        ),
{
    lemma_lines_upto_shape(cfg, rec, cfg.rows as int);
    lemma_hcount_snoc(cfg, 0, cfg.rows as int);
    if cfg.hline_exists(cfg.rows as int) {
        lemma_border_line_len(cfg, rec, cfg.rows as int);
    }
}

/// The span adjustment changes nothing when no cell registers a span.
pub proof fn lemma_adjust_noop(cfg: GridConfig, rec: Records, w0: Seq<int>, r: int, c: int)
    requires
        cfg.wf(),
        forall|r2: int, c2: int| cfg.in_bounds(r2, c2) ==> #[trigger] cfg.span_at(r2, c2) == 1,
        0 <= r <= cfg.rows,
        0 <= c <= cfg.cols,
        r == cfg.rows ==> c == 0,
    ensures
        adjust_upto(cfg, rec, w0, r, c) == w0,
    decreases r, c,
{
    if c > 0 {
        lemma_adjust_noop(cfg, rec, w0, r, c - 1);
        assert(cfg.span_at(r, c - 1) == 1);
    } else if r > 0 {
        lemma_adjust_noop(cfg, rec, w0, r - 1, cfg.cols as int);
    }
}

/// All boundaries of a style that draws every line are counted.
pub proof fn lemma_vcount_full(cfg: GridConfig, a: int, b: int)
    requires
        cfg.style.draws_all_lines(),
        0 <= a,
        b <= cfg.cols + 1,
    ensures
        a <= b ==> vcount(cfg, a, b) == b - a,
    decreases b - a,
{
    if a < b {
        assert(cfg.style_vchar(a) is Some);
        lemma_vcount_full(cfg, a + 1, b);
    }
}

/// All border lines of a style that draws every line are counted.
pub proof fn lemma_hcount_full(cfg: GridConfig, a: int, b: int)
    requires
        cfg.style.draws_all_lines(),
        0 <= a,
        b <= cfg.rows + 1,
    ensures
        a <= b ==> hcount(cfg, a, b) == b - a,
    decreases b - a,
{
    if a < b {
        assert(cfg.hline_style_at(a) is Some);
        lemma_hcount_full(cfg, a + 1, b);
    }
}

/// Law: for a table with no spans, no explicit widths and a style
/// that draws every line, the rendering is exactly sum(column widths)
/// + (columns + 1) border characters wide, in every line, and exactly
/// sum(row heights) + (rows + 1) border lines tall.
pub proof fn lemma_full_grid_dimensions(cfg: GridConfig, rec: Records)
    requires
        cfg.wf(),
        cfg.style.draws_all_lines(),
        forall|r: int, c: int| cfg.in_bounds(r, c) ==> #[trigger] cfg.span_at(r, c) == 1,
        forall|c: int| 0 <= c < cfg.cols ==> #[trigger] cfg.width_override(c) is None,
        forall|r: int| 0 <= r < cfg.rows ==> #[trigger] cfg.height_override(r) is None,
    ensures
        total_width(cfg, rec) == range_sum(nat_widths(cfg, rec), 0, cfg.cols as int) + cfg.cols
            + 1,
        spec_lines(cfg, rec).len() == range_sum(spec_heights(cfg), 0, cfg.rows as int) + cfg.rows
            + 1,
        forall|i: int|
            0 <= i < spec_lines(cfg, rec).len() ==> #[trigger] spec_lines(cfg, rec)[i].len()
                == total_width(cfg, rec),
{
    lemma_adjust_noop(cfg, rec, nat_widths(cfg, rec), cfg.rows as int, 0);
    assert(spec_widths(cfg, rec) =~= nat_widths(cfg, rec));
    lemma_vcount_full(cfg, 0, cfg.cols as int + 1);
    lemma_hcount_full(cfg, 0, cfg.rows as int + 1);
    lemma_lines_equal_width(cfg, rec);
}


} // verus!
