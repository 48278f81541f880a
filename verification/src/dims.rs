//! The dimension estimator: resolves per-column widths and per-row
//! heights from cell contents, padding and spans, fresh before every
//! render.
//!
//! Cell content is one line of text; a cell's natural width is its
//! character count plus its horizontal padding, and its height is one
//! plus its vertical padding. A column is as wide as its widest plain
//! cell; a spanned cell then widens the rightmost column of its range
//! wherever the range (including the swallowed inner boundaries) is
//! narrower than the cell needs.

use vstd::prelude::*;
use crate::config::GridConfig;
use crate::records::{GridError, Records};

verus! {

/// A sequence of machine words as mathematical integers.
pub open spec fn to_ints(v: Seq<usize>) -> Seq<int> {
    v.map_values(|x: usize| x as int)
}

/// The sum of the entries of `w` with index in `[a, b)`.
pub open spec fn range_sum(w: Seq<int>, a: int, b: int) -> int
    decreases b - a,
{
    if a >= b {
        0
    } else {
        w[a] + range_sum(w, a + 1, b)
    }
}

/// The number of existing vertical boundaries with index in `[a, b)`.
pub open spec fn vcount(cfg: GridConfig, a: int, b: int) -> int
    decreases b - a,
{
    if a >= b {
        0
    } else {
        (if cfg.vert_exists(a) {
            1int
        } else {
            0int
        }) + vcount(cfg, a + 1, b)
    }
}

/// Splitting a sum at a midpoint.
pub proof fn lemma_range_sum_split(w: Seq<int>, a: int, m: int, b: int)
    requires
        a <= m <= b,
    ensures
        range_sum(w, a, b) == range_sum(w, a, m) + range_sum(w, m, b),
    decreases m - a,
{
    if a < m {
        lemma_range_sum_split(w, a + 1, m, b);
    }
}

/// A sum of entries that are each at least zero is at least zero.
pub proof fn lemma_range_sum_nonneg(w: Seq<int>, a: int, b: int)
    requires
        forall|i: int| a <= i < b ==> #[trigger] w[i] >= 0,
    ensures
        range_sum(w, a, b) >= 0,
    decreases b - a,
{
    if a < b {
        lemma_range_sum_nonneg(w, a + 1, b);
    }
}

/// One entry of a sum of entries at least zero is at most the sum.
pub proof fn lemma_elem_le_sum(w: Seq<int>, a: int, i: int, b: int)
    requires
        a <= i < b,
        forall|k: int| a <= k < b ==> #[trigger] w[k] >= 0,
    ensures
        w[i] <= range_sum(w, a, b),
{
    lemma_range_sum_split(w, a, i, b);
    lemma_range_sum_split(w, i, i + 1, b);
    lemma_range_sum_nonneg(w, a, i);
    lemma_range_sum_nonneg(w, i + 1, b);
    assert(range_sum(w, i, i + 1) == w[i] + range_sum(w, i + 1, i + 1));
}

/// Splitting a boundary count at a midpoint.
pub proof fn lemma_vcount_split(cfg: GridConfig, a: int, m: int, b: int)
    requires
        a <= m <= b,
    ensures
        vcount(cfg, a, b) == vcount(cfg, a, m) + vcount(cfg, m, b),
    decreases m - a,
{
    if a < m {
        lemma_vcount_split(cfg, a + 1, m, b);
    }
}

/// A boundary count is at least zero.
pub proof fn lemma_vcount_nonneg(cfg: GridConfig, a: int, b: int)
    ensures
        vcount(cfg, a, b) >= 0,
    decreases b - a,
{
    if a < b {
        lemma_vcount_nonneg(cfg, a + 1, b);
    }
}

/// The horizontal padding of one cell.
pub open spec fn pad_lr(cfg: GridConfig, r: int, c: int) -> int {
    cfg.format_at(r, c).padding.left + cfg.format_at(r, c).padding.right
}

/// The width one cell needs: its character count plus its horizontal
/// padding.
pub open spec fn cell_w(cfg: GridConfig, rec: Records, r: int, c: int) -> int {
    rec.cell(r, c).len() + pad_lr(cfg, r, c)
}

/// Whether the cell at (r, c) is a plain cell: neither a span origin
/// nor covered by a span.
pub open spec fn plain_cell(cfg: GridConfig, r: int, c: int) -> bool {
    cfg.span_at(r, c) == 1 && !cfg.absorbed(r, c)
}

/// The widest need among the plain cells of column `c` in rows
/// `[0, r)`; zero where there is none.
pub open spec fn nat_w_upto(cfg: GridConfig, rec: Records, c: int, r: int) -> int
    decreases r,
{
    if r <= 0 {
        0
    } else {
        let prev = nat_w_upto(cfg, rec, c, r - 1);
        let cur = if plain_cell(cfg, r - 1, c) {
            cell_w(cfg, rec, r - 1, c)
        } else {
            0
        };
        if cur > prev {
            cur
        } else {
            prev
        }
    }
}

/// The natural width of column `c`.
pub open spec fn nat_w(cfg: GridConfig, rec: Records, c: int) -> int {
    nat_w_upto(cfg, rec, c, cfg.rows as int)
}

/// The natural widths of all columns.
pub open spec fn nat_widths(cfg: GridConfig, rec: Records) -> Seq<int> {
    Seq::new(cfg.cols as nat, |c: int| nat_w(cfg, rec, c))
}

/// A natural width is at least zero.
pub proof fn lemma_nat_w_nonneg(cfg: GridConfig, rec: Records, c: int, r: int)
    ensures
        nat_w_upto(cfg, rec, c, r) >= 0,
    decreases r,
{
    if r > 0 {
        lemma_nat_w_nonneg(cfg, rec, c, r - 1);
    }
}

/// The space a span over columns `[c, c + s)` has: the widths of its
/// member columns plus the swallowed inner boundaries.
pub open spec fn span_avail(cfg: GridConfig, w: Seq<int>, c: int, s: int) -> int {
    range_sum(w, c, c + s) + vcount(cfg, c + 1, c + s)
}

/// One adjustment step of the width plan, for the cell at (r, c): a
/// span origin whose need exceeds the space of its range widens the
/// rightmost member column by the difference.
pub open spec fn adjust_step(cfg: GridConfig, rec: Records, w: Seq<int>, r: int, c: int) -> Seq<
    int,
> {
    let s = cfg.span_at(r, c);
    if s > 1 && 0 <= c && c + s <= w.len() {
        let need = cell_w(cfg, rec, r, c);
        let avail = span_avail(cfg, w, c, s);
        if need > avail {
            w.update(c + s - 1, w[c + s - 1] + (need - avail))
        } else {
            w
        }
    } else {
        w
    }
}

/// The width plan after the adjustment steps of all cells before
/// (r, c) in row-major order: the rows `[0, r)` whole, then the cells
/// `[0, c)` of row `r`.
pub open spec fn adjust_upto(cfg: GridConfig, rec: Records, w0: Seq<int>, r: int, c: int) -> Seq<
    int,
>
    decreases r, c,
{
    if c > 0 {
        adjust_step(cfg, rec, adjust_upto(cfg, rec, w0, r, c - 1), r, c - 1)
    } else if r > 0 {
        adjust_upto(cfg, rec, w0, r - 1, cfg.cols as int)
    } else {
        w0
    }
}

/// The computed width plan before explicit overrides: natural widths,
/// adjusted for every span in row-major order.
pub open spec fn computed_widths(cfg: GridConfig, rec: Records) -> Seq<int> {
    adjust_upto(cfg, rec, nat_widths(cfg, rec), cfg.rows as int, 0)
}

/// The resolved width plan: the computed widths, with an explicit
/// column width override taking precedence wherever one is set.
pub open spec fn spec_widths(cfg: GridConfig, rec: Records) -> Seq<int> {
    Seq::new(
        computed_widths(cfg, rec).len(),
        |c: int|
            match cfg.width_override(c) {
                Some(x) => x as int,
                None => computed_widths(cfg, rec)[c],
            },
    )
}

/// An adjustment step never narrows a column.
pub proof fn lemma_adjust_step_ge(cfg: GridConfig, rec: Records, w: Seq<int>, r: int, c: int)
    ensures
        adjust_step(cfg, rec, w, r, c).len() == w.len(),
        forall|i: int| 0 <= i < w.len() ==> #[trigger] adjust_step(cfg, rec, w, r, c)[i] >= w[i],
{
}

/// Later adjustment states never narrow a column: the plan after more
/// steps is pointwise at least the plan after fewer.
pub proof fn lemma_adjust_extends(
    cfg: GridConfig,
    rec: Records,
    w0: Seq<int>,
    r1: int,
    c1: int,
    r2: int,
    c2: int,
)
    requires
        0 <= r1,
        0 <= c1 <= cfg.cols,
        0 <= c2 <= cfg.cols,
        r1 < r2 || (r1 == r2 && c1 <= c2),
    ensures
        adjust_upto(cfg, rec, w0, r2, c2).len() == w0.len(),
        forall|i: int|
            0 <= i < w0.len() ==> #[trigger] adjust_upto(cfg, rec, w0, r2, c2)[i] >= adjust_upto(
                cfg,
                rec,
                w0,
                r1,
                c1,
            )[i],
    decreases r2, c2,
{
    if r1 == r2 && c1 == c2 {
        if c2 > 0 {
            lemma_adjust_extends(cfg, rec, w0, r2, c2 - 1, r2, c2 - 1);
            lemma_adjust_step_ge(cfg, rec, adjust_upto(cfg, rec, w0, r2, c2 - 1), r2, c2 - 1);
        } else if r2 > 0 {
            lemma_adjust_extends(cfg, rec, w0, r2 - 1, cfg.cols as int, r2 - 1, cfg.cols as int);
        }
    } else if c2 > 0 {
        lemma_adjust_extends(cfg, rec, w0, r1, c1, r2, c2 - 1);
        lemma_adjust_step_ge(cfg, rec, adjust_upto(cfg, rec, w0, r2, c2 - 1), r2, c2 - 1);
    } else {
        lemma_adjust_extends(cfg, rec, w0, r1, c1, r2 - 1, cfg.cols as int);
    }
}

/// The total rendered width of the grid: all column widths plus every
/// existing vertical boundary.
pub open spec fn total_width(cfg: GridConfig, rec: Records) -> int {
    range_sum(spec_widths(cfg, rec), 0, cfg.cols as int) + vcount(cfg, 0, cfg.cols + 1)
}

/// The height one cell needs: one content line plus its vertical
/// padding.
pub open spec fn cell_h(cfg: GridConfig, r: int, c: int) -> int {
    1 + cfg.format_at(r, c).padding.top + cfg.format_at(r, c).padding.bottom
}

/// The tallest need among the cells of row `r` with column in
/// `[0, c)` that are not covered by a span; at least one line.
pub open spec fn row_h_upto(cfg: GridConfig, r: int, c: int) -> int
    decreases c,
{
    if c <= 0 {
        1
    } else {
        let prev = row_h_upto(cfg, r, c - 1);
        let cur = if !cfg.absorbed(r, c - 1) {
            cell_h(cfg, r, c - 1)
        } else {
            0
        };
        if cur > prev {
            cur
        } else {
            prev
        }
    }
}

/// The computed natural height of row `r`, before any explicit
/// override.
pub open spec fn computed_height(cfg: GridConfig, r: int) -> int {
    row_h_upto(cfg, r, cfg.cols as int)
}

/// The resolved height of row `r`: an explicit row height override
/// takes precedence over the computed natural height.
pub open spec fn spec_height(cfg: GridConfig, r: int) -> int {
    match cfg.height_override(r) {
        Some(x) => x as int,
        None => computed_height(cfg, r),
    }
}

/// The resolved heights of all rows.
pub open spec fn spec_heights(cfg: GridConfig) -> Seq<int> {
    Seq::new(cfg.rows as nat, |r: int| spec_height(cfg, r))
}

/// A row height is at least one.
pub proof fn lemma_row_h_pos(cfg: GridConfig, r: int, c: int)
    ensures
        row_h_upto(cfg, r, c) >= 1,
    decreases c,
{
    if c > 0 {
        lemma_row_h_pos(cfg, r, c - 1);
    }
}

/// Whether the resolved dimensions of the grid fit the machine word:
/// the only way the engine can fail on well-formed input. Every
/// computed column width, the total width and every row height must
/// fit.
pub open spec fn dims_fit(cfg: GridConfig, rec: Records) -> bool {
    &&& forall|c: int|
        0 <= c < cfg.cols ==> #[trigger] computed_widths(cfg, rec)[c] <= usize::MAX
    &&& total_width(cfg, rec) <= usize::MAX
    &&& forall|r: int| 0 <= r < cfg.rows ==> #[trigger] computed_height(cfg, r) <= usize::MAX
}

/// Every resolved width is at least its natural width, so at least
/// zero; and every resolved width is at most the total width.
pub proof fn lemma_width_bounds(cfg: GridConfig, rec: Records)
    requires
        cfg.wf(),
    ensures
        spec_widths(cfg, rec).len() == cfg.cols,
        forall|i: int| 0 <= i < cfg.cols ==> #[trigger] spec_widths(cfg, rec)[i] >= 0,
        forall|i: int|
            0 <= i < cfg.cols ==> #[trigger] spec_widths(cfg, rec)[i] <= total_width(cfg, rec),
{
    let w0 = nat_widths(cfg, rec);
    let comp = computed_widths(cfg, rec);
    let fin = spec_widths(cfg, rec);
    lemma_adjust_extends(cfg, rec, w0, 0, 0, cfg.rows as int, 0);
    assert(adjust_upto(cfg, rec, w0, 0, 0) == w0);
    assert forall|i: int| 0 <= i < cfg.cols implies #[trigger] fin[i] >= 0 by {
        lemma_nat_w_nonneg(cfg, rec, i, cfg.rows as int);
        assert(w0[i] == nat_w(cfg, rec, i));
        assert(comp[i] >= w0[i]);
    }
    assert forall|i: int| 0 <= i < cfg.cols implies #[trigger] fin[i] <= total_width(cfg, rec) by {
        lemma_elem_le_sum(fin, 0, i, cfg.cols as int);
        lemma_vcount_nonneg(cfg, 0, cfg.cols + 1);
    }
}

/// The space of any in-grid span range is at most the total width.
pub proof fn lemma_avail_le_total(cfg: GridConfig, rec: Records, c: int, s: int)
    requires
        cfg.wf(),
        0 <= c,
        1 <= s,
        c + s <= cfg.cols,
    ensures
        span_avail(cfg, spec_widths(cfg, rec), c, s) <= total_width(cfg, rec),
        span_avail(cfg, spec_widths(cfg, rec), c, s) >= 0,
{
    let fin = spec_widths(cfg, rec);
    let cols = cfg.cols as int;
    lemma_width_bounds(cfg, rec);
    lemma_range_sum_split(fin, 0, c, cols);
    lemma_range_sum_split(fin, c, c + s, cols);
    lemma_range_sum_nonneg(fin, 0, c);
    lemma_range_sum_nonneg(fin, c + s, cols);
    lemma_range_sum_nonneg(fin, c, c + s);
    lemma_vcount_split(cfg, 0, c + 1, cols + 1);
    lemma_vcount_split(cfg, c + 1, c + s, cols + 1);
    lemma_vcount_nonneg(cfg, 0, c + 1);
    lemma_vcount_nonneg(cfg, c + s, cols + 1);
    lemma_vcount_nonneg(cfg, c + 1, c + s);
}

/// Extending a sum by one entry on the right.
pub proof fn lemma_range_sum_snoc(w: Seq<int>, a: int, b: int)
    requires
        a <= b,
    ensures
        range_sum(w, a, b + 1) == range_sum(w, a, b) + w[b],
{
    lemma_range_sum_split(w, a, b, b + 1);
    assert(range_sum(w, b, b + 1) == w[b] + range_sum(w, b + 1, b + 1));
}

/// Extending a boundary count by one boundary on the right.
pub proof fn lemma_vcount_snoc(cfg: GridConfig, a: int, b: int)
    requires
        a <= b,
    ensures
        vcount(cfg, a, b + 1) == vcount(cfg, a, b) + (if cfg.vert_exists(b) {
            1int
        } else {
            0int
        }),
{
    lemma_vcount_split(cfg, a, b, b + 1);
    assert(vcount(cfg, b, b + 1) == (if cfg.vert_exists(b) {
        1int
    } else {
        0int
    }) + vcount(cfg, b + 1, b + 1));
}

/// The space of the span range `[c, c + s)` under the given width
/// plan, as a machine word.
pub fn span_area(cfg: &GridConfig, w: &Vec<usize>, c: usize, s: usize) -> (a: usize)
    requires
        cfg.wf(),
        w@.len() == cfg.cols,
        1 <= s,
        c + s <= cfg.cols,
        span_avail(*cfg, to_ints(w@), c as int, s as int) <= usize::MAX,
    ensures
        a == span_avail(*cfg, to_ints(w@), c as int, s as int),
{
    let ghost wi = to_ints(w@);
    let ghost ci = c as int;
    let ghost si = s as int;
    proof {
        assert(span_avail(*cfg, wi, ci, si) == range_sum(wi, ci, ci + si) + vcount(
            *cfg,
            ci + 1,
            ci + si,
        ));
        lemma_range_sum_nonneg(wi, ci, ci + si);
        lemma_vcount_nonneg(*cfg, ci + 1, ci + si);
    }
    let mut acc: usize = 0;
    let mut k: usize = c;
    while k < c + s
        invariant
            cfg.wf(),
            wi == to_ints(w@),
            w@.len() == cfg.cols,
            c <= k <= c + s,
            c + s <= cfg.cols,
            acc == range_sum(wi, c as int, k as int),
            range_sum(wi, c as int, c as int + s as int) + vcount(
                *cfg,
                c as int + 1,
                c as int + s as int,
            ) <= usize::MAX,
            forall|i: int| 0 <= i < wi.len() ==> #[trigger] wi[i] >= 0,
            vcount(*cfg, c as int + 1, c as int + s as int) >= 0,
        decreases c + s - k,
    {
        proof {
            lemma_range_sum_snoc(wi, c as int, k as int);
            lemma_range_sum_split(wi, c as int, k as int + 1, c as int + s as int);
            lemma_range_sum_nonneg(wi, k as int + 1, c as int + s as int);
        }
        acc = acc + w[k];
        k += 1;
    }
    let mut cb: usize = c + 1;
    while cb < c + s
        invariant
            cfg.wf(),
            wi == to_ints(w@),
            w@.len() == cfg.cols,
            c + 1 <= cb <= c + s || (s == 1 && cb == c + 1),
            c + s <= cfg.cols,
            acc == range_sum(wi, c as int, c as int + s as int) + vcount(*cfg, c as int + 1, cb as int),
            range_sum(wi, c as int, c as int + s as int) + vcount(
                *cfg,
                c as int + 1,
                c as int + s as int,
            ) <= usize::MAX,
            vcount(*cfg, c as int + 1, cb as int) >= 0,
        decreases c + s - cb,
    {
        proof {
            lemma_vcount_snoc(*cfg, c as int + 1, cb as int);
            lemma_vcount_split(*cfg, c as int + 1, cb as int + 1, c as int + s as int);
            lemma_vcount_nonneg(*cfg, cb as int + 1, c as int + s as int);
            lemma_vcount_nonneg(*cfg, c as int + 1, cb as int + 1);
        }
        if cfg.vert_line_exists(cb) {
            acc = acc + 1;
        }
        cb += 1;
    }
    acc
}


/// The explicit width override of one column, read out.
fn self_width_of(cfg: &GridConfig, c: usize) -> (w: Option<usize>)
    requires
        cfg.wf(),
        c < cfg.cols,
    ensures
        w == cfg.width_override(c as int),
{
    cfg.col_widths[c]
}

/// The explicit height override of one row, read out.
fn self_height_of(cfg: &GridConfig, r: usize) -> (h: Option<usize>)
    requires
        cfg.wf(),
        r < cfg.rows,
    ensures
        h == cfg.height_override(r as int),
{
    cfg.row_heights[r]
}

/// Computes the width and height plans for one render. Succeeds
/// exactly when the resolved dimensions fit the machine word.
#[verifier::rlimit(40)]
pub fn estimate(cfg: &GridConfig, rec: &Records) -> (res: Result<(Vec<usize>, Vec<usize>), GridError>)
    requires
        cfg.wf(),
        rec.wf(),
        cfg.rows == rec.spec_rows(),
        cfg.cols == rec.cols,
    ensures
        res is Ok <==> dims_fit(*cfg, *rec),
        (res matches Ok(p) ==> to_ints(p.0@) == spec_widths(*cfg, *rec) && to_ints(p.1@)
            == spec_heights(*cfg)),
        (res matches Err(e) ==> e == GridError::TooLarge),
{
    let rows = cfg.rows;
    let cols = cfg.cols;
    // natural widths
    let mut w: Vec<usize> = Vec::new();
    let mut c: usize = 0;
    while c < cols
        invariant
            cfg.wf(),
            rec.wf(),
            cfg.rows == rec.spec_rows(),
            cfg.cols == rec.cols,
            rows == cfg.rows,
            cols == cfg.cols,
            c <= cols,
            w@.len() == c,
            forall|k: int| 0 <= k < c ==> #[trigger] w@[k] as int == nat_w(*cfg, *rec, k),
        decreases cols - c,
    {
        let mut best: u128 = 0;
        let mut r: usize = 0;
        while r < rows
            invariant
                cfg.wf(),
                rec.wf(),
                cfg.rows == rec.spec_rows(),
                cfg.cols == rec.cols,
                rows == cfg.rows,
                cols == cfg.cols,
                c < cols,
                r <= rows,
                best == nat_w_upto(*cfg, *rec, c as int, r as int),
            decreases rows - r,
        {
            let s = cfg.span_size(r, c);
            let abs = cfg.is_absorbed(r, c);
            if s == 1 && !abs {
                let f = cfg.format_of(r, c);
                let text = rec.get(r, c);
                let len = text.as_str().unicode_len();
                let cur: u128 = len as u128 + f.padding.left as u128 + f.padding.right as u128;
                proof {
                    assert(cur == cell_w(*cfg, *rec, r as int, c as int));
                }
                if cur > best {
                    best = cur;
                }
            }
            r += 1;
        }
        if best > usize::MAX as u128 {
            proof {
                let w0 = nat_widths(*cfg, *rec);
                lemma_adjust_extends(*cfg, *rec, w0, 0, 0, cfg.rows as int, 0);
                assert(adjust_upto(*cfg, *rec, w0, 0, 0) == w0);
                assert(w0[c as int] == nat_w(*cfg, *rec, c as int));
                assert(computed_widths(*cfg, *rec)[c as int] > usize::MAX);
            }
            return Err(GridError::TooLarge);
        }
        w.push(best as usize);
        c += 1;
    }
    let ghost w0 = nat_widths(*cfg, *rec);
    proof {
        assert(to_ints(w@) =~= w0);
    }
    // span adjustment, row-major
    let mut r: usize = 0;
    while r < rows
        invariant
            cfg.wf(),
            rec.wf(),
            cfg.rows == rec.spec_rows(),
            cfg.cols == rec.cols,
            rows == cfg.rows,
            cols == cfg.cols,
            r <= rows,
            w@.len() == cols,
            w0 == nat_widths(*cfg, *rec),
            to_ints(w@) == adjust_upto(*cfg, *rec, w0, r as int, 0),
        decreases rows - r,
    {
        let mut c: usize = 0;
        while c < cols
            invariant
                cfg.wf(),
                rec.wf(),
                cfg.rows == rec.spec_rows(),
                cfg.cols == rec.cols,
                rows == cfg.rows,
                cols == cfg.cols,
                r < rows,
                c <= cols,
                w@.len() == cols,
                w0 == nat_widths(*cfg, *rec),
                to_ints(w@) == adjust_upto(*cfg, *rec, w0, r as int, c as int),
            decreases cols - c,
        {
            let ghost wcur = to_ints(w@);
            let s = cfg.span_size(r, c);
            if s > 1 {
                let f = cfg.format_of(r, c);
                let text = rec.get(r, c);
                let len = text.as_str().unicode_len();
                let need: u128 = len as u128 + f.padding.left as u128 + f.padding.right as u128;
                proof {
                    assert(need == cell_w(*cfg, *rec, r as int, c as int));
                    lemma_range_sum_nonneg(wcur, c as int, c as int + s as int);
                    lemma_vcount_nonneg(*cfg, c as int + 1, c as int + s as int);
                }
                // the space the range has now
                let mut acc: u128 = 0;
                let mut k: usize = c;
                while k < c + s
                    invariant
                        w@.len() == cols,
                        wcur == to_ints(w@),
                        c <= k <= c + s,
                        c + s <= cols,
                        acc == range_sum(wcur, c as int, k as int),
                        acc <= (k - c) as u128 * 0xffff_ffff_ffff_ffffu128,
                    decreases c + s - k,
                {
                    proof {
                        lemma_range_sum_snoc(wcur, c as int, k as int);
                        assert(acc + w@[k as int] <= (k + 1 - c) as u128
                            * 0xffff_ffff_ffff_ffffu128) by (nonlinear_arith)
                            requires
                                acc <= (k - c) as u128 * 0xffff_ffff_ffff_ffffu128,
                                w@[k as int] <= 0xffff_ffff_ffff_ffffu128,
                                c <= k,
                        ;
                    }
                    acc = acc + (w[k] as u128);
                    k += 1;
                }
                let mut cb: usize = c + 1;
                while cb < c + s
                    invariant
                        cfg.wf(),
                        cols == cfg.cols,
                        w@.len() == cols,
                        wcur == to_ints(w@),
                        c + 1 <= cb,
                        cb <= c + s,
                        c + s <= cols,
                        s > 1,
                        acc == range_sum(wcur, c as int, c as int + s as int) + vcount(
                            *cfg,
                            c as int + 1,
                            cb as int,
                        ),
                        acc <= s as u128 * 0xffff_ffff_ffff_ffffu128 + (cb - c) as u128,
                    decreases c + s - cb,
                {
                    proof {
                        lemma_vcount_snoc(*cfg, c as int + 1, cb as int);
                        assert((s as u128) * 0xffff_ffff_ffff_ffffu128
                            + 0x1_0000_0000_0000_0000u128
                            < 0xffff_ffff_ffff_ffff_ffff_ffff_ffff_ffffu128) by (nonlinear_arith)
                            requires
                                s as u128 <= 0xffff_ffff_ffff_ffffu128,
                        ;
                        assert(acc + 1 <= (s as u128) * 0xffff_ffff_ffff_ffffu128
                            + 0x1_0000_0000_0000_0000u128);
                    }
                    if cfg.vert_line_exists(cb) {
                        acc = acc + 1;
                    }
                    cb += 1;
                }
                let avail: u128 = acc;
                proof {
                    assert(avail == span_avail(*cfg, wcur, c as int, s as int));
                }
                if need > avail {
                    let deficit: u128 = need - avail;
                    let idx = c + s - 1;
                    let entry = w[idx];
                    proof {
                        lemma_elem_le_sum(wcur, c as int, idx as int, c as int + s as int);
                    }
                    let grown: u128 = entry as u128 + deficit;
                    proof {
                        assert(grown <= need);
                    }
                    if grown > usize::MAX as u128 {
                        proof {
                            let stepped = adjust_upto(*cfg, *rec, w0, r as int, c as int + 1);
                            assert(stepped == adjust_step(*cfg, *rec, wcur, r as int, c as int));
                            assert(stepped[idx as int] == wcur[idx as int] + (need - avail));
                            lemma_adjust_extends(
                                *cfg,
                                *rec,
                                w0,
                                r as int,
                                c as int + 1,
                                cfg.rows as int,
                                0,
                            );
                            assert(computed_widths(*cfg, *rec)[idx as int] >= stepped[idx as int]);
                        }
                        return Err(GridError::TooLarge);
                    }
                    w[idx] = grown as usize;
                    proof {
                        assert(to_ints(w@) =~= adjust_step(*cfg, *rec, wcur, r as int, c as int));
                        assert(to_ints(w@) == adjust_upto(*cfg, *rec, w0, r as int, c as int + 1));
                    }
                } else {
                    proof {
                        assert(to_ints(w@) == adjust_upto(*cfg, *rec, w0, r as int, c as int + 1));
                    }
                }
            } else {
                proof {
                    assert(to_ints(w@) == adjust_upto(*cfg, *rec, w0, r as int, c as int + 1));
                }
            }
            c += 1;
        }
        proof {
            assert(adjust_upto(*cfg, *rec, w0, r as int + 1, 0) == adjust_upto(
                *cfg,
                *rec,
                w0,
                r as int,
                cols as int,
            ));
        }
        r += 1;
    }
    let ghost comp = computed_widths(*cfg, *rec);
    proof {
        assert(to_ints(w@) == comp);
        assert forall|k: int| 0 <= k < cols implies #[trigger] comp[k] <= usize::MAX by {
            assert(comp[k] == w@[k] as int);
        }
    }
    // explicit column widths take precedence over the computed plan
    let mut c4: usize = 0;
    while c4 < cols
        invariant
            cfg.wf(),
            rec.wf(),
            cfg.rows == rec.spec_rows(),
            cfg.cols == rec.cols,
            cols == cfg.cols,
            c4 <= cols,
            w@.len() == cols,
            comp == computed_widths(*cfg, *rec),
            forall|k: int|
                0 <= k < cols ==> #[trigger] w@[k] as int == (if k < c4 {
                    match cfg.width_override(k) {
                        Some(x) => x as int,
                        None => comp[k],
                    }
                } else {
                    comp[k]
                }),
        decreases cols - c4,
    {
        match self_width_of(cfg, c4) {
            Some(x) => {
                w[c4] = x;
            },
            None => {},
        }
        c4 += 1;
    }
    proof {
        assert(to_ints(w@) =~= spec_widths(*cfg, *rec));
        assert forall|k: int| 0 <= k < cols implies #[trigger] computed_widths(*cfg, *rec)[k]
            <= usize::MAX by {
            assert(comp[k] <= usize::MAX);
        }
    }
    // heights
    let mut h: Vec<usize> = Vec::new();
    let mut r2: usize = 0;
    while r2 < rows
        invariant
            cfg.wf(),
            rows == cfg.rows,
            cols == cfg.cols,
            r2 <= rows,
            h@.len() == r2,
            forall|k: int| 0 <= k < r2 ==> #[trigger] h@[k] as int == spec_height(*cfg, k),
            forall|k: int| 0 <= k < r2 ==> #[trigger] computed_height(*cfg, k) <= usize::MAX,
        decreases rows - r2,
    {
        let mut best: u128 = 1;
        let mut c2: usize = 0;
        while c2 < cols
            invariant
                cfg.wf(),
                rows == cfg.rows,
                cols == cfg.cols,
                r2 < rows,
                c2 <= cols,
                best == row_h_upto(*cfg, r2 as int, c2 as int),
            decreases cols - c2,
        {
            let abs = cfg.is_absorbed(r2, c2);
            if !abs {
                let f = cfg.format_of(r2, c2);
                let cur: u128 = 1u128 + f.padding.top as u128 + f.padding.bottom as u128;
                proof {
                    assert(cur == cell_h(*cfg, r2 as int, c2 as int));
                }
                if cur > best {
                    best = cur;
                }
            }
            c2 += 1;
        }
        if best > usize::MAX as u128 {
            proof {
                assert(computed_height(*cfg, r2 as int) > usize::MAX);
            }
            return Err(GridError::TooLarge);
        }
        let resolved: usize = match self_height_of(cfg, r2) {
            Some(x) => x,
            None => best as usize,
        };
        h.push(resolved);
        r2 += 1;
    }
    // the total width must fit the machine word
    let ghost fin = spec_widths(*cfg, *rec);
    proof {
        lemma_width_bounds(*cfg, *rec);
        lemma_vcount_nonneg(*cfg, 0, cols as int + 1);
        lemma_range_sum_nonneg(fin, 0, cols as int);
    }
    let mut tot: usize = 0;
    let mut c3: usize = 0;
    while c3 < cols
        invariant
            cfg.wf(),
            rec.wf(),
            cfg.rows == rec.spec_rows(),
            cfg.cols == rec.cols,
            cols == cfg.cols,
            c3 <= cols,
            w@.len() == cols,
            fin == spec_widths(*cfg, *rec),
            to_ints(w@) == fin,
            tot == range_sum(fin, 0, c3 as int),
            vcount(*cfg, 0, cols as int + 1) >= 0,
            forall|i: int| 0 <= i < cols ==> #[trigger] fin[i] >= 0,
        decreases cols - c3,
    {
        proof {
            lemma_range_sum_snoc(fin, 0, c3 as int);
            lemma_range_sum_split(fin, 0, c3 as int + 1, cols as int);
            lemma_range_sum_nonneg(fin, c3 as int + 1, cols as int);
        }
        match tot.checked_add(w[c3]) {
            Some(t) => {
                tot = t;
            },
            None => {
                return Err(GridError::TooLarge);
            },
        }
        c3 += 1;
    }
    let mut cb3: usize = 0;
    while cb3 < cols
        invariant
            cfg.wf(),
            rec.wf(),
            cfg.rows == rec.spec_rows(),
            cfg.cols == rec.cols,
            cols == cfg.cols,
            cb3 <= cols,
            fin == spec_widths(*cfg, *rec),
            tot == range_sum(fin, 0, cols as int) + vcount(*cfg, 0, cb3 as int),
            vcount(*cfg, 0, cb3 as int) >= 0,
        decreases cols - cb3,
    {
        proof {
            lemma_vcount_snoc(*cfg, 0, cb3 as int);
            lemma_vcount_split(*cfg, 0, cb3 as int + 1, cols as int + 1);
            lemma_vcount_nonneg(*cfg, cb3 as int + 1, cols as int + 1);
            lemma_vcount_nonneg(*cfg, 0, cb3 as int + 1);
        }
        if cfg.vert_line_exists(cb3) {
            match tot.checked_add(1) {
                Some(t) => {
                    tot = t;
                },
                None => {
                    return Err(GridError::TooLarge);
                },
            }
        }
        cb3 += 1;
    }
    proof {
        lemma_vcount_snoc(*cfg, 0, cols as int);
    }
    if cfg.vert_line_exists(cols) {
        match tot.checked_add(1) {
            Some(t) => {
                tot = t;
            },
            None => {
                return Err(GridError::TooLarge);
            },
        }
    }
    proof {
        assert(tot == total_width(*cfg, *rec));
        assert(to_ints(h@) =~= spec_heights(*cfg));
    }
    Ok((w, h))
}


} // verus!
