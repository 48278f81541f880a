//! Post-render transforms of a finished text block: writing text into
//! a border line, and framing the block with a shadow.
//!
//! Both take the block the renderer produced — lines of one width,
//! joined by `\n` — and are not composable with further structural
//! changes to the table.

use vstd::prelude::*;
use crate::render::{char_rep, join_lines};

verus! {

/// The block with the characters of line `line` overwritten by `text`
/// from column `offset` on; what would overflow the line is clipped.
pub open spec fn spec_line_text(
    block: Seq<char>,
    width: int,
    line: int,
    offset: int,
    text: Seq<char>,
) -> Seq<char> {
    Seq::new(
        block.len(),
        |i: int|
            {
                let start = line * (width + 1) + offset;
                if start <= i < start + text.len() && i < line * (width + 1) + width {
                    text[i - start]
                } else {
                    block[i]
                }
            },
    )
}

/// Writes `text` into line `line` of a rendered block whose lines are
/// `width` characters wide, starting at column `offset`: the border
/// labelling transform. Text that would run past the line's end is
/// clipped; the rest of the block stands untouched.
pub fn line_text(block: &str, width: usize, line: usize, offset: usize, text: &str) -> (out:
    String)
    requires
        offset <= width,
        width < usize::MAX,
        line * (width as int + 1) + width <= usize::MAX,
    ensures
        out@ == spec_line_text(block@, width as int, line as int, offset as int, text@),
{
    let lstart: usize = line * (width + 1);
    let start: usize = lstart + offset;
    let lend: usize = lstart + width;
    let n = block.unicode_len();
    let tn = text.unicode_len();
    let mut out: Vec<char> = Vec::new();
    let mut i: usize = 0;
    while i < n
        invariant
            i <= n,
            n == block@.len(),
            tn == text@.len(),
            offset <= width,
            lstart == line * (width as int + 1),
            start == lstart + offset,
            lend == lstart + width,
            out@ == spec_line_text(block@, width as int, line as int, offset as int, text@).take(
                i as int,
            ),
        decreases n - i,
    {
        let ch = if i >= start && i < lend && i - start < tn {
            text.get_char(i - start)
        } else {
            block.get_char(i)
        };
        out.push(ch);
        proof {
            assert(out@ =~= spec_line_text(
                block@,
                width as int,
                line as int,
                offset as int,
                text@,
            ).take(i as int + 1));
        }
        i += 1;
    }
    proof {
        assert(spec_line_text(block@, width as int, line as int, offset as int, text@).take(
            n as int,
        ) =~= spec_line_text(block@, width as int, line as int, offset as int, text@));
    }
    crate::render::chars_to_string(&out)
}

/// Line `i` of the block, as rendered by [`spec_shadow`].
pub open spec fn shadow_line(
    block: Seq<char>,
    width: int,
    height: int,
    size: int,
    fill: char,
    i: int,
) -> Seq<char> {
    if i < height {
        let orig = block.subrange(i * (width + 1), i * (width + 1) + width);
        if i == 0 {
            orig + char_rep(' ', size)
        } else {
            orig + char_rep(fill, size)
        }
    } else {
        char_rep(' ', 1) + char_rep(fill, width + size - 1)
    }
}

/// The block framed by a shadow: `size` fill characters to the right
/// of every line but the first, and `size` fill lines below, each
/// stepped in one column.
pub open spec fn spec_shadow(
    block: Seq<char>,
    width: int,
    height: int,
    size: int,
    fill: char,
) -> Seq<char> {
    join_lines(Seq::new((height + size) as nat, |i: int| shadow_line(block, width, height, size, fill, i)))
}

/// Frames a rendered block — `height` lines of `width` characters,
/// joined by `\n` — with a shadow of thickness `size`, offset one
/// cell down and right, filled with `fill`.
pub fn shadow(block: &str, width: usize, height: usize, size: usize, fill: char) -> (out: String)
    requires
        1 <= height,
        1 <= size,
        1 <= width,
        block@.len() == height * (width as int + 1) - 1,
        height * (width as int + 1) + size <= usize::MAX,
        width + size <= usize::MAX,
    ensures
        out@ == spec_shadow(block@, width as int, height as int, size as int, fill),
{
    let ghost target = Seq::new(
        (height + size) as nat,
        |i: int| shadow_line(block@, width as int, height as int, size as int, fill, i),
    );
    let mut out: Vec<char> = Vec::new();
    let ghost mut built: Seq<Seq<char>> = Seq::empty();
    let mut i: usize = 0;
    while i < height
        invariant
            i <= height,
            1 <= height,
            1 <= size,
            1 <= width,
            block@.len() == height * (width as int + 1) - 1,
            height * (width as int + 1) + size <= usize::MAX,
            width + size <= usize::MAX,
            target == Seq::new(
                (height + size) as nat,
                |k: int| shadow_line(block@, width as int, height as int, size as int, fill, k),
            ),
            built == target.take(i as int),
            out@ == join_lines(built),
        decreases height - i,
    {
        proof {
            assert((i as int + 1) * (width as int + 1) <= height * (width as int + 1))
                by (nonlinear_arith)
                requires
                    i as int + 1 <= height,
                    width as int + 1 >= 1,
            ;
            assert(i as int * (width as int + 1) + width as int + 1 == (i as int + 1) * (
            width as int + 1)) by (nonlinear_arith);
        }
        let lstart: usize = i * (width + 1);
        let mut line: Vec<char> = Vec::new();
        let mut k: usize = 0;
        while k < width
            invariant
                k <= width,
                block@.len() == height * (width as int + 1) - 1,
                lstart == i as int * (width as int + 1),
                lstart + width < height * (width as int + 1),
                lstart + width <= usize::MAX,
                line@ == block@.subrange(lstart as int, lstart as int + k as int),
            decreases width - k,
        {
            let ch = block.get_char(lstart + k);
            line.push(ch);
            proof {
                assert(line@ =~= block@.subrange(lstart as int, lstart as int + k as int + 1));
            }
            k += 1;
        }
        let suffix_fill = if i == 0 {
            ' '
        } else {
            fill
        };
        let mut k2: usize = 0;
        while k2 < size
            invariant
                k2 <= size,
                lstart == i as int * (width as int + 1),
                line@ == block@.subrange(lstart as int, lstart as int + width as int) + char_rep(
                    suffix_fill,
                    k2 as int,
                ),
            decreases size - k2,
        {
            line.push(suffix_fill);
            proof {
                assert(line@ =~= block@.subrange(lstart as int, lstart as int + width as int)
                    + char_rep(suffix_fill, k2 as int + 1));
            }
            k2 += 1;
        }
        proof {
            assert(line@ == shadow_line(
                block@,
                width as int,
                height as int,
                size as int,
                fill,
                i as int,
            ));
            crate::render::lemma_join_push(built, line@);
            assert(target.take(i as int + 1) =~= target.take(i as int).push(line@));
        }
        crate::render::append_line(&mut out, &line, i > 0);
        proof {
            built = built.push(line@);
        }
        i += 1;
    }
    let mut j: usize = 0;
    while j < size
        invariant
            j <= size,
            1 <= height,
            1 <= size,
            1 <= width,
            width + size <= usize::MAX,
            target == Seq::new(
                (height + size) as nat,
                |k: int| shadow_line(block@, width as int, height as int, size as int, fill, k),
            ),
            built == target.take(height as int + j as int),
            out@ == join_lines(built),
        decreases size - j,
    {
        let mut line: Vec<char> = Vec::new();
        line.push(' ');
        let mut k: usize = 0;
        while k < width + size - 1
            invariant
                k <= width + size - 1,
                width + size <= usize::MAX,
                line@ == char_rep(' ', 1) + char_rep(fill, k as int),
            decreases width + size - 1 - k,
        {
            line.push(fill);
            proof {
                assert(line@ =~= char_rep(' ', 1) + char_rep(fill, k as int + 1));
            }
            k += 1;
        }
        proof {
            assert(line@ == shadow_line(
                block@,
                width as int,
                height as int,
                size as int,
                fill,
                height as int + j as int,
            ));
            crate::render::lemma_join_push(built, line@);
            assert(target.take(height as int + j as int + 1) =~= target.take(
                height as int + j as int,
            ).push(line@));
            assert(built.len() > 0);
        }
        crate::render::append_line(&mut out, &line, true);
        proof {
            built = built.push(line@);
        }
        j += 1;
    }
    proof {
        assert(target.take((height + size) as int) =~= target);
    }
    crate::render::chars_to_string(&out)
}

} // verus!
