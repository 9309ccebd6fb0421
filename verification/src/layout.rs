//! Text layout engine.
//!
//! For a text-like field the engine tries four strategies in order and
//! renders with the first that fits:
//!
//! 1. one line at the base font size (12 pt default and floor), using an
//!    estimated width of half the font size per character;
//! 2. one line at 0.9 × the base size;
//! 3. a greedy fixed-width wrap at the base size, if the whole text fits
//!    in the line budget given by the field height and a 1.2 × line
//!    height;
//! 4. an unclipped single line at the base size anchored at the field's
//!    top left, which may extend past the field box.

use vstd::prelude::*;
use crate::ops::{
    op_fill_black, op_set_font, op_show_text, op_text_pos, push_fill_black, push_set_font,
    push_show_text, push_text_pos,
};
use crate::types::{Alignment, VerticalAlignment, COORD_LIMIT, FONT_LIMIT, TEXT_LIMIT};

verus! {

/// Whether a derived vertical position is within the range the layout
/// arithmetic can produce (three coordinate limits: a page height minus a
/// field offset and a field height).
pub open spec fn pos_ok(v: int) -> bool {
    -3 * (COORD_LIMIT as int) <= v <= 3 * (COORD_LIMIT as int)
}

/// Whether an `i64` is within the coordinate range.
pub open spec fn coord_ok_i64(v: i64) -> bool {
    crate::types::coord_ok(v as int)
}

/// The effective base font size: the requested size, defaulted to 12 pt
/// and floored at 12 pt.
pub open spec fn base_font_size(fs: Option<int>) -> int {
    let f = match fs {
        Some(v) => v,
        None => 12000,
    };
    if f < 12000 {
        12000
    } else {
        f
    }
}

/// The horizontal offset of a rendered line inside the field box.
pub open spec fn h_offset(align: Option<Alignment>, w: int, tw: int) -> int {
    match align {
        Some(Alignment::Center) => (w - tw) / 2,
        Some(Alignment::Right) => w - tw,
        _ => 0,
    }
}

/// The vertical anchor of a single rendered line: applied only when the
/// field is taller than 1.2 × the font size, otherwise the top anchor.
pub open spec fn v_anchor(pdf_y: int, h: int, font: int, va: Option<VerticalAlignment>) -> int {
    if 10 * h > 12 * font {
        match va {
            Some(VerticalAlignment::Middle) => pdf_y + (h - font) / 2,
            Some(VerticalAlignment::Bottom) => pdf_y + h - font,
            Some(VerticalAlignment::Baseline) => pdf_y + h - font * 2 / 10,
            _ => pdf_y,
        }
    } else {
        pdf_y
    }
}

/// The greedy fixed-width split of `t` into lines of `cpl` characters,
/// stopping after `budget` lines.
pub open spec fn wrap_lines(t: Seq<char>, cpl: nat, budget: nat) -> Seq<Seq<char>>
    decreases budget,
{
    if t.len() == 0 || budget == 0 {
        Seq::empty()
    } else {
        let k = if cpl <= t.len() {
            cpl as int
        } else {
            t.len() as int
        };
        seq![t.take(k)] + wrap_lines(t.skip(k), cpl, (budget - 1) as nat)
    }
}

/// What remains of `t` after the greedy split consumed its line budget.
pub open spec fn wrap_rest(t: Seq<char>, cpl: nat, budget: nat) -> Seq<char>
    decreases budget,
{
    if t.len() == 0 || budget == 0 {
        t
    } else {
        let k = if cpl <= t.len() {
            cpl as int
        } else {
            t.len() as int
        };
        wrap_rest(t.skip(k), cpl, (budget - 1) as nat)
    }
}

/// The operators for the wrapped lines from index `i` on: one line
/// origin and one text-show per line, stepping down by `line_h`.
pub open spec fn wrap_ops(
    lines: Seq<Seq<char>>,
    i: int,
    x: int,
    first_y: int,
    line_h: int,
    w: int,
    cw: int,
    align: Option<Alignment>,
) -> Seq<char>
    decreases lines.len() - i,
{
    if i < 0 || i >= lines.len() {
        Seq::empty()
    } else {
        op_text_pos(x + h_offset(align, w, lines[i].len() * cw), first_y + i * line_h)
            + op_show_text(lines[i]) + wrap_ops(lines, i + 1, x, first_y, line_h, w, cw, align)
    }
}

/// The vertical anchor of a wrapped block of lines; `Baseline` degrades
/// to `Bottom` for blocks.
pub open spec fn block_anchor(pdf_y: int, h: int, total: int, va: Option<VerticalAlignment>) -> int {
    if h > total {
        match va {
            Some(VerticalAlignment::Middle) => pdf_y + (h - total) / 2,
            Some(VerticalAlignment::Bottom) => pdf_y + h - total,
            Some(VerticalAlignment::Baseline) => pdf_y + h - total,
            _ => pdf_y,
        }
    } else {
        pdf_y
    }
}

/// The characters per line afforded by the field width, zero when the
/// width is not positive.
pub open spec fn chars_per_line(w: int, cw: int) -> nat
    recommends
        cw > 0,
{
    if w <= 0 {
        0
    } else {
        (w / cw) as nat
    }
}

/// The line budget afforded by the field height, zero when the height is
/// not positive.
pub open spec fn max_lines(h: int, line_h: int) -> nat
    recommends
        line_h > 0,
{
    if h <= 0 {
        0
    } else {
        (h / line_h) as nat
    }
}

/// The operators of the wrap strategy, when it applies.
pub open spec fn wrapped_block_ops(
    t: Seq<char>,
    x: int,
    pdf_y: int,
    w: int,
    h: int,
    base: int,
    align: Option<Alignment>,
    va: Option<VerticalAlignment>,
) -> Seq<char> {
    let cw = base / 2;
    let cpl = chars_per_line(w, cw);
    let line_h = base * 12 / 10;
    let budget = max_lines(h, line_h);
    let lines = wrap_lines(t, cpl, budget);
    let fy = block_anchor(pdf_y, h, lines.len() * line_h, va);
    op_set_font("F1"@, base) + wrap_ops(lines, 0, x, fy, line_h, w, cw, align)
}

/// Whether the wrap strategy applies: at least one character fits per
/// line and the greedy split consumes the whole text.
pub open spec fn wrap_applies(t: Seq<char>, w: int, h: int, base: int) -> bool {
    let cw = base / 2;
    let cpl = chars_per_line(w, cw);
    let line_h = base * 12 / 10;
    let budget = max_lines(h, line_h);
    cpl > 0 && wrap_rest(t, cpl, budget).len() == 0
}

/// The full operator sequence for a non-empty text: a black fill, then
/// the output of the first fitting strategy.
pub open spec fn text_box_ops(
    t: Seq<char>,
    x: int,
    pdf_y: int,
    w: int,
    h: int,
    fs: Option<int>,
    align: Option<Alignment>,
    va: Option<VerticalAlignment>,
) -> Seq<char> {
    let base = base_font_size(fs);
    let cw = base / 2;
    let tw = t.len() * cw;
    let fitted = if tw <= w {
        op_set_font("F1"@, base) + op_text_pos(
            x + h_offset(align, w, tw),
            v_anchor(pdf_y, h, base, va),
        ) + op_show_text(t)
    } else {
        let red = base * 9 / 10;
        let rcw = red / 2;
        let rtw = t.len() * rcw;
        if rtw <= w {
            op_set_font("F1"@, red) + op_text_pos(
                x + h_offset(align, w, rtw),
                v_anchor(pdf_y, h, red, va),
            ) + op_show_text(t)
        } else if wrap_applies(t, w, h, base) {
            wrapped_block_ops(t, x, pdf_y, w, h, base, align, va)
        } else {
            op_set_font("F1"@, base) + op_text_pos(x, pdf_y) + op_show_text(t)
        }
    };
    op_fill_black() + fitted
}

/// The operators emitted for a text-like field: nothing for empty text.
pub open spec fn text_field_ops(
    t: Seq<char>,
    x: int,
    pdf_y: int,
    w: int,
    h: int,
    fs: Option<int>,
    align: Option<Alignment>,
    va: Option<VerticalAlignment>,
) -> Seq<char> {
    if t.len() == 0 {
        Seq::empty()
    } else {
        text_box_ops(t, x, pdf_y, w, h, fs, align, va)
    }
}

/// Computes the single-line vertical anchor.
fn anchor_exec(pdf_y: i64, h: i64, font: i64, va: Option<VerticalAlignment>) -> (r: i64)
    requires
        pos_ok(pdf_y as int),
        coord_ok_i64(h),
        10000 <= font <= FONT_LIMIT,
    ensures
        r as int == v_anchor(pdf_y as int, h as int, font as int, va),
        -4 * (COORD_LIMIT as int) <= r as int <= 4 * (COORD_LIMIT as int),
{
    if 10 * h > 12 * font {
        match va {
            Some(VerticalAlignment::Middle) => pdf_y + (((h - font) as u64) / 2) as i64,
            Some(VerticalAlignment::Bottom) => pdf_y + h - font,
            Some(VerticalAlignment::Baseline) => pdf_y + h - ((font as u64) * 2 / 10) as i64,
            _ => pdf_y,
        }
    } else {
        pdf_y
    }
}

/// Computes the horizontal line offset.
fn offset_exec(align: Option<Alignment>, w: i64, tw: i64) -> (r: i64)
    requires
        coord_ok_i64(w),
        0 <= tw <= w,
    ensures
        r as int == h_offset(align, w as int, tw as int),
        0 <= r <= w,
{
    match align {
        Some(Alignment::Center) => (((w - tw) as u64) / 2) as i64,
        Some(Alignment::Right) => w - tw,
        _ => 0,
    }
}

/// The greedy split never yields more lines than its budget.
proof fn lemma_budget_bound(t: Seq<char>, cpl: nat, budget: nat)
    ensures
        wrap_lines(t, cpl, budget).len() <= budget,
    decreases budget,
{
    if t.len() == 0 || budget == 0 {
    } else {
        let k = if cpl <= t.len() {
            cpl as int
        } else {
            t.len() as int
        };
        lemma_budget_bound(t.skip(k), cpl, (budget - 1) as nat);
    }
}

/// Every line of the greedy split has at most `cpl` characters.
proof fn lemma_line_bound(t: Seq<char>, cpl: nat, budget: nat)
    ensures
        forall|i: int|
            0 <= i < wrap_lines(t, cpl, budget).len() ==> (#[trigger] wrap_lines(
                t,
                cpl,
                budget,
            )[i]).len() <= cpl,
    decreases budget,
{
    if t.len() == 0 || budget == 0 {
    } else {
        let k = if cpl <= t.len() {
            cpl as int
        } else {
            t.len() as int
        };
        lemma_line_bound(t.skip(k), cpl, (budget - 1) as nat);
        let ls = wrap_lines(t, cpl, budget);
        let tail = wrap_lines(t.skip(k), cpl, (budget - 1) as nat);
        assert forall|i: int| 0 <= i < ls.len() implies (#[trigger] ls[i]).len() <= cpl by {
            if i == 0 {
                assert(ls[0] == t.take(k));
            } else {
                assert(ls[i] == tail[i - 1]);
            }
        }
    }
}

/// Tries the wrap strategy. When it applies, appends its operators and
/// returns true; otherwise appends nothing and returns false.
#[verifier::rlimit(40)]
fn render_wrapped(
    content: &mut String,
    t: &str,
    x: i64,
    pdf_y: i64,
    w: i64,
    h: i64,
    base: i64,
    align: Option<Alignment>,
    va: Option<VerticalAlignment>,
) -> (done: bool)
    requires
        coord_ok_i64(x),
        pos_ok(pdf_y as int),
        coord_ok_i64(w),
        coord_ok_i64(h),
        12000 <= base <= FONT_LIMIT,
        0 < t@.len() <= TEXT_LIMIT,
    ensures
        done == wrap_applies(t@, w as int, h as int, base as int),
        done ==> final(content)@ == old(content)@ + wrapped_block_ops(
            t@,
            x as int,
            pdf_y as int,
            w as int,
            h as int,
            base as int,
            align,
            va,
        ),
        !done ==> final(content)@ == old(content)@,
{
    let cw: i64 = ((base as u64) / 2) as i64;
    let cpl: usize = if w <= 0 {
        0
    } else {
        ((w as u64) / (cw as u64)) as usize
    };
    let line_h: i64 = ((base as u64) * 12 / 10) as i64;
    let budget: usize = if h <= 0 {
        0
    } else {
        ((h as u64) / (line_h as u64)) as usize
    };
    proof {
        assert(cpl as nat == chars_per_line(w as int, cw as int));
        assert(budget as nat == max_lines(h as int, line_h as int));
    }
    if cpl == 0 {
        proof {
            assert(final(content)@ =~= old(content)@);
        }
        return false;
    }
    proof {
        assert(0 <= (cpl as int) * (cw as int) <= w as int && cpl <= 200000) by (nonlinear_arith)
            requires
                cpl as int == (w as int) / (cw as int),
                w as int > 0,
                6000 <= cw as int <= 500000,
                w as int <= COORD_LIMIT as int,
        ;
        assert(line_h as int >= 14400) by (nonlinear_arith)
            requires
                line_h as int == (base as int) * 12 / 10,
                base as int >= 12000,
        ;
        if h > 0 {
            assert(0 <= (budget as int) * (line_h as int) <= h as int && budget <= 100000)
                by (nonlinear_arith)
                requires
                    budget as int == (h as int) / (line_h as int),
                    14400 <= line_h as int,
                    0 < h as int <= COORD_LIMIT as int,
            ;
        }
    }
    let ghost spec_lines = wrap_lines(t@, cpl as nat, budget as nat);
    let ghost spec_rest = wrap_rest(t@, cpl as nat, budget as nat);
    let n = t.unicode_len();
    let mut lines: Vec<&str> = Vec::new();
    let mut rem: &str = t;
    let mut rem_len: usize = n;
    while rem_len > 0 && lines.len() < budget
        invariant
            rem_len == rem@.len(),
            lines@.len() <= budget,
            spec_lines == lines@.map_values(|s: &str| s@) + wrap_lines(
                rem@,
                cpl as nat,
                (budget - lines@.len()) as nat,
            ),
            spec_rest == wrap_rest(rem@, cpl as nat, (budget - lines@.len()) as nat),
            cpl > 0,
        decreases rem_len,
    {
        let k: usize = if cpl <= rem_len {
            cpl
        } else {
            rem_len
        };
        let line = rem.substring_char(0, k);
        let rest = rem.substring_char(k, rem_len);
        proof {
            assert(line@ =~= rem@.take(k as int));
            assert(rest@ =~= rem@.skip(k as int));
        }
        let ghost prev = lines@;
        lines.push(line);
        rem = rest;
        rem_len = rem_len - k;
        proof {
            assert(lines@.map_values(|s: &str| s@) =~= prev.map_values(|s: &str| s@).push(line@));
            assert(spec_lines =~= lines@.map_values(|s: &str| s@) + wrap_lines(
                rem@,
                cpl as nat,
                (budget - lines@.len()) as nat,
            ));
        }
    }
    if rem_len > 0 {
        proof {
            assert(spec_rest.len() > 0);
            assert(final(content)@ =~= old(content)@);
        }
        return false;
    }
    proof {
        assert(wrap_lines(rem@, cpl as nat, (budget - lines@.len()) as nat)
            =~= Seq::<Seq<char>>::empty());
        assert(spec_lines =~= lines@.map_values(|s: &str| s@));
        assert(spec_rest.len() == 0);
        lemma_budget_bound(t@, cpl as nat, budget as nat);
        lemma_line_bound(t@, cpl as nat, budget as nat);
        assert(0 <= (lines@.len() as int) * (line_h as int) <= (budget as int) * (line_h as int))
            by (nonlinear_arith)
            requires
                0 <= lines@.len() <= budget,
                line_h as int > 0,
        ;
    }
    let total: i64 = (lines.len() as i64) * line_h;
    let fy: i64 = if h > total {
        match va {
            Some(VerticalAlignment::Middle) => pdf_y + (((h - total) as u64) / 2) as i64,
            Some(VerticalAlignment::Bottom) => pdf_y + h - total,
            Some(VerticalAlignment::Baseline) => pdf_y + h - total,
            _ => pdf_y,
        }
    } else {
        pdf_y
    };
    proof {
        assert(fy as int == block_anchor(
            pdf_y as int,
            h as int,
            spec_lines.len() * (line_h as int),
            va,
        ));
    }
    push_set_font(content, "F1", base);
    let ghost mid = content@;
    let mut i: usize = 0;
    while i < lines.len()
        invariant
            i <= lines@.len(),
            lines@.len() <= 100000,
            spec_lines == lines@.map_values(|s: &str| s@),
            forall|j: int| 0 <= j < spec_lines.len() ==> (#[trigger] spec_lines[j]).len() <= cpl,
            forall|j: int| 0 <= j < lines@.len() ==> (#[trigger] lines@[j])@ == spec_lines[j],
            0 <= (cpl as int) * (cw as int) <= w as int,
            cpl <= 200000,
            0 < cw <= 500000,
            coord_ok_i64(x),
            coord_ok_i64(w),
            -4 * (COORD_LIMIT as int) <= fy as int <= 4 * (COORD_LIMIT as int),
            0 < line_h <= 1200000,
            0 <= (lines@.len() as int) * (line_h as int) <= h as int || lines@.len() == 0,
            content@ + wrap_ops(
                spec_lines,
                i as int,
                x as int,
                fy as int,
                line_h as int,
                w as int,
                cw as int,
                align,
            ) == mid + wrap_ops(
                spec_lines,
                0,
                x as int,
                fy as int,
                line_h as int,
                w as int,
                cw as int,
                align,
            ),
        decreases lines@.len() - i,
    {
        let line = lines[i];
        let line_len = line.unicode_len();
        proof {
            assert(0 <= (line_len as int) * (cw as int) <= (cpl as int) * (cw as int))
                by (nonlinear_arith)
                requires
                    0 <= line_len <= cpl,
                    cw > 0,
            ;
            assert(0 <= (i as int) * (line_h as int) <= 120000000000) by (nonlinear_arith)
                requires
                    0 <= i <= 100000,
                    0 < line_h <= 1200000,
            ;
        }
        let line_w: i64 = (line_len as i64) * cw;
        let xoff = offset_exec(align, w, line_w);
        let y_i: i64 = fy + (i as i64) * line_h;
        push_text_pos(content, x + xoff, y_i);
        push_show_text(content, line);
        proof {
            assert(content@ + wrap_ops(
                spec_lines,
                i as int + 1,
                x as int,
                fy as int,
                line_h as int,
                w as int,
                cw as int,
                align,
            ) =~= mid + wrap_ops(
                spec_lines,
                0,
                x as int,
                fy as int,
                line_h as int,
                w as int,
                cw as int,
                align,
            ));
        }
        i = i + 1;
    }
    proof {
        assert(wrap_ops(
            spec_lines,
            lines@.len() as int,
            x as int,
            fy as int,
            line_h as int,
            w as int,
            cw as int,
            align,
        ) =~= Seq::<char>::empty());
        assert(final(content)@ =~= old(content)@ + wrapped_block_ops(
            t@,
            x as int,
            pdf_y as int,
            w as int,
            h as int,
            base as int,
            align,
            va,
        ));
    }
    true
}

/// Renders a text-like field value into `content`, choosing the first
/// fitting strategy. Appends nothing for empty text.
#[verifier::rlimit(40)]
pub fn render_text(
    content: &mut String,
    t: &str,
    x: i64,
    pdf_y: i64,
    w: i64,
    h: i64,
    fs: Option<i64>,
    align: Option<Alignment>,
    va: Option<VerticalAlignment>,
)
    requires
        coord_ok_i64(x),
        pos_ok(pdf_y as int),
        coord_ok_i64(w),
        coord_ok_i64(h),
        (fs matches Some(v) ==> v <= FONT_LIMIT),
        t@.len() <= TEXT_LIMIT,
    ensures
        final(content)@ == old(content)@ + text_field_ops(
            t@,
            x as int,
            pdf_y as int,
            w as int,
            h as int,
            match fs {
                Some(v) => Some(v as int),
                None => None,
            },
            align,
            va,
        ),
{
    let ghost fsv: Option<int> = match fs {
        Some(v) => Some(v as int),
        None => None,
    };
    let n = t.unicode_len();
    if n == 0 {
        proof {
            assert(final(content)@ =~= old(content)@);
        }
        return ;
    }
    push_fill_black(content);

    let base: i64 = match fs {
        Some(v) => {
            if v < 12000 {
                12000
            } else {
                v
            }
        },
        None => 12000,
    };
    let cw: i64 = ((base as u64) / 2) as i64;
    proof {
        assert(0 <= (n as int) * (cw as int) <= 1000000 * 500000) by (nonlinear_arith)
            requires
                0 <= n <= 1000000,
                0 <= cw <= 500000,
        ;
    }
    let tw: i64 = (n as i64) * cw;

    if tw <= w {
        let xoff = offset_exec(align, w, tw);
        let by = anchor_exec(pdf_y, h, base, va);
        push_set_font(content, "F1", base);
        push_text_pos(content, x + xoff, by);
        push_show_text(content, t);
        proof {
            assert(final(content)@ =~= old(content)@ + text_field_ops(
                t@,
                x as int,
                pdf_y as int,
                w as int,
                h as int,
                fsv,
                align,
                va,
            ));
        }
        return ;
    }

    let red: i64 = ((base as u64) * 9 / 10) as i64;
    let rcw: i64 = ((red as u64) / 2) as i64;
    proof {
        assert(0 <= (n as int) * (rcw as int) <= 1000000 * 500000) by (nonlinear_arith)
            requires
                0 <= n <= 1000000,
                0 <= rcw <= 500000,
        ;
    }
    let rtw: i64 = (n as i64) * rcw;

    if rtw <= w {
        let xoff = offset_exec(align, w, rtw);
        let ry = anchor_exec(pdf_y, h, red, va);
        push_set_font(content, "F1", red);
        push_text_pos(content, x + xoff, ry);
        push_show_text(content, t);
        proof {
            assert(final(content)@ =~= old(content)@ + text_field_ops(
                t@,
                x as int,
                pdf_y as int,
                w as int,
                h as int,
                fsv,
                align,
                va,
            ));
        }
        return ;
    }

    if render_wrapped(content, t, x, pdf_y, w, h, base, align, va) {
        proof {
            assert(final(content)@ =~= old(content)@ + text_field_ops(
                t@,
                x as int,
                pdf_y as int,
                w as int,
                h as int,
                fsv,
                align,
                va,
            ));
        }
        return ;
    }

    push_set_font(content, "F1", base);
    push_text_pos(content, x, pdf_y);
    push_show_text(content, t);
    proof {
        assert(final(content)@ =~= old(content)@ + text_field_ops(
            t@,
            x as int,
            pdf_y as int,
            w as int,
            h as int,
            fsv,
            align,
            va,
        ));
    }
}


/// A non-empty text whose estimated width at the base font size fits
/// the field width renders as one line with zero horizontal offset when
/// the alignment is left or unset, and zero vertical offset when the
/// field is exactly one line height (1.2 × the font size) tall,
/// whatever the vertical alignment asks for.
pub proof fn lemma_fitting_text_renders_plainly(
    t: Seq<char>,
    x: int,
    pdf_y: int,
    w: int,
    h: int,
    fs: Option<int>,
    align: Option<Alignment>,
    va: Option<VerticalAlignment>,
)
    requires
        t.len() > 0,
        t.len() * (base_font_size(fs) / 2) <= w,
        align is None || align == Some(Alignment::Left),
        h == base_font_size(fs) * 12 / 10,
    ensures
        text_field_ops(t, x, pdf_y, w, h, fs, align, va) == op_fill_black() + op_set_font(
            "F1"@,
            base_font_size(fs),
        ) + op_text_pos(x, pdf_y) + op_show_text(t),
{
    let base = base_font_size(fs);
    assert(10 * h <= 12 * base) by (nonlinear_arith)
        requires
            h == base * 12 / 10,
            base > 0,
    ;
    assert(v_anchor(pdf_y, h, base, va) == pdf_y);
    assert(h_offset(align, w, t.len() * (base / 2)) == 0);
}

} // verus!
