//! Content-stream operator emission.
//!
//! Content streams are built as ASCII text: one operator per line, with
//! numbers rendered as fixed-point decimals of milli-point values. Text
//! shown with `Tj` is wrapped in a literal string whose `(`, `)` and `\`
//! characters are escaped with a backslash.

use vstd::prelude::*;
use crate::numfmt::{dec_chars, fixed_chars, push_dec, push_fixed};

verus! {

/// `t` with every `(`, `)` and `\` prefixed by a backslash.
pub open spec fn esc_chars(t: Seq<char>) -> Seq<char>
    decreases t.len(),
{
    if t.len() == 0 {
        Seq::empty()
    } else {
        let head: Seq<char> = if t[0] == '(' || t[0] == ')' || t[0] == '\\' {
            seq!['\\', t[0]]
        } else {
            seq![t[0]]
        };
        head + esc_chars(t.drop_first())
    }
}

/// Appends `esc_chars(t@)` to `s`.
pub fn push_escaped(s: &mut String, t: &str)
    ensures
        final(s)@ == old(s)@ + esc_chars(t@),
{
    let n = t.unicode_len();
    let mut i: usize = 0;
    while i < n
        invariant
            n == t@.len(),
            i <= n,
            s@ == old(s)@ + esc_chars(t@.take(i as int)),
        decreases n - i,
    {
        let c = t.get_char(i);
        proof {
            reveal_strlit("\\");
            reveal_strlit("(");
            reveal_strlit(")");
        }
        if c == '(' {
            s.append("\\");
            s.append("(");
        } else if c == ')' {
            s.append("\\");
            s.append(")");
        } else if c == '\\' {
            s.append("\\");
            s.append("\\");
        } else {
            let piece = t.substring_char(i, i + 1);
            proof {
                assert(piece@ =~= seq![t@[i as int]]);
            }
            s.append(piece);
        }
        proof {
            lemma_esc_take_step(t@, i as int);
            assert(s@ =~= old(s)@ + esc_chars(t@.take(i as int + 1)));
        }
        i = i + 1;
    }
    proof {
        assert(t@.take(n as int) =~= t@);
    }
}

/// `esc_chars` over a prefix grows by the escaping of the next character.
proof fn lemma_esc_take_step(t: Seq<char>, i: int)
    requires
        0 <= i < t.len(),
    ensures
        esc_chars(t.take(i + 1)) == esc_chars(t.take(i)) + (if t[i] == '(' || t[i] == ')' || t[i]
            == '\\' {
            seq!['\\', t[i]]
        } else {
            seq![t[i]]
        }),
    decreases i,
{
    let pre = t.take(i + 1);
    if i == 0 {
        assert(pre.drop_first() =~= t.take(0));
        assert(esc_chars(t.take(0)) =~= Seq::<char>::empty());
        assert(esc_chars(pre) =~= esc_chars(t.take(0)) + (if t[0] == '(' || t[0] == ')' || t[0]
            == '\\' {
            seq!['\\', t[0]]
        } else {
            seq![t[0]]
        }));
    } else {
        lemma_esc_take_step(t.drop_first(), i - 1);
        assert(pre.drop_first() =~= t.drop_first().take(i));
        assert(t.take(i).drop_first() =~= t.drop_first().take(i - 1));
        assert(t.drop_first()[i - 1] == t[i]);
        assert(esc_chars(t.take(i + 1)) =~= esc_chars(t.take(i)) + (if t[i] == '(' || t[i] == ')'
            || t[i] == '\\' {
            seq!['\\', t[i]]
        } else {
            seq![t[i]]
        }));
    }
}

/// `BT` — begin a text object.
pub open spec fn op_begin_text() -> Seq<char> {
    "BT\n"@
}

/// `ET` — end a text object.
pub open spec fn op_end_text() -> Seq<char> {
    "ET\n"@
}

/// `0 0 0 rg` — select a black fill.
pub open spec fn op_fill_black() -> Seq<char> {
    "0 0 0 rg\n"@
}

/// `/<font> <size> Tf` — select a font resource at a size.
pub open spec fn op_set_font(font: Seq<char>, size: int) -> Seq<char> {
    "/"@ + font + " "@ + fixed_chars(size) + " Tf\n"@
}

/// `<x> <y> Td` — move the text line origin.
pub open spec fn op_text_pos(x: int, y: int) -> Seq<char> {
    fixed_chars(x) + " "@ + fixed_chars(y) + " Td\n"@
}

/// `(<text>) Tj` — show escaped text.
pub open spec fn op_show_text(t: Seq<char>) -> Seq<char> {
    "("@ + esc_chars(t) + ") Tj\n"@
}

/// `q` — save the graphics state.
pub open spec fn op_save_state() -> Seq<char> {
    "q\n"@
}

/// `Q` — restore the graphics state.
pub open spec fn op_restore_state() -> Seq<char> {
    "Q\n"@
}

/// `<w> 0 0 <h> <x> <y> cm` — the placement transform for an image.
pub open spec fn op_transform(w: int, h: int, x: int, y: int) -> Seq<char> {
    fixed_chars(w) + " 0 0 "@ + fixed_chars(h) + " "@ + fixed_chars(x) + " "@ + fixed_chars(y)
        + " cm\n"@
}

/// `/Im<id> Do` — paint an image XObject.
pub open spec fn op_draw_image(id: nat) -> Seq<char> {
    "/Im"@ + dec_chars(id) + " Do\n"@
}

pub fn push_begin_text(s: &mut String)
    ensures
        final(s)@ == old(s)@ + op_begin_text(),
{
    s.append("BT\n");
}

pub fn push_end_text(s: &mut String)
    ensures
        final(s)@ == old(s)@ + op_end_text(),
{
    s.append("ET\n");
}

pub fn push_fill_black(s: &mut String)
    ensures
        final(s)@ == old(s)@ + op_fill_black(),
{
    s.append("0 0 0 rg\n");
}

pub fn push_set_font(s: &mut String, font: &str, size: i64)
    requires
        size > i64::MIN,
    ensures
        final(s)@ == old(s)@ + op_set_font(font@, size as int),
{
    s.append("/");
    s.append(font);
    s.append(" ");
    push_fixed(s, size);
    s.append(" Tf\n");
    proof {
        assert(final(s)@ =~= old(s)@ + op_set_font(font@, size as int));
    }
}

pub fn push_text_pos(s: &mut String, x: i64, y: i64)
    requires
        x > i64::MIN,
        y > i64::MIN,
    ensures
        final(s)@ == old(s)@ + op_text_pos(x as int, y as int),
{
    push_fixed(s, x);
    s.append(" ");
    push_fixed(s, y);
    s.append(" Td\n");
    proof {
        assert(final(s)@ =~= old(s)@ + op_text_pos(x as int, y as int));
    }
}

pub fn push_show_text(s: &mut String, t: &str)
    ensures
        final(s)@ == old(s)@ + op_show_text(t@),
{
    s.append("(");
    push_escaped(s, t);
    s.append(") Tj\n");
    proof {
        assert(final(s)@ =~= old(s)@ + op_show_text(t@));
    }
}

pub fn push_save_state(s: &mut String)
    ensures
        final(s)@ == old(s)@ + op_save_state(),
{
    s.append("q\n");
}

pub fn push_restore_state(s: &mut String)
    ensures
        final(s)@ == old(s)@ + op_restore_state(),
{
    s.append("Q\n");
}

pub fn push_transform(s: &mut String, w: i64, h: i64, x: i64, y: i64)
    requires
        w > i64::MIN,
        h > i64::MIN,
        x > i64::MIN,
        y > i64::MIN,
    ensures
        final(s)@ == old(s)@ + op_transform(w as int, h as int, x as int, y as int),
{
    push_fixed(s, w);
    s.append(" 0 0 ");
    push_fixed(s, h);
    s.append(" ");
    push_fixed(s, x);
    s.append(" ");
    push_fixed(s, y);
    s.append(" cm\n");
    proof {
        assert(final(s)@ =~= old(s)@ + op_transform(w as int, h as int, x as int, y as int));
    }
}

pub fn push_draw_image(s: &mut String, id: usize)
    ensures
        final(s)@ == old(s)@ + op_draw_image(id as nat),
{
    s.append("/Im");
    push_dec(s, id as u64);
    s.append(" Do\n");
    proof {
        assert(final(s)@ =~= old(s)@ + op_draw_image(id as nat));
    }
}

} // verus!
