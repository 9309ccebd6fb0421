//! Decimal text for coordinates and object identifiers.
//!
//! All geometry in this crate is carried in integer milli-points (one
//! thousandth of a PDF point), so every number that ends up in a content
//! stream or a dictionary is rendered from an integer: either a plain
//! decimal (object identifiers, counts) or a fixed-point decimal with up
//! to three fractional digits (coordinates, font sizes).

use vstd::prelude::*;

verus! {

/// The decimal digit character for `d` (0 ≤ d ≤ 9).
pub open spec fn digit_char(d: int) -> char {
    if d == 0 {
        '0'
    } else if d == 1 {
        '1'
    } else if d == 2 {
        '2'
    } else if d == 3 {
        '3'
    } else if d == 4 {
        '4'
    } else if d == 5 {
        '5'
    } else if d == 6 {
        '6'
    } else if d == 7 {
        '7'
    } else if d == 8 {
        '8'
    } else {
        '9'
    }
}

/// The decimal digits of `n`, most significant first, no sign, no padding.
pub open spec fn dec_chars(n: nat) -> Seq<char>
    decreases n,
{
    if n < 10 {
        seq![digit_char(n as int)]
    } else {
        dec_chars(n / 10) + seq![digit_char((n % 10) as int)]
    }
}

/// The decimal digits of `n` left-padded with zeros to at least `w` characters.
pub open spec fn padded_chars(n: nat, w: nat) -> Seq<char>
    decreases n, w,
{
    if n >= 10 || w > 1 {
        padded_chars(n / 10, if w > 0 { (w - 1) as nat } else { 0 }) + seq![
            digit_char((n % 10) as int),
        ]
    } else {
        seq![digit_char((n % 10) as int)]
    }
}

/// The fractional digits of a milli-point remainder `f` (0 < f < 1000),
/// with trailing zeros trimmed.
pub open spec fn frac_chars(f: nat) -> Seq<char> {
    if f % 100 == 0 {
        seq![digit_char((f / 100) as int)]
    } else if f % 10 == 0 {
        seq![digit_char((f / 100) as int), digit_char(((f / 10) % 10) as int)]
    } else {
        seq![
            digit_char((f / 100) as int),
            digit_char(((f / 10) % 10) as int),
            digit_char((f % 10) as int),
        ]
    }
}

/// The decimal rendering of the milli-point value `v` in points: an
/// optional sign, the integer part, and a trimmed fractional part.
pub open spec fn fixed_chars(v: int) -> Seq<char> {
    let m = if v < 0 {
        -v
    } else {
        v
    };
    let sign: Seq<char> = if v < 0 {
        seq!['-']
    } else {
        Seq::empty()
    };
    let ip = (m / 1000) as nat;
    let fp = (m % 1000) as nat;
    if fp == 0 {
        sign + dec_chars(ip)
    } else {
        sign + dec_chars(ip) + seq!['.'] + frac_chars(fp)
    }
}

/// Appends the single digit `d` to `s`.
pub fn push_digit(s: &mut String, d: u64)
    requires
        d < 10,
    ensures
        final(s)@ == old(s)@ + seq![digit_char(d as int)],
{
    proof {
        reveal_strlit("0");
        reveal_strlit("1");
        reveal_strlit("2");
        reveal_strlit("3");
        reveal_strlit("4");
        reveal_strlit("5");
        reveal_strlit("6");
        reveal_strlit("7");
        reveal_strlit("8");
        reveal_strlit("9");
    }
    if d == 0 {
        s.append("0");
    } else if d == 1 {
        s.append("1");
    } else if d == 2 {
        s.append("2");
    } else if d == 3 {
        s.append("3");
    } else if d == 4 {
        s.append("4");
    } else if d == 5 {
        s.append("5");
    } else if d == 6 {
        s.append("6");
    } else if d == 7 {
        s.append("7");
    } else if d == 8 {
        s.append("8");
    } else {
        s.append("9");
    }
    proof {
        assert(final(s)@ =~= old(s)@ + seq![digit_char(d as int)]);
    }
}

/// Appends the decimal digits of `n` to `s`.
pub fn push_dec(s: &mut String, n: u64)
    ensures
        final(s)@ == old(s)@ + dec_chars(n as nat),
    decreases n,
{
    if n >= 10 {
        push_dec(s, n / 10);
    }
    push_digit(s, n % 10);
    proof {
        assert(final(s)@ =~= old(s)@ + dec_chars(n as nat));
    }
}

/// Appends the decimal digits of `n`, zero-padded to at least `w` characters.
pub fn push_padded(s: &mut String, n: u64, w: u64)
    ensures
        final(s)@ == old(s)@ + padded_chars(n as nat, w as nat),
    decreases n, w,
{
    if n >= 10 || w > 1 {
        push_padded(s, n / 10, if w > 0 { w - 1 } else { 0 });
    }
    push_digit(s, n % 10);
    proof {
        assert(final(s)@ =~= old(s)@ + padded_chars(n as nat, w as nat));
    }
}

/// Appends the fixed-point decimal for the milli-point value `v`.
pub fn push_fixed(s: &mut String, v: i64)
    requires
        v > i64::MIN,
    ensures
        final(s)@ == old(s)@ + fixed_chars(v as int),
{
    let m: u64 = if v < 0 {
        proof {
            reveal_strlit("-");
        }
        s.append("-");
        (-v) as u64
    } else {
        v as u64
    };
    push_dec(s, m / 1000);
    let fp = m % 1000;
    if fp != 0 {
        proof {
            reveal_strlit(".");
        }
        s.append(".");
        if fp % 100 == 0 {
            push_digit(s, fp / 100);
        } else if fp % 10 == 0 {
            push_digit(s, fp / 100);
            push_digit(s, (fp / 10) % 10);
        } else {
            push_digit(s, fp / 100);
            push_digit(s, (fp / 10) % 10);
            push_digit(s, fp % 10);
        }
    }
    proof {
        assert(final(s)@ =~= old(s)@ + fixed_chars(v as int));
    }
}

} // verus!
